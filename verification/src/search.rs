//! Matching search results back to the queries that asked for them, and
//! batching the matched tracks for the requests that add them to a playlist.

use vstd::prelude::*;
use crate::text::{
    lemma_remove_absent, lemma_remove_all_len, lemma_remove_all_single,
    lemma_remove_single_is_filter, lowercase, occurs_in, remove_all, remove_pattern, texts,
    to_lower,
};

verus! {

/// How many tracks one request adds to a playlist.
pub const TRACKS_PER_REQUEST: usize = 80;

/// A track that a search returned, as matching reads it: its URI and the
/// names of its artists.
#[derive(Debug, Clone)]
pub struct FoundTrack {
    pub uri: String,
    pub artist_names: Vec<String>,
}

/// The outcome of one search: the artist and the query searched for, and
/// the tracks found; `None` where the search failed or found no track list.
#[derive(Debug, Clone)]
pub struct SearchOutcome {
    pub artist: String,
    pub query: String,
    pub tracks: Option<Vec<FoundTrack>>,
}

// ---------------------------------------------------------------------------
// Models
// ---------------------------------------------------------------------------

/// The marker of a featured artist that queries drop: `(feat. `.
pub open spec fn feat_marker() -> Seq<char> {
    seq!['(', 'f', 'e', 'a', 't', '.', ' ']
}

/// A query as it is searched for: every `(feat. ` removed, then every `)`.
pub open spec fn sanitized(query: Seq<char>) -> Seq<char> {
    remove_all(remove_all(query, feat_marker()), seq![')'])
}

/// The lower-cased artist names of a track.
pub open spec fn track_artists(t: FoundTrack) -> Seq<Seq<char>> {
    t.artist_names@.map_values(|n: String| lowercase(n@))
}

/// Whether a track is by the given (lower-case) artist.
pub open spec fn is_by(t: FoundTrack, artist: Seq<char>) -> bool {
    track_artists(t).contains(artist)
}

/// The URI of the first track by the artist, if any.
pub open spec fn first_by(tracks: Seq<FoundTrack>, artist: Seq<char>) -> Option<Seq<char>>
    decreases tracks.len(),
{
    if tracks.len() == 0 {
        None
    } else if is_by(tracks[0], artist) {
        Some(tracks[0].uri@)
    } else {
        first_by(tracks.drop_first(), artist)
    }
}

/// The URI that a search outcome contributes, if any.
pub open spec fn outcome_uri(o: SearchOutcome) -> Option<Seq<char>> {
    match o.tracks {
        Some(ts) => first_by(ts@, o.artist@),
        None => None,
    }
}

/// The report of a search that found tracks, none by the artist.
pub open spec fn not_found_message(artist: Seq<char>, query: Seq<char>) -> Seq<char> {
    "Could not find "@ + artist + " "@ + query
}

/// The URIs that the outcomes contribute, in order.
pub open spec fn matched_uris(rs: Seq<SearchOutcome>) -> Seq<Seq<char>>
    decreases rs.len(),
{
    if rs.len() == 0 {
        Seq::empty()
    } else {
        let prev = matched_uris(rs.drop_last());
        match outcome_uri(rs.last()) {
            Some(u) => prev.push(u),
            None => prev,
        }
    }
}

/// The reports of the outcomes that found tracks but none by the artist.
pub open spec fn failed_messages(rs: Seq<SearchOutcome>) -> Seq<Seq<char>>
    decreases rs.len(),
{
    if rs.len() == 0 {
        Seq::empty()
    } else {
        let prev = failed_messages(rs.drop_last());
        let o = rs.last();
        if o.tracks is Some && outcome_uri(o) is None {
            prev.push(not_found_message(o.artist@, o.query@))
        } else {
            prev
        }
    }
}

/// How many outcomes found a track list.
pub open spec fn searches_with_tracks(rs: Seq<SearchOutcome>) -> nat
    decreases rs.len(),
{
    if rs.len() == 0 {
        0
    } else {
        searches_with_tracks(rs.drop_last()) + if rs.last().tracks is Some {
            1nat
        } else {
            0nat
        }
    }
}

// ---------------------------------------------------------------------------
// Laws
// ---------------------------------------------------------------------------

/// A track counts as by an artist exactly when one of its artist names,
/// at any position, lower-cased, is the artist.
pub proof fn lemma_is_by(t: FoundTrack, artist: Seq<char>)
    ensures
        is_by(t, artist) <==> exists|k: int|
            0 <= k < t.artist_names.len() && lowercase(#[trigger] t.artist_names@[k]@) == artist,
{
    if is_by(t, artist) {
        let k = choose|k: int| 0 <= k < track_artists(t).len() && track_artists(t)[k] == artist;
        assert(lowercase(t.artist_names@[k]@) == artist);
    }
    if exists|k: int|
        0 <= k < t.artist_names.len() && lowercase(#[trigger] t.artist_names@[k]@) == artist {
        let k = choose|k: int|
            0 <= k < t.artist_names.len() && lowercase(#[trigger] t.artist_names@[k]@) == artist;
        assert(track_artists(t)[k] == artist);
    }
}

/// What a search outcome contributes, in terms of the tracks it found: a
/// failed search contributes nothing; a search that found tracks
/// contributes nothing exactly when no artist name of any track, lower-cased,
/// is the artist, and otherwise the URI of a track with such a name before
/// which no track has one.
pub proof fn lemma_outcome_uri(o: SearchOutcome)
    ensures
        o.tracks is None ==> outcome_uri(o) is None,
        o.tracks matches Some(ts) ==> {
            &&& (outcome_uri(o) is None <==> forall|i: int, k: int|
                0 <= i < ts.len() && 0 <= k < ts@[i].artist_names.len() ==> lowercase(
                    #[trigger] ts@[i].artist_names@[k]@,
                ) != o.artist@)
            &&& outcome_uri(o) matches Some(uri) ==> exists|i: int|
                0 <= i < ts.len() && (#[trigger] ts@[i]).uri@ == uri && (exists|k: int|
                    0 <= k < ts@[i].artist_names.len() && lowercase(
                        #[trigger] ts@[i].artist_names@[k]@,
                    ) == o.artist@) && forall|j: int, k: int|
                    0 <= j < i && 0 <= k < ts@[j].artist_names.len() ==> lowercase(
                        #[trigger] ts@[j].artist_names@[k]@,
                    ) != o.artist@
        },
{
    if o.tracks is Some {
        lemma_first_by_names(o.tracks->0@, o.artist@);
    }
}

/// `first_by` in terms of the tracks' artist names (see `lemma_outcome_uri`).
pub proof fn lemma_first_by_names(tracks: Seq<FoundTrack>, artist: Seq<char>)
    ensures
        first_by(tracks, artist) is None <==> forall|i: int, k: int|
            0 <= i < tracks.len() && 0 <= k < tracks[i].artist_names.len() ==> lowercase(
                #[trigger] tracks[i].artist_names@[k]@,
            ) != artist,
        first_by(tracks, artist) matches Some(uri) ==> exists|i: int|
            0 <= i < tracks.len() && (#[trigger] tracks[i]).uri@ == uri && (exists|k: int|
                0 <= k < tracks[i].artist_names.len() && lowercase(
                    #[trigger] tracks[i].artist_names@[k]@,
                ) == artist) && forall|j: int, k: int|
                0 <= j < i && 0 <= k < tracks[j].artist_names.len() ==> lowercase(
                    #[trigger] tracks[j].artist_names@[k]@,
                ) != artist,
{
    lemma_first_by(tracks, artist);
    assert forall|i: int| 0 <= i < tracks.len() implies (is_by(#[trigger] tracks[i], artist) <==> exists|k: int|
        0 <= k < tracks[i].artist_names.len() && lowercase(#[trigger] tracks[i].artist_names@[k]@) == artist) by {
        lemma_is_by(tracks[i], artist);
    }
    if first_by(tracks, artist) is None {
        assert forall|i: int, k: int|
            0 <= i < tracks.len() && 0 <= k < tracks[i].artist_names.len() implies lowercase(
                #[trigger] tracks[i].artist_names@[k]@,
            ) != artist by {
            assert(!is_by(tracks[i], artist));
        }
    } else {
        let uri = first_by(tracks, artist)->0;
        let i = choose|i: int|
            0 <= i < tracks.len() && is_by(#[trigger] tracks[i], artist) && tracks[i].uri@ == uri
                && forall|k: int| 0 <= k < i ==> !is_by(#[trigger] tracks[k], artist);
        assert(is_by(tracks[i], artist));
        assert forall|j: int, k: int|
            0 <= j < i && 0 <= k < tracks[j].artist_names.len() implies lowercase(
                #[trigger] tracks[j].artist_names@[k]@,
            ) != artist by {
            assert(!is_by(tracks[j], artist));
        }
        assert(tracks[i].uri@ == uri);
        let k0 = choose|k: int|
            0 <= k < tracks[i].artist_names.len() && lowercase(#[trigger] tracks[i].artist_names@[k]@) == artist;
        assert(lowercase(tracks[i].artist_names@[k0]@) == artist);
    }
}

/// The first track by an artist, in direct terms: there is none exactly
/// when no track is by the artist; otherwise its URI is that of a track by
/// the artist before which no track is by the artist.
pub proof fn lemma_first_by(tracks: Seq<FoundTrack>, artist: Seq<char>)
    ensures
        first_by(tracks, artist) is None <==> forall|i: int|
            0 <= i < tracks.len() ==> !is_by(#[trigger] tracks[i], artist),
        first_by(tracks, artist) matches Some(uri) ==> exists|i: int|
            0 <= i < tracks.len() && is_by(#[trigger] tracks[i], artist) && tracks[i].uri@ == uri
                && forall|k: int| 0 <= k < i ==> !is_by(#[trigger] tracks[k], artist),
    decreases tracks.len(),
{
    if tracks.len() > 0 {
        let rest = tracks.drop_first();
        lemma_first_by(rest, artist);
        if !is_by(tracks[0], artist) {
            if first_by(rest, artist) is None {
                assert forall|i: int| 0 <= i < tracks.len() implies !is_by(#[trigger] tracks[i], artist) by {
                    if i > 0 {
                        assert(tracks[i] == rest[i - 1]);
                    }
                }
            } else {
                let uri = first_by(rest, artist)->0;
                let j = choose|j: int|
                    0 <= j < rest.len() && is_by(#[trigger] rest[j], artist) && rest[j].uri@ == uri
                        && forall|k: int| 0 <= k < j ==> !is_by(#[trigger] rest[k], artist);
                assert(is_by(tracks[j + 1], artist) && tracks[j + 1].uri@ == uri);
                assert forall|k: int| 0 <= k < j + 1 implies !is_by(#[trigger] tracks[k], artist) by {
                    if k > 0 {
                        assert(tracks[k] == rest[k - 1]);
                    }
                }
            }
        }
    }
}

/// Every search that found a track list is answered exactly once: by the
/// URI of a track by the artist, or by a report that none was found.
pub proof fn lemma_every_found_search_answered(rs: Seq<SearchOutcome>)
    ensures
        matched_uris(rs).len() + failed_messages(rs).len() == searches_with_tracks(rs),
    decreases rs.len(),
{
    if rs.len() > 0 {
        lemma_every_found_search_answered(rs.drop_last());
    }
}

// ---------------------------------------------------------------------------
// Executable functions
// ---------------------------------------------------------------------------

/// The query as it is searched for: `(feat. ` and `)` removed.
pub fn sanitize_query(query: String) -> (res: String)
    ensures
        res@ == sanitized(query@),
        !res@.contains(')'),
        res@.len() <= query@.len(),
        res@ == remove_all(query@, feat_marker()).filter(|c: char| c != ')'),
        !occurs_in(feat_marker(), query@) ==> res@ == query@.filter(|c: char| c != ')'),
{
    let marker = vec!['(', 'f', 'e', 'a', 't', '.', ' '];
    assert(marker@ =~= feat_marker());
    let without_marker = remove_pattern(query.as_str(), &marker);
    let close = vec![')'];
    assert(close@ =~= seq![')']);
    let res = remove_pattern(without_marker.as_str(), &close);
    proof {
        lemma_remove_all_single(without_marker@, ')');
        lemma_remove_all_len(query@, feat_marker());
        lemma_remove_all_len(without_marker@, seq![')']);
        lemma_remove_single_is_filter(without_marker@, ')');
        if !occurs_in(feat_marker(), query@) {
            lemma_remove_absent(query@, feat_marker());
        }
    }
    res
}

/// The lower-cased artist names of a track.
pub fn build_track_artists(track: &FoundTrack) -> (res: Vec<String>)
    ensures
        texts(res@) == track_artists(*track),
{
    let mut out: Vec<String> = Vec::new();
    let mut j: usize = 0;
    while j < track.artist_names.len()
        invariant
            j <= track.artist_names.len(),
            out.len() == j,
            texts(out@) == track_artists(*track).take(j as int),
        decreases track.artist_names.len() - j,
    {
        let ghost prev = out@;
        let name = to_lower(track.artist_names[j].as_str());
        out.push(name);
        assert forall|k: int| 0 <= k <= j implies texts(out@)[k] == track_artists(*track).take(
            j + 1,
        )[k] by {
            if k < j {
                assert(texts(prev)[k] == track_artists(*track).take(j as int)[k]);
                assert(out@[k] == prev[k]);
            } else {
                assert(texts(out@)[k] == out@[k]@);
                assert(track_artists(*track)[k] == lowercase(track.artist_names@[k]@));
            }
        }
        assert(texts(out@) =~= track_artists(*track).take(j + 1));
        j = j + 1;
    }
    assert(track_artists(*track).take(j as int) =~= track_artists(*track));
    out
}

/// Whether `v` holds a string equal to `s`.
fn holds_text(v: &Vec<String>, s: &String) -> (res: bool)
    ensures
        res == texts(v@).contains(s@),
{
    let mut j: usize = 0;
    while j < v.len()
        invariant
            j <= v.len(),
            forall|k: int| 0 <= k < j ==> v@[k]@ != s@,
        decreases v.len() - j,
    {
        if v[j] == *s {
            assert(texts(v@)[j as int] == s@);
            return true;
        }
        j = j + 1;
    }
    assert forall|k: int| 0 <= k < texts(v@).len() implies texts(v@)[k] != s@ by {
        assert(texts(v@)[k] == v@[k]@);
    }
    false
}

/// The URI of the first track by the (lower-case) artist, if any.
pub fn pick_track_uri(artist: &String, tracks: &Vec<FoundTrack>) -> (res: Option<String>)
    ensures
        match res {
            Some(uri) => first_by(tracks@, artist@) == Some(uri@),
            None => first_by(tracks@, artist@) is None,
        },
        res is None <==> forall|i: int| 0 <= i < tracks.len() ==> !is_by(#[trigger] tracks@[i], artist@),
        res matches Some(uri) ==> exists|i: int|
            0 <= i < tracks.len() && is_by(#[trigger] tracks@[i], artist@) && tracks@[i].uri@ == uri@
                && forall|k: int| 0 <= k < i ==> !is_by(#[trigger] tracks@[k], artist@),
        res is None <==> forall|i: int, k: int|
            0 <= i < tracks.len() && 0 <= k < tracks@[i].artist_names.len() ==> lowercase(
                #[trigger] tracks@[i].artist_names@[k]@,
            ) != artist@,
        res matches Some(uri) ==> exists|i: int|
            0 <= i < tracks.len() && (#[trigger] tracks@[i]).uri@ == uri@ && (exists|k: int|
                0 <= k < tracks@[i].artist_names.len() && lowercase(
                    #[trigger] tracks@[i].artist_names@[k]@,
                ) == artist@) && forall|j: int, k: int|
                0 <= j < i && 0 <= k < tracks@[j].artist_names.len() ==> lowercase(
                    #[trigger] tracks@[j].artist_names@[k]@,
                ) != artist@,
{
    let mut i: usize = 0;
    assert(tracks@.skip(0) =~= tracks@);
    while i < tracks.len()
        invariant
            i <= tracks.len(),
            first_by(tracks@, artist@) == first_by(tracks@.skip(i as int), artist@),
        decreases tracks.len() - i,
    {
        let artists = build_track_artists(&tracks[i]);
        let ghost rest = tracks@.skip(i as int);
        assert(rest[0] == tracks@[i as int]);
        if holds_text(&artists, artist) {
            let uri = tracks[i].uri.clone();
            assert(first_by(tracks@, artist@) == Some(uri@));
            proof {
                lemma_first_by(tracks@, artist@);
                lemma_first_by_names(tracks@, artist@);
            }
            return Some(uri);
        }
        assert(rest.drop_first() =~= tracks@.skip(i + 1));
        i = i + 1;
    }
    proof {
        lemma_first_by(tracks@, artist@);
        lemma_first_by_names(tracks@, artist@);
    }
    None
}

/// The report of a search that found tracks, none by the artist.
pub fn not_found(artist: &String, query: &String) -> (res: String)
    ensures
        res@ == not_found_message(artist@, query@),
{
    let mut message = String::from_str("Could not find ");
    message.append(artist.as_str());
    message.append(" ");
    message.append(query.as_str());
    message
}

/// Sorts the outcomes of the searches: the URI of the first track by each
/// query's artist, in order, and a report for each search that found
/// tracks but none by the artist. Failed searches contribute nothing.
pub fn match_search_results(results: &Vec<SearchOutcome>) -> (res: (Vec<String>, Vec<String>))
    ensures
        texts(res.0@) == matched_uris(results@),
        texts(res.1@) == failed_messages(results@),
{
    let mut uris: Vec<String> = Vec::new();
    let mut failed: Vec<String> = Vec::new();
    let mut i: usize = 0;
    assert(results@.take(0) =~= Seq::<SearchOutcome>::empty());
    while i < results.len()
        invariant
            i <= results.len(),
            texts(uris@) == matched_uris(results@.take(i as int)),
            texts(failed@) == failed_messages(results@.take(i as int)),
        decreases results.len() - i,
    {
        let outcome = &results[i];
        let ghost before = results@.take(i as int);
        let ghost now = results@.take(i + 1);
        assert(now.drop_last() =~= before);
        assert(now.last() == *outcome);
        match &outcome.tracks {
            Some(tracks) => {
                match pick_track_uri(&outcome.artist, tracks) {
                    Some(uri) => {
                        uris.push(uri);
                        assert(texts(uris@) =~= matched_uris(now));
                    },
                    None => {
                        failed.push(not_found(&outcome.artist, &outcome.query));
                        assert(texts(failed@) =~= failed_messages(now));
                    },
                }
            },
            None => {},
        }
        i = i + 1;
    }
    assert(results@.take(i as int) =~= results@);
    (uris, failed)
}

/// The contents of a list of batches.
pub open spec fn batch_contents(batches: Seq<Vec<String>>) -> Seq<Seq<String>> {
    batches.map_values(|b: Vec<String>| b@)
}

/// Splits the URIs into batches of `size`, in order, as `chunks(size)` does:
/// the batches together hold the URIs in order, none is empty, none holds
/// more than `size`, and all but the last hold exactly `size`.
pub fn chunk_track_uris(uris: &Vec<String>, size: usize) -> (res: Vec<Vec<String>>)
    requires
        size > 0,
    ensures
        batch_contents(res@).flatten() == uris@,
        res.len() == (uris.len() + size - 1) / size as int,
        forall|i: int| 0 <= i < res.len() ==> 0 < (#[trigger] res@[i]).len() <= size,
        forall|i: int| 0 <= i < res.len() - 1 ==> (#[trigger] res@[i]).len() == size,
{
    let n = uris.len();
    let mut out: Vec<Vec<String>> = Vec::new();
    let mut start: usize = 0;
    assert(uris@.take(0) =~= Seq::<String>::empty());
    assert(batch_contents(out@) =~= Seq::<Seq<String>>::empty());
    assert(out.len() * size == 0) by (nonlinear_arith)
        requires
            out.len() == 0,
    ;
    while start < n
        invariant
            start <= n,
            n == uris.len(),
            size > 0,
            batch_contents(out@).flatten() == uris@.take(start as int),
            forall|i: int| 0 <= i < out.len() ==> 0 < (#[trigger] out@[i]).len() <= size,
            start < n ==> forall|i: int| 0 <= i < out.len() ==> (#[trigger] out@[i]).len() == size,
            start == n ==> forall|i: int| 0 <= i < out.len() - 1 ==> (#[trigger] out@[i]).len() == size,
            start == n || start == out.len() * size,
            start <= out.len() * size,
            out.len() > 0 ==> (out.len() - 1) * size < start,
        decreases n - start,
    {
        let end = if n - start < size {
            n
        } else {
            start + size
        };
        let mut batch: Vec<String> = Vec::new();
        let mut k: usize = start;
        while k < end
            invariant
                start <= k <= end,
                end <= n,
                n == uris.len(),
                batch@ == uris@.subrange(start as int, k as int),
            decreases end - k,
        {
            batch.push(uris[k].clone());
            assert(batch@ =~= uris@.subrange(start as int, k + 1));
            k = k + 1;
        }
        let ghost prev = out@;
        assert(batch@.len() == end - start);
        assert((out.len() + 1) * size == out.len() * size + size) by (nonlinear_arith);
        out.push(batch);
        assert(batch_contents(out@) =~= batch_contents(prev).push(uris@.subrange(start as int, end as int)));
        proof {
            batch_contents(prev).lemma_flatten_push(uris@.subrange(start as int, end as int));
        }
        assert(uris@.take(start as int) + uris@.subrange(start as int, end as int) =~= uris@.take(end as int));
        start = end;
    }
    proof {
        let l = out.len() as int;
        let m = size as int;
        let k = n as int;
        if l == 0 {
            assert((k + m - 1) / m == 0) by (nonlinear_arith)
                requires
                    k == 0,
                    m > 0,
            ;
        } else {
            assert(l == (k + m - 1) / m) by (nonlinear_arith)
                requires
                    (l - 1) * m < k,
                    k <= l * m,
                    m > 0,
            ;
        }
    }
    out
}

} // verus!
