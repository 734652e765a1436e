//! YouTube playlist dumps: the page data of a playlist, and the queries
//! read from its video titles ("artist - song [extra]").

use vstd::prelude::*;
use crate::cli::Opts;
use crate::text::{
    after, all_ascii, ascii_lower, ascii_lower_char, before, chars_of, drop_trailing_space,
    ends_with_space, has_char, lemma_ascii_lower, lemma_cut_at_start, lemma_cut_commutes_with_ascii_lower,
    lemma_cut_concat, lemma_pieces_stay_ascii, lowercase, part_after, part_before,
    starts_with_space, to_lower, trim_end, trim_start, trimmed_end, trimmed_start,
    without_trailing_space,
};

verus! {

#[derive(Default, Debug, Clone, PartialEq)]
pub struct YoutubeData {
    pub contents: Contents,
}

#[derive(Default, Debug, Clone, PartialEq)]
pub struct Contents {
    pub two_column_browse_results_renderer: TwoColumnBrowseResultsRenderer,
}

#[derive(Default, Debug, Clone, PartialEq)]
pub struct TwoColumnBrowseResultsRenderer {
    pub tabs: Vec<Tab>,
}

#[derive(Default, Debug, Clone, PartialEq)]
pub struct Tab {
    pub tab_renderer: TabRenderer,
}

#[derive(Default, Debug, Clone, PartialEq)]
pub struct TabRenderer {
    pub content: Content,
}

#[derive(Default, Debug, Clone, PartialEq)]
pub struct Content {
    pub section_list_renderer: SectionListRenderer,
}

#[derive(Default, Debug, Clone, PartialEq)]
pub struct SectionListRenderer {
    pub contents: Vec<Content2>,
}

#[derive(Default, Debug, Clone, PartialEq)]
pub struct Content2 {
    pub item_section_renderer: ItemSectionRenderer,
}

#[derive(Default, Debug, Clone, PartialEq)]
pub struct ItemSectionRenderer {
    pub contents: Vec<Content3>,
}

#[derive(Default, Debug, Clone, PartialEq)]
pub struct Content3 {
    pub playlist_video_list_renderer: PlaylistVideoListRenderer,
}

/// The list of a playlist's entries: videos, and the marker that more follow.
#[derive(Default, Debug, Clone, PartialEq)]
pub struct PlaylistVideoListRenderer {
    pub contents: Vec<Content4>,
}

#[derive(Default, Debug, Clone, PartialEq)]
pub struct Content4 {
    pub playlist_video_renderer: Option<PlaylistVideoRenderer>,
    pub continuation_item_renderer: Option<ContinuationItemRenderer>,
}

#[derive(Default, Debug, Clone, PartialEq)]
pub struct PlaylistVideoRenderer {
    pub title: Title,
    pub short_byline_text: ShortBylineText,
}

#[derive(Default, Debug, Clone, PartialEq)]
pub struct Title {
    pub runs: Vec<Run>,
}

#[derive(Default, Debug, Clone, PartialEq)]
pub struct Run {
    pub text: String,
}

#[derive(Default, Debug, Clone, PartialEq)]
pub struct ShortBylineText {
    pub runs: Vec<Run2>,
}

#[derive(Default, Debug, Clone, PartialEq)]
pub struct Run2 {
    pub text: String,
    pub navigation_endpoint: NavigationEndpoint,
}

#[derive(Default, Debug, Clone, PartialEq)]
pub struct NavigationEndpoint {
    pub click_tracking_params: String,
    pub command_metadata: CommandMetadata,
    pub browse_endpoint: BrowseEndpoint,
}

#[derive(Default, Debug, Clone, PartialEq)]
pub struct CommandMetadata {
    pub web_command_metadata: WebCommandMetadata,
}

#[derive(Default, Debug, Clone, PartialEq)]
pub struct WebCommandMetadata {
    pub url: String,
    pub web_page_type: String,
    pub root_ve: i64,
    pub api_url: String,
}

#[derive(Default, Debug, Clone, PartialEq)]
pub struct BrowseEndpoint {
    pub browse_id: String,
    pub canonical_base_url: String,
}

#[derive(Default, Debug, Clone, PartialEq)]
pub struct ContinuationItemRenderer {
    pub trigger: String,
    pub continuation_endpoint: ContinuationEndpoint,
}

#[derive(Default, Debug, Clone, PartialEq)]
pub struct ContinuationEndpoint {
    pub click_tracking_params: String,
    pub command_metadata: CommandMetadata2,
    pub continuation_command: ContinuationCommand,
}

#[derive(Default, Debug, Clone, PartialEq)]
pub struct CommandMetadata2 {
    pub web_command_metadata: WebCommandMetadata2,
}

#[derive(Default, Debug, Clone, PartialEq)]
pub struct WebCommandMetadata2 {
    pub send_post: bool,
    pub api_url: String,
}

#[derive(Default, Debug, Clone, PartialEq)]
pub struct ContinuationCommand {
    pub token: String,
    pub request: String,
}

/// Reads the queries of a YouTube playlist.
#[derive(Default, Debug, Clone)]
pub struct YoutubeProvider {
    pub playlist: String,
}

/// A video title that has no `-` between artist and song.
#[derive(Debug, Clone, Copy, PartialEq, Eq, Structural)]
pub enum TitleError {
    NoSeparator,
}

// ---------------------------------------------------------------------------
// Models
// ---------------------------------------------------------------------------

/// A way of lower-casing strings.
pub type Lowering = spec_fn(Seq<char>) -> Seq<char>;

/// Unicode lower-casing, as `str::to_lowercase` does it.
pub open spec fn unicode_lowering() -> Lowering {
    |s: Seq<char>| lowercase(s)
}

/// ASCII lower-casing, which `str::to_lowercase` does on ASCII strings.
pub open spec fn ascii_lowering() -> Lowering {
    |s: Seq<char>| ascii_lower(s)
}

/// The artist that a title names: the text before the first `-`,
/// lower-cased by `low`, less one trailing space.
pub open spec fn title_artist_with(title: Seq<char>, low: Lowering) -> Seq<char> {
    drop_trailing_space(low(before(title, '-')))
}

/// A song name cut before its `[`: white space trimmed (and lower-cased
/// again by `low`) at the end, then at the start, where a space stands there.
pub open spec fn tidy_song_with(s: Seq<char>, low: Lowering) -> Seq<char> {
    let s1 = if ends_with_space(s) {
        low(trim_end(s))
    } else {
        s
    };
    if starts_with_space(s1) {
        low(trim_start(s1))
    } else {
        s1
    }
}

/// The song that a title names: the text between the first and the second
/// `-`, lower-cased by `low`; where it holds a `[`, only what stands before
/// it, tidied.
pub open spec fn title_song_with(title: Seq<char>, low: Lowering) -> Seq<char> {
    let song = before(after(title, '-'), '-');
    if song.contains('[') {
        tidy_song_with(low(before(song, '[')), low)
    } else {
        low(song)
    }
}

/// The artist that a title names, lower-cased as `str::to_lowercase` does.
pub open spec fn title_artist(title: Seq<char>) -> Seq<char> {
    title_artist_with(title, unicode_lowering())
}

/// A cut song name tidied, lower-cased as `str::to_lowercase` does.
pub open spec fn tidy_song(s: Seq<char>) -> Seq<char> {
    tidy_song_with(s, unicode_lowering())
}

/// The song that a title names, lower-cased as `str::to_lowercase` does.
pub open spec fn title_song(title: Seq<char>) -> Seq<char> {
    title_song_with(title, unicode_lowering())
}

/// The title that a playlist entry is read by: the first run of its video's
/// title, lower-cased, or `empty - empty` for an entry that is no video.
pub open spec fn entry_title(c: Content4) -> Seq<char> {
    match c.playlist_video_renderer {
        Some(r) => lowercase(r.title.runs@[0].text@),
        None => "empty - empty"@,
    }
}

/// Whether an entry can be read as a query: a video has a title run, and
/// its lower-cased first run holds a `-`.
pub open spec fn entry_readable(c: Content4) -> bool {
    c.playlist_video_renderer matches Some(r) ==> {
        &&& r.title.runs.len() > 0
        &&& lowercase(r.title.runs@[0].text@).contains('-')
    }
}

/// Whether every entry of a list can be read as a query.
pub open spec fn list_readable(item: PlaylistVideoListRenderer) -> bool {
    forall|i: int| 0 <= i < item.contents.len() ==> entry_readable(#[trigger] item.contents@[i])
}

// ---------------------------------------------------------------------------
// Laws
// ---------------------------------------------------------------------------

/// An ASCII title reads the same whatever the case of its letters: the title
/// and its ASCII lower-cased form are both ASCII, both hold a `-` or neither
/// does, and they name the same artist and the same song. With the contract
/// of `determine_artist_from_title`, which for an ASCII title lower-cases as
/// ASCII does, the function returns the same result on both.
pub proof fn lemma_ascii_title_ignores_case(title: Seq<char>)
    requires
        all_ascii(title),
    ensures
        all_ascii(ascii_lower(title)),
        ascii_lower(title).contains('-') == title.contains('-'),
        title_artist_with(ascii_lower(title), ascii_lowering()) == title_artist_with(
            title,
            ascii_lowering(),
        ),
        title_song_with(ascii_lower(title), ascii_lowering()) == title_song_with(
            title,
            ascii_lowering(),
        ),
{
    lemma_ascii_lower(title);
    lemma_cut_commutes_with_ascii_lower(title, '-');
    let first = before(title, '-');
    let rest = after(title, '-');
    lemma_ascii_lower(first);
    lemma_pieces_stay_ascii(title, '-');
    lemma_ascii_lower(rest);
    assert forall|i: int| 0 <= i < rest.len() implies (ascii_lower_char(#[trigger] rest[i]) == '-'
        <==> rest[i] == '-') by {
        assert(ascii_lower(rest)[i] == ascii_lower_char(rest[i]));
    }
    lemma_cut_commutes_with_ascii_lower(rest, '-');
    let song = before(rest, '-');
    lemma_ascii_lower(song);
    assert forall|i: int| 0 <= i < song.len() implies (ascii_lower_char(#[trigger] song[i]) == '['
        <==> song[i] == '[') by {
        assert(ascii_lower(song)[i] == ascii_lower_char(song[i]));
    }
    lemma_cut_commutes_with_ascii_lower(song, '[');
    let cut = before(song, '[');
    lemma_ascii_lower(cut);
}

/// An entry that holds a video is read by its own first title run,
/// lower-cased, whatever characters it holds; only an entry without a video
/// is read as the placeholder `empty - empty`.
pub proof fn lemma_entry_title(c: Content4)
    ensures
        c.playlist_video_renderer matches Some(r) ==> entry_title(c) == lowercase(
            r.title.runs@[0].text@,
        ),
        c.playlist_video_renderer is None ==> entry_title(c) == "empty - empty"@,
{
}

/// A title "artist-song" (with an optional "-more" after the song) whose
/// song holds no `[`: the artist is the lower-cased text before the first
/// `-`, less one trailing space, and the song is the lower-cased text
/// between the first and the second `-`. This holds for every way of
/// lower-casing and every title of that shape, ASCII or not.
pub proof fn lemma_title_without_bracket(a: Seq<char>, song: Seq<char>, more: Seq<char>, low: Lowering)
    requires
        !a.contains('-'),
        !song.contains('-'),
        !song.contains('['),
        more.len() == 0 || more[0] == '-',
    ensures
        (a + seq!['-'] + song + more).contains('-'),
        title_artist_with(a + seq!['-'] + song + more, low) == (if low(a).len() > 0 && low(a).last()
            == ' ' {
            low(a).drop_last()
        } else {
            low(a)
        }),
        title_song_with(a + seq!['-'] + song + more, low) == low(song),
{
    let t = a + seq!['-'] + song + more;
    let rest = seq!['-'] + (song + more);
    assert(t =~= a + rest);
    assert(t[a.len() as int] == '-');
    lemma_cut_concat(a, rest, '-');
    lemma_cut_at_start(song + more, '-');
    assert(a + Seq::<char>::empty() =~= a);
    lemma_cut_concat(song, more, '-');
    if more.len() == 0 {
        assert(song + more =~= song);
        assert(more =~= Seq::<char>::empty());
    } else {
        assert(more =~= seq!['-'] + more.drop_first());
        lemma_cut_at_start(more.drop_first(), '-');
    }
    assert(song + Seq::<char>::empty() =~= song);
}

/// A title "artist-song[extra" where the song holds no `[`: the artist is
/// read as without a bracket, and the song is the text before the `[`,
/// lower-cased and tidied, whatever stands after the `[`. This holds for
/// every way of lower-casing and every title of that shape, ASCII or not.
pub proof fn lemma_title_with_bracket(a: Seq<char>, song: Seq<char>, extra: Seq<char>, low: Lowering)
    requires
        !a.contains('-'),
        !song.contains('-'),
        !song.contains('['),
    ensures
        (a + seq!['-'] + song + seq!['['] + extra).contains('-'),
        title_artist_with(a + seq!['-'] + song + seq!['['] + extra, low) == (if low(a).len() > 0
            && low(a).last() == ' ' {
            low(a).drop_last()
        } else {
            low(a)
        }),
        title_song_with(a + seq!['-'] + song + seq!['['] + extra, low) == tidy_song_with(
            low(song),
            low,
        ),
{
    let t = a + seq!['-'] + song + seq!['['] + extra;
    let tail = seq!['['] + extra;
    let rest = seq!['-'] + (song + tail);
    assert(t =~= a + rest);
    assert(t[a.len() as int] == '-');
    lemma_cut_concat(a, rest, '-');
    lemma_cut_at_start(song + tail, '-');
    assert(a + Seq::<char>::empty() =~= a);
    lemma_cut_concat(song, tail, '-');
    assert(!seq!['['].contains('-')) by {
        assert(seq!['['][0] == '[');
    }
    lemma_cut_concat(seq!['['], extra, '-');
    assert(seq!['['] + extra =~= tail);
    let piece = song + (seq!['['] + before(extra, '-'));
    assert(before(song + tail, '-') == piece);
    assert(piece[song.len() as int] == '[');
    lemma_cut_concat(song, seq!['['] + before(extra, '-'), '[');
    lemma_cut_at_start(before(extra, '-'), '[');
    assert(song + Seq::<char>::empty() =~= song);
}

/// Tidying leaves a song name that neither starts nor ends with a space as
/// it is.
pub proof fn lemma_tidy_untouched(v: Seq<char>, low: Lowering)
    requires
        !(v.len() > 0 && v.last() == ' '),
        !(v.len() > 0 && v[0] == ' '),
    ensures
        tidy_song_with(v, low) == v,
{
}

// ---------------------------------------------------------------------------
// Executable functions
// ---------------------------------------------------------------------------

/// Tidies a lower-cased song name cut before its `[`: where it ends with a
/// space, trailing white space is trimmed and the rest lower-cased again;
/// then, where it starts with a space, leading white space likewise.
pub fn tidy_song_text(s: &str) -> (res: String)
    ensures
        res@ == tidy_song(s@),
        all_ascii(s@) ==> res@ == tidy_song_with(s@, ascii_lowering()),
{
    let mut song = String::from_str(s);
    let cs = chars_of(s);
    proof {
        lemma_pieces_stay_ascii(s@, ' ');
    }
    if cs.len() > 0 && cs[cs.len() - 1] == ' ' {
        let trimmed = trimmed_end(s);
        song = to_lower(trimmed.as_str());
    }
    let ghost s1 = song@;
    assert(s1 == (if ends_with_space(s@) { lowercase(trim_end(s@)) } else { s@ }));
    proof {
        lemma_ascii_lower(trim_end(s@));
        if all_ascii(s@) {
            assert(s1 == (if ends_with_space(s@) { ascii_lower(trim_end(s@)) } else { s@ }));
            lemma_pieces_stay_ascii(s1, ' ');
        }
    }
    let cs = chars_of(song.as_str());
    if cs.len() > 0 && cs[0] == ' ' {
        let trimmed = trimmed_start(song.as_str());
        song = to_lower(trimmed.as_str());
    }
    song
}

/// Splits a video title "artist - song [extra]" into artist and song.
/// Succeeds exactly when the title holds a `-`.
pub fn determine_artist_from_title(title: &String) -> (res: Result<(String, String), TitleError>)
    ensures
        match res {
            Ok((artist, song)) => {
                &&& title@.contains('-')
                &&& artist@ == title_artist(title@)
                &&& song@ == title_song(title@)
                &&& all_ascii(title@) ==> {
                    &&& artist@ == title_artist_with(title@, ascii_lowering())
                    &&& song@ == title_song_with(title@, ascii_lowering())
                }
            },
            Err(_) => !title@.contains('-'),
        },
{
    proof {
        lemma_pieces_stay_ascii(title@, '-');
        lemma_pieces_stay_ascii(after(title@, '-'), '-');
        lemma_pieces_stay_ascii(before(after(title@, '-'), '-'), '[');
    }
    let first = part_before(title.as_str(), '-');
    let lowered = to_lower(first.as_str());
    let artist = without_trailing_space(lowered.as_str());
    if !has_char(title.as_str(), '-') {
        return Err(TitleError::NoSeparator);
    }
    let rest = part_after(title.as_str(), '-');
    let song = part_before(rest.as_str(), '-');
    let song_replaced = if has_char(song.as_str(), '[') {
        let cut = part_before(song.as_str(), '[');
        let lowered = to_lower(cut.as_str());
        tidy_song_text(lowered.as_str())
    } else {
        to_lower(song.as_str())
    };
    Ok((artist, song_replaced))
}

impl YoutubeProvider {
    /// A provider for the YouTube playlist that the options name.
    pub fn new(opts: &Opts) -> (res: YoutubeProvider)
        requires
            opts.youtube_playlist is Some,
        ensures
            res.playlist@ == opts.youtube_playlist->0@,
    {
        YoutubeProvider { playlist: opts.youtube_playlist.as_ref().unwrap().clone() }
    }

    /// One (artist, song) query per entry of the list, read from its title.
    pub fn convert_to_query(&self, item: PlaylistVideoListRenderer) -> (res: Vec<(String, String)>)
        requires
            list_readable(item),
        ensures
            res.len() == item.contents.len(),
            forall|i: int|
                0 <= i < res.len() ==> {
                    &&& (#[trigger] res@[i]).0@ == title_artist(entry_title(item.contents@[i]))
                    &&& res@[i].1@ == title_song(entry_title(item.contents@[i]))
                },
            forall|i: int|
                0 <= i < res.len() ==> (item.contents@[i].playlist_video_renderer matches Some(r) ==> {
                    &&& (#[trigger] res@[i]).0@ == title_artist(lowercase(r.title.runs@[0].text@))
                    &&& res@[i].1@ == title_song(lowercase(r.title.runs@[0].text@))
                }),
            forall|i: int|
                0 <= i < res.len() ==> (item.contents@[i].playlist_video_renderer is None ==> {
                    &&& (#[trigger] res@[i]).0@ == title_artist("empty - empty"@)
                    &&& res@[i].1@ == title_song("empty - empty"@)
                }),
    {
        let contents = item.contents;
        let mut out: Vec<(String, String)> = Vec::new();
        let mut i: usize = 0;
        while i < contents.len()
            invariant
                i <= contents.len(),
                contents@ == item.contents@,
                list_readable(item),
                out.len() == i,
                forall|k: int|
                    0 <= k < i ==> {
                        &&& (#[trigger] out@[k]).0@ == title_artist(entry_title(contents@[k]))
                        &&& out@[k].1@ == title_song(entry_title(contents@[k]))
                    },
            decreases contents.len() - i,
        {
            let content = &contents[i];
            assert(entry_readable(item.contents@[i as int]));
            let title = match &content.playlist_video_renderer {
                Some(renderer) => to_lower(renderer.title.runs[0].text.as_str()),
                None => {
                    let t = String::from_str("empty - empty");
                    proof {
                        reveal_strlit("empty - empty");
                        assert(t@[6] == '-');
                    }
                    t
                },
            };
            assert(title@ == entry_title(contents@[i as int]));
            let pair = match determine_artist_from_title(&title) {
                Ok(pair) => pair,
                Err(_) => {
                    assert(false);
                    (String::new(), String::new())
                },
            };
            out.push(pair);
            i = i + 1;
        }
        proof {
            assert forall|i: int| 0 <= i < out.len() implies #[trigger] entry_title(item.contents@[i])
                == (match item.contents@[i].playlist_video_renderer {
                Some(r) => lowercase(r.title.runs@[0].text@),
                None => "empty - empty"@,
            }) by {
                lemma_entry_title(item.contents@[i]);
            }
        }
        out
    }

    /// The queries of a list where every entry can be read (see
    /// `convert_to_query`), and `None` where some entry cannot.
    pub fn try_convert_to_query(&self, item: PlaylistVideoListRenderer) -> (res: Option<
        Vec<(String, String)>,
    >)
        ensures
            res is Some <==> list_readable(item),
            res matches Some(queries) ==> {
                &&& queries.len() == item.contents.len()
                &&& forall|i: int|
                    0 <= i < queries.len() ==> {
                        &&& (#[trigger] queries@[i]).0@ == title_artist(
                            entry_title(item.contents@[i]),
                        )
                        &&& queries@[i].1@ == title_song(entry_title(item.contents@[i]))
                    }
            },
            res matches Some(queries) ==> {
                &&& forall|i: int|
                    0 <= i < queries.len() ==> (item.contents@[i].playlist_video_renderer matches Some(r) ==> {
                        &&& (#[trigger] queries@[i]).0@ == title_artist(lowercase(r.title.runs@[0].text@))
                        &&& queries@[i].1@ == title_song(lowercase(r.title.runs@[0].text@))
                    })
                &&& forall|i: int|
                    0 <= i < queries.len() ==> (item.contents@[i].playlist_video_renderer is None ==> {
                        &&& (#[trigger] queries@[i]).0@ == title_artist("empty - empty"@)
                        &&& queries@[i].1@ == title_song("empty - empty"@)
                    })
            },
    {
        let mut i: usize = 0;
        while i < item.contents.len()
            invariant
                i <= item.contents.len(),
                forall|k: int| 0 <= k < i ==> entry_readable(#[trigger] item.contents@[k]),
            decreases item.contents.len() - i,
        {
            match &item.contents[i].playlist_video_renderer {
                Some(renderer) => {
                    if renderer.title.runs.len() == 0 {
                        return None;
                    }
                    let title = to_lower(renderer.title.runs[0].text.as_str());
                    if !has_char(title.as_str(), '-') {
                        return None;
                    }
                },
                None => {},
            }
            i = i + 1;
        }
        Some(self.convert_to_query(item))
    }
}

} // verus!
