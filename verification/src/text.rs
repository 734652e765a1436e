//! Character-level string operations with their mathematical models.
//!
//! Strings are modelled by their views, `Seq<char>`. Every executable
//! function here is proved against a spec function on those sequences;
//! the one exception is Unicode lower-casing, which is named, not written out.

use vstd::prelude::*;

verus! {

// ---------------------------------------------------------------------------
// Models
// ---------------------------------------------------------------------------

/// What `str::to_lowercase` returns for a string: its Unicode lower-case
/// mapping (locale-independent, possibly changing the length).
pub uninterp spec fn lowercase(s: Seq<char>) -> Seq<char>;

/// Whether every character of `s` is ASCII.
pub open spec fn all_ascii(s: Seq<char>) -> bool {
    forall|i: int| 0 <= i < s.len() ==> (#[trigger] s[i] as u32) < 0x80
}

/// ASCII lower-casing of one character: `A`..`Z` become `a`..`z`, every
/// other character stays.
pub open spec fn ascii_lower_char(c: char) -> char {
    if 0x41 <= (c as u32) <= 0x5A {
        ((c as u32) + 32) as char
    } else {
        c
    }
}

/// ASCII lower-casing of a string, character by character.
pub open spec fn ascii_lower(s: Seq<char>) -> Seq<char> {
    s.map_values(|c: char| ascii_lower_char(c))
}

/// The Unicode `White_Space` property, which `char::is_whitespace`,
/// `str::trim_start` and `str::trim_end` test.
pub open spec fn is_white_space(c: char) -> bool {
    let u = c as u32;
    ||| 0x09 <= u <= 0x0D
    ||| u == 0x20
    ||| u == 0x85
    ||| u == 0xA0
    ||| u == 0x1680
    ||| 0x2000 <= u <= 0x200A
    ||| u == 0x2028
    ||| u == 0x2029
    ||| u == 0x202F
    ||| u == 0x205F
    ||| u == 0x3000
}

/// `s` without its trailing white space.
pub open spec fn trim_end(s: Seq<char>) -> Seq<char>
    decreases s.len(),
{
    if s.len() > 0 && is_white_space(s.last()) {
        trim_end(s.drop_last())
    } else {
        s
    }
}

/// `s` without its leading white space.
pub open spec fn trim_start(s: Seq<char>) -> Seq<char>
    decreases s.len(),
{
    if s.len() > 0 && is_white_space(s[0]) {
        trim_start(s.drop_first())
    } else {
        s
    }
}

/// The part of `s` before the first `c` (all of `s` when `c` does not occur):
/// the first piece of `s.split(c)`.
pub open spec fn before(s: Seq<char>, c: char) -> Seq<char>
    decreases s.len(),
{
    if s.len() == 0 {
        s
    } else if s[0] == c {
        Seq::empty()
    } else {
        seq![s[0]] + before(s.drop_first(), c)
    }
}

/// The part of `s` after the first `c` (empty when `c` does not occur).
pub open spec fn after(s: Seq<char>, c: char) -> Seq<char>
    decreases s.len(),
{
    if s.len() == 0 {
        s
    } else if s[0] == c {
        s.drop_first()
    } else {
        after(s.drop_first(), c)
    }
}

/// `s` with every occurrence of the pattern `p` removed, matches taken
/// left to right without overlap: `str::replace(p, "")`.
pub open spec fn remove_all(s: Seq<char>, p: Seq<char>) -> Seq<char>
    decreases s.len(),
{
    if s.len() == 0 || p.len() == 0 {
        s
    } else if p.is_prefix_of(s) {
        remove_all(s.skip(p.len() as int), p)
    } else {
        seq![s[0]] + remove_all(s.drop_first(), p)
    }
}

/// The words joined by single spaces: `words.join(" ")`.
pub open spec fn join_words(words: Seq<Seq<char>>) -> Seq<char>
    decreases words.len(),
{
    if words.len() == 0 {
        Seq::empty()
    } else if words.len() == 1 {
        words[0]
    } else {
        join_words(words.drop_last()) + seq![' '] + words.last()
    }
}

/// The views of a list of strings.
pub open spec fn texts(v: Seq<String>) -> Seq<Seq<char>> {
    v.map_values(|s: String| s@)
}

/// `s` less one trailing space, where it ends with a space.
pub open spec fn drop_trailing_space(s: Seq<char>) -> Seq<char> {
    if ends_with_space(s) {
        s.drop_last()
    } else {
        s
    }
}

/// Whether `s` ends with a space character.
pub open spec fn ends_with_space(s: Seq<char>) -> bool {
    s.len() > 0 && s.last() == ' '
}

/// Whether `s` starts with a space character.
pub open spec fn starts_with_space(s: Seq<char>) -> bool {
    s.len() > 0 && s[0] == ' '
}

// ---------------------------------------------------------------------------
// Lemmas
// ---------------------------------------------------------------------------

/// Where the first `c` of `s` stands at `i` (or `c` does not occur and `i`
/// is the length), `before` and `after` cut `s` at `i`.
pub proof fn lemma_cut_at_first(s: Seq<char>, c: char, i: int)
    requires
        0 <= i <= s.len(),
        forall|j: int| 0 <= j < i ==> s[j] != c,
        i < s.len() ==> s[i] == c,
    ensures
        before(s, c) == s.take(i),
        i < s.len() ==> after(s, c) == s.skip(i + 1),
        i == s.len() ==> after(s, c) == Seq::<char>::empty(),
    decreases s.len(),
{
    if s.len() == 0 {
        assert(s.take(i) =~= s);
    } else if i == 0 {
        assert(s.take(0) =~= Seq::<char>::empty());
        assert(s.skip(1) =~= s.drop_first());
    } else {
        let t = s.drop_first();
        assert forall|j: int| 0 <= j < i - 1 implies t[j] != c by {
            assert(t[j] == s[j + 1]);
        }
        lemma_cut_at_first(t, c, i - 1);
        assert(s.take(i) =~= seq![s[0]] + t.take(i - 1));
        if i < s.len() {
            assert(t.skip(i) =~= s.skip(i + 1));
        }
    }
}

/// Removing a single-character pattern leaves no occurrence of that character.
pub proof fn lemma_remove_all_single(s: Seq<char>, c: char)
    ensures
        !remove_all(s, seq![c]).contains(c),
    decreases s.len(),
{
    let p = seq![c];
    if s.len() > 0 {
        if p.is_prefix_of(s) {
            lemma_remove_all_single(s.skip(1), c);
        } else {
            assert(s[0] != c) by {
                if s[0] == c {
                    assert(p =~= s.subrange(0, 1));
                }
            }
            lemma_remove_all_single(s.drop_first(), c);
            let r = remove_all(s.drop_first(), p);
            assert forall|j: int| 0 <= j < r.len() + 1 implies (seq![s[0]] + r)[j] != c by {
                if j > 0 {
                    assert((seq![s[0]] + r)[j] == r[j - 1]);
                }
            }
        }
    }
}

/// Removing a pattern never lengthens a string.
pub proof fn lemma_remove_all_len(s: Seq<char>, p: Seq<char>)
    ensures
        remove_all(s, p).len() <= s.len(),
    decreases s.len(),
{
    if s.len() > 0 && p.len() > 0 {
        if p.is_prefix_of(s) {
            lemma_remove_all_len(s.skip(p.len() as int), p);
        } else {
            lemma_remove_all_len(s.drop_first(), p);
        }
    }
}

/// ASCII lower-casing keeps a string ASCII, leaves an already lower-cased
/// string as it is, and changes no character but `A`..`Z`.
pub proof fn lemma_ascii_lower(s: Seq<char>)
    ensures
        all_ascii(s) ==> all_ascii(ascii_lower(s)),
        ascii_lower(ascii_lower(s)) == ascii_lower(s),
        ascii_lower(s).len() == s.len(),
        forall|i: int| 0 <= i < s.len() ==> (ascii_lower(s)[i] == '-' <==> #[trigger] s[i] == '-'),
        forall|i: int| 0 <= i < s.len() ==> (ascii_lower(s)[i] == '[' <==> #[trigger] s[i] == '['),
{
    assert forall|i: int| 0 <= i < s.len() implies {
        let c = #[trigger] s[i];
        let d = ascii_lower_char(c);
        &&& (c as u32) < 0x80 ==> (d as u32) < 0x80
        &&& ascii_lower_char(d) == d
        &&& (d == '-' <==> c == '-')
        &&& (d == '[' <==> c == '[')
    } by {
        let c = s[i];
        if 0x41 <= (c as u32) <= 0x5A {
            let d = ((c as u32) + 32) as char;
            assert((d as u32) == (c as u32) + 32);
        }
    }
    assert(ascii_lower(ascii_lower(s)) =~= ascii_lower(s));
}

/// Cutting at a character that ASCII lower-casing neither makes nor
/// removes commutes with ASCII lower-casing.
pub proof fn lemma_cut_commutes_with_ascii_lower(s: Seq<char>, c: char)
    requires
        forall|i: int| 0 <= i < s.len() ==> (ascii_lower_char(#[trigger] s[i]) == c <==> s[i] == c),
    ensures
        before(ascii_lower(s), c) == ascii_lower(before(s, c)),
        after(ascii_lower(s), c) == ascii_lower(after(s, c)),
        ascii_lower(s).contains(c) == s.contains(c),
    decreases s.len(),
{
    if s.len() > 0 {
        let t = s.drop_first();
        assert forall|i: int| 0 <= i < t.len() implies (ascii_lower_char(#[trigger] t[i]) == c
            <==> t[i] == c) by {
            assert(t[i] == s[i + 1]);
        }
        lemma_cut_commutes_with_ascii_lower(t, c);
        assert(ascii_lower(s).drop_first() =~= ascii_lower(t));
        assert(ascii_lower(s)[0] == ascii_lower_char(s[0]));
        if s[0] != c {
            assert(ascii_lower(before(s, c)) =~= seq![ascii_lower_char(s[0])] + ascii_lower(
                before(t, c),
            ));
            if s.contains(c) {
                let k = choose|k: int| 0 <= k < s.len() && s[k] == c;
                assert(t[k - 1] == c);
            }
            if ascii_lower(s).contains(c) {
                let k = choose|k: int| 0 <= k < ascii_lower(s).len() && ascii_lower(s)[k] == c;
                assert(ascii_lower(t)[k - 1] == c);
            }
        } else {
            assert(ascii_lower(Seq::<char>::empty()) =~= Seq::<char>::empty());
            assert(ascii_lower(s)[0] == c);
        }
    } else {
        assert(ascii_lower(s) =~= s);
    }
}

/// The pieces that cutting and trimming take from an ASCII string are ASCII.
pub proof fn lemma_pieces_stay_ascii(s: Seq<char>, c: char)
    ensures
        all_ascii(s) ==> {
            &&& all_ascii(before(s, c))
            &&& all_ascii(after(s, c))
            &&& all_ascii(trim_end(s))
            &&& all_ascii(trim_start(s))
        },
    decreases s.len(),
{
    if s.len() > 0 && all_ascii(s) {
        let t = s.drop_first();
        assert forall|i: int| 0 <= i < t.len() implies (#[trigger] t[i] as u32) < 0x80 by {
            assert(t[i] == s[i + 1]);
        }
        lemma_pieces_stay_ascii(t, c);
        let b = before(t, c);
        assert forall|i: int| 0 <= i < b.len() + 1 implies ((#[trigger] (seq![s[0]] + b)[i])
            as u32) < 0x80 by {
            if i > 0 {
                assert((seq![s[0]] + b)[i] == b[i - 1]);
            }
        }
        let u = s.drop_last();
        assert forall|i: int| 0 <= i < u.len() implies (#[trigger] u[i] as u32) < 0x80 by {
            assert(u[i] == s[i]);
        }
        lemma_pieces_stay_ascii(u, c);
    }
}

/// Whether the pattern `p` occurs anywhere in `s`.
pub open spec fn occurs_in(p: Seq<char>, s: Seq<char>) -> bool {
    exists|i: int| 0 <= i <= s.len() && p.is_prefix_of(#[trigger] s.skip(i))
}

/// Removing a pattern that does not occur leaves the string as it is.
pub proof fn lemma_remove_absent(s: Seq<char>, p: Seq<char>)
    requires
        !occurs_in(p, s),
    ensures
        remove_all(s, p) == s,
    decreases s.len(),
{
    if s.len() > 0 && p.len() > 0 {
        assert(s.skip(0) =~= s);
        let t = s.drop_first();
        assert forall|i: int| 0 <= i <= t.len() implies !p.is_prefix_of(#[trigger] t.skip(i)) by {
            assert(t.skip(i) =~= s.skip(i + 1));
        }
        lemma_remove_absent(t, p);
        assert(seq![s[0]] + t =~= s);
    }
}

/// Removing a one-character pattern keeps every other character, in order:
/// it filters the character out.
pub proof fn lemma_remove_single_is_filter(s: Seq<char>, c: char)
    ensures
        remove_all(s, seq![c]) == s.filter(|x: char| x != c),
    decreases s.len(),
{
    let p = seq![c];
    let keep = |x: char| x != c;
    if s.len() > 0 {
        let t = s.drop_first();
        lemma_remove_single_is_filter(t, c);
        assert(seq![s[0]] + t =~= s);
        t.lemma_filter_prepend(s[0], keep);
        if p.is_prefix_of(s) {
            assert(s.subrange(0, 1)[0] == s[0]);
            assert(s[0] == c);
            assert(s.skip(1) =~= t);
            assert(Seq::<char>::empty() + t.filter(keep) =~= t.filter(keep));
        } else {
            assert(s[0] != c) by {
                if s[0] == c {
                    assert(p =~= s.subrange(0, 1));
                }
            }
        }
    } else {
        assert(s.filter(keep) =~= s) by {
            reveal(Seq::filter);
        }
    }
}

/// Cutting a concatenation whose first part lacks the separator cuts its
/// second part.
pub proof fn lemma_cut_concat(a: Seq<char>, b: Seq<char>, c: char)
    requires
        !a.contains(c),
    ensures
        before(a + b, c) == a + before(b, c),
        after(a + b, c) == after(b, c),
    decreases a.len(),
{
    if a.len() == 0 {
        assert(a + b =~= b);
        assert(a + before(b, c) =~= before(b, c));
    } else {
        let t = a.drop_first();
        assert(!t.contains(c)) by {
            if t.contains(c) {
                let k = choose|k: int| 0 <= k < t.len() && t[k] == c;
                assert(a[k + 1] == c);
            }
        }
        lemma_cut_concat(t, b, c);
        assert((a + b).drop_first() =~= t + b);
        assert((a + b)[0] == a[0]);
        assert(a[0] != c);
        assert(seq![a[0]] + (t + before(b, c)) =~= a + before(b, c));
    }
}

/// Cutting a string that starts with the separator.
pub proof fn lemma_cut_at_start(b: Seq<char>, c: char)
    ensures
        before(seq![c] + b, c) == Seq::<char>::empty(),
        after(seq![c] + b, c) == b,
{
    assert((seq![c] + b)[0] == c);
    assert((seq![c] + b).drop_first() =~= b);
}

/// Whether `w` stands in `s` from position `off` on.
pub open spec fn stands_at(s: Seq<char>, w: Seq<char>, off: int) -> bool {
    0 <= off && off + w.len() <= s.len() && s.subrange(off, off + w.len()) == w
}

/// Whether `w` stands somewhere in `s`.
pub open spec fn stands_in(s: Seq<char>, w: Seq<char>) -> bool {
    exists|off: int| stands_at(s, w, off)
}

/// Where word `k` stands in the words joined by spaces.
pub proof fn lemma_join_word_at(words: Seq<Seq<char>>, k: int) -> (off: int)
    requires
        0 <= k < words.len(),
    ensures
        stands_at(join_words(words), words[k], off),
    decreases words.len(),
{
    let j = join_words(words);
    if words.len() == 1 {
        assert(j.subrange(0, words[0].len() as int) =~= words[0]);
        0
    } else {
        let prev = words.drop_last();
        let jp = join_words(prev);
        assert(j == jp + seq![' '] + words.last());
        if k < words.len() - 1 {
            let off = lemma_join_word_at(prev, k);
            assert(words[k] == prev[k]);
            assert(j.subrange(off, off + words[k].len()) =~= jp.subrange(off, off + prev[k].len()));
            off
        } else {
            let off: int = jp.len() as int + 1;
            assert(j.subrange(off, off + words[k].len()) =~= words.last());
            off
        }
    }
}

/// Every word stands, whole, at some place of the words joined by spaces.
pub proof fn lemma_join_holds_each_word(words: Seq<Seq<char>>)
    ensures
        forall|k: int| 0 <= k < words.len() ==> #[trigger] stands_in(join_words(words), words[k]),
{
    assert forall|k: int| 0 <= k < words.len() implies #[trigger] stands_in(join_words(words), words[k]) by {
        let off = lemma_join_word_at(words, k);
        assert(stands_at(join_words(words), words[k], off));
    }
}

// ---------------------------------------------------------------------------
// Executable functions
// ---------------------------------------------------------------------------

/// Calls `str::to_lowercase`; the result is its Unicode lower-case mapping,
/// which is named by `lowercase` and not stated character by character.
/// What is stated beyond the name: on an ASCII string the mapping is ASCII
/// lower-casing, as the Unicode character data that the mapping is defined
/// by gives `a`..`z` for `A`..`Z` and no mapping for other ASCII characters.
#[verifier::external_body]
pub fn to_lower(s: &str) -> (res: String)
    ensures
        res@ == lowercase(s@),
        all_ascii(s@) ==> res@ == ascii_lower(s@),
{
    s.to_lowercase()
}

/// The characters of a string, read one by one.
pub fn chars_of(s: &str) -> (res: Vec<char>)
    ensures
        res@ == s@,
{
    let mut out: Vec<char> = Vec::new();
    for c in it: s.chars()
        invariant
            it.seq() == s@,
            out@ == it.seq().take(it.index() as int),
    {
        out.push(c);
    }
    out
}

/// `char::is_whitespace`.
pub fn is_white_space_char(c: char) -> (res: bool)
    ensures
        res == is_white_space(c),
{
    let u = c as u32;
    (0x09 <= u && u <= 0x0D) || u == 0x20 || u == 0x85 || u == 0xA0 || u == 0x1680 || (0x2000
        <= u && u <= 0x200A) || u == 0x2028 || u == 0x2029 || u == 0x202F || u == 0x205F || u
        == 0x3000
}

/// The index of the first `c` in `cs`, or its length when there is none.
pub fn position_of(cs: &Vec<char>, c: char) -> (i: usize)
    ensures
        i <= cs.len(),
        forall|j: int| 0 <= j < i ==> cs@[j] != c,
        i < cs.len() ==> cs@[i as int] == c,
{
    let mut i: usize = 0;
    while i < cs.len()
        invariant
            i <= cs.len(),
            forall|j: int| 0 <= j < i ==> cs@[j] != c,
        decreases cs.len() - i,
    {
        if cs[i] == c {
            return i;
        }
        i = i + 1;
    }
    i
}

/// Whether `c` occurs in `s`.
pub fn has_char(s: &str, c: char) -> (res: bool)
    ensures
        res == s@.contains(c),
{
    let cs = chars_of(s);
    let i = position_of(&cs, c);
    i < cs.len()
}

/// `str::trim_end`: `s` without trailing white space.
pub fn trimmed_end(s: &str) -> (res: String)
    ensures
        res@ == trim_end(s@),
{
    let cs = chars_of(s);
    let mut k: usize = cs.len();
    assert(cs@.take(k as int) =~= cs@);
    while k > 0 && is_white_space_char(cs[k - 1])
        invariant
            k <= cs.len(),
            cs@ == s@,
            trim_end(s@) == trim_end(cs@.take(k as int)),
        decreases k,
    {
        assert(cs@.take(k as int).drop_last() =~= cs@.take(k - 1));
        k = k - 1;
    }
    String::from_str(s.substring_char(0, k))
}

/// `str::trim_start`: `s` without leading white space.
pub fn trimmed_start(s: &str) -> (res: String)
    ensures
        res@ == trim_start(s@),
{
    let cs = chars_of(s);
    let n = cs.len();
    let mut k: usize = 0;
    assert(cs@.skip(0) =~= cs@);
    while k < n && is_white_space_char(cs[k])
        invariant
            k <= n,
            n == cs.len(),
            cs@ == s@,
            trim_start(s@) == trim_start(cs@.skip(k as int)),
        decreases n - k,
    {
        assert(cs@.skip(k as int).drop_first() =~= cs@.skip(k + 1));
        k = k + 1;
    }
    String::from_str(s.substring_char(k, n))
}

/// The part of `s` before the first `c`.
pub fn part_before(s: &str, c: char) -> (res: String)
    ensures
        res@ == before(s@, c),
{
    let cs = chars_of(s);
    let i = position_of(&cs, c);
    proof {
        lemma_cut_at_first(s@, c, i as int);
    }
    String::from_str(s.substring_char(0, i))
}

/// The part of `s` after the first `c` (empty when there is none).
pub fn part_after(s: &str, c: char) -> (res: String)
    ensures
        res@ == after(s@, c),
{
    let cs = chars_of(s);
    let i = position_of(&cs, c);
    proof {
        lemma_cut_at_first(s@, c, i as int);
    }
    if i < cs.len() {
        String::from_str(s.substring_char(i + 1, cs.len()))
    } else {
        String::new()
    }
}

/// Whether the pattern `p` stands in `cs` at position `i`.
fn occurs_at(cs: &Vec<char>, i: usize, p: &Vec<char>) -> (res: bool)
    requires
        i <= cs.len(),
    ensures
        res == p@.is_prefix_of(cs@.skip(i as int)),
{
    if p.len() > cs.len() - i {
        return false;
    }
    let mut k: usize = 0;
    while k < p.len()
        invariant
            k <= p.len(),
            i + p.len() <= cs.len(),
            forall|j: int| 0 <= j < k ==> cs@[i + j] == p@[j],
        decreases p.len() - k,
    {
        if cs[i + k] != p[k] {
            assert(cs@.skip(i as int).subrange(0, p.len() as int)[k as int] != p@[k as int]);
            return false;
        }
        k = k + 1;
    }
    assert(p@ =~= cs@.skip(i as int).subrange(0, p.len() as int));
    true
}

/// `s.replace(p, "")`: every occurrence of the non-empty pattern `p` removed.
pub fn remove_pattern(s: &str, p: &Vec<char>) -> (res: String)
    requires
        p.len() > 0,
    ensures
        res@ == remove_all(s@, p@),
{
    let cs = chars_of(s);
    let n = cs.len();
    let mut out = String::new();
    let mut i: usize = 0;
    assert(s@.skip(0) =~= s@);
    while i < n
        invariant
            i <= n,
            n == cs.len(),
            cs@ == s@,
            p.len() > 0,
            remove_all(s@, p@) == out@ + remove_all(s@.skip(i as int), p@),
        decreases n - i,
    {
        let ghost rest = s@.skip(i as int);
        if occurs_at(&cs, i, p) {
            assert(rest.skip(p.len() as int) =~= s@.skip(i + p.len()));
            i = i + p.len();
        } else {
            let one = s.substring_char(i, i + 1);
            assert(one@ =~= seq![rest[0]]);
            assert(rest.drop_first() =~= s@.skip(i + 1));
            let ghost old_out = out@;
            assert(remove_all(rest, p@) == seq![rest[0]] + remove_all(rest.drop_first(), p@));
            out.append(one);
            assert(old_out + (one@ + remove_all(s@.skip(i + 1), p@)) =~= out@ + remove_all(s@.skip(i + 1), p@));
            i = i + 1;
        }
    }
    assert(s@.skip(n as int) =~= Seq::<char>::empty());
    assert(out@ + Seq::<char>::empty() =~= out@);
    out
}

/// `s` less one trailing space, where it ends with a space (`pop` after
/// `ends_with(" ")`).
pub fn without_trailing_space(s: &str) -> (res: String)
    ensures
        res@ == drop_trailing_space(s@),
{
    let cs = chars_of(s);
    if cs.len() > 0 && cs[cs.len() - 1] == ' ' {
        let res = String::from_str(s.substring_char(0, cs.len() - 1));
        assert(res@ =~= s@.drop_last());
        res
    } else {
        String::from_str(s)
    }
}

/// The words joined by single spaces: `words.join(" ")`.
pub fn join_with_spaces(words: &Vec<String>) -> (res: String)
    ensures
        res@ == join_words(texts(words@)),
{
    let ghost ws = texts(words@);
    let mut joined = String::new();
    let mut j: usize = 0;
    assert(ws.take(0) =~= Seq::<Seq<char>>::empty());
    while j < words.len()
        invariant
            j <= words.len(),
            ws == texts(words@),
            joined@ == join_words(ws.take(j as int)),
        decreases words.len() - j,
    {
        assert(ws.take(j + 1).drop_last() =~= ws.take(j as int));
        assert(ws[j as int] == words@[j as int]@);
        if j > 0 {
            let sep = " ";
            proof {
                reveal_strlit(" ");
            }
            joined.append(sep);
            assert(sep@ =~= seq![' ']);
        } else {
            assert(joined@ =~= Seq::<char>::empty());
        }
        joined.append(words[j].as_str());
        assert(joined@ =~= join_words(ws.take(j + 1)));
        j = j + 1;
    }
    assert(ws.take(j as int) =~= ws);
    joined
}

} // verus!
