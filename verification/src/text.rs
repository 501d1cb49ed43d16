//! Characters and strings: the few std text functions the library relies on,
//! and verified helpers that work on `Seq<char>` views.
use vstd::prelude::*;

verus! {

// ---------------------------------------------------------------------------
// Names for what std's Unicode-aware text functions return.
// ---------------------------------------------------------------------------

/// Whether `c` has the Unicode `White_Space` property, which is what
/// `char::is_whitespace` tests: the 25 code points U+0009 to U+000D, U+0020,
/// U+0085, U+00A0, U+1680, U+2000 to U+200A, U+2028, U+2029, U+202F, U+205F
/// and U+3000.
pub open spec fn char_is_space(c: char) -> bool {
    let n = c as u32;
    ||| 0x9 <= n <= 0xd
    ||| n == 0x20
    ||| n == 0x85
    ||| n == 0xa0
    ||| n == 0x1680
    ||| 0x2000 <= n <= 0x200a
    ||| n == 0x2028
    ||| n == 0x2029
    ||| n == 0x202f
    ||| n == 0x205f
    ||| n == 0x3000
}

/// Whether `c` is an ASCII character.
pub open spec fn is_ascii_char(c: char) -> bool {
    (c as u32) < 0x80
}

/// Whether every character of `s` is ASCII.
pub open spec fn is_ascii_text(s: Seq<char>) -> bool {
    forall|i: int| 0 <= i < s.len() ==> is_ascii_char(#[trigger] s[i])
}

/// What `char::is_alphanumeric` returns for a character beyond ASCII:
/// whether it is alphabetic or numeric in the Unicode sense.
pub uninterp spec fn non_ascii_alnum(c: char) -> bool;

/// What `char::is_alphanumeric` returns: for an ASCII character, whether it
/// is a letter `A`-`Z`, `a`-`z` or a digit `0`-`9` (the only ASCII characters
/// with the Unicode `Alphabetic` or `Numeric` property); beyond ASCII, the
/// Unicode answer, named by `non_ascii_alnum`.
pub open spec fn char_is_alnum(c: char) -> bool {
    let n = c as u32;
    if is_ascii_char(c) {
        (0x41 <= n <= 0x5a) || (0x61 <= n <= 0x7a) || (0x30 <= n <= 0x39)
    } else {
        non_ascii_alnum(c)
    }
}

/// An ASCII character upper-cased: `a`-`z` become `A`-`Z`, the rest stay.
pub open spec fn ascii_upper(c: char) -> char {
    if 0x61 <= (c as u32) <= 0x7a {
        ((c as u32) - 0x20) as char
    } else {
        c
    }
}

/// An ASCII character lower-cased: `A`-`Z` become `a`-`z`, the rest stay.
pub open spec fn ascii_lower(c: char) -> char {
    if 0x41 <= (c as u32) <= 0x5a {
        ((c as u32) + 0x20) as char
    } else {
        c
    }
}

/// What `str::to_lowercase` returns for a text that is not all ASCII.
pub uninterp spec fn non_ascii_lowercase(s: Seq<char>) -> Seq<char>;

/// What `str::to_uppercase` returns for a text that is not all ASCII.
pub uninterp spec fn non_ascii_uppercase(s: Seq<char>) -> Seq<char>;

/// What `str::to_lowercase` returns: an ASCII text lower-cased letter by
/// letter; any other text as named by `non_ascii_lowercase`.
pub open spec fn lowercase(s: Seq<char>) -> Seq<char> {
    if is_ascii_text(s) {
        s.map_values(|c: char| ascii_lower(c))
    } else {
        non_ascii_lowercase(s)
    }
}

/// What `str::to_uppercase` returns: an ASCII text upper-cased letter by
/// letter; any other text as named by `non_ascii_uppercase`.
pub open spec fn uppercase(s: Seq<char>) -> Seq<char> {
    if is_ascii_text(s) {
        s.map_values(|c: char| ascii_upper(c))
    } else {
        non_ascii_uppercase(s)
    }
}

/// Whether `c` is whitespace, as `char::is_whitespace` says.
pub fn is_space(c: char) -> (b: bool)
    ensures
        b == char_is_space(c),
{
    let n = c as u32;
    (0x9 <= n && n <= 0xd) || n == 0x20 || n == 0x85 || n == 0xa0 || n == 0x1680 || (0x2000 <= n
        && n <= 0x200a) || n == 0x2028 || n == 0x2029 || n == 0x202f || n == 0x205f || n == 0x3000
}

/// Calls `char::is_alphanumeric`; the result is `char_is_alnum(c)`: ASCII
/// letters and digits, and beyond ASCII the Unicode answer.
#[verifier::external_body]
pub(crate) fn is_alnum(c: char) -> (b: bool)
    ensures
        b == char_is_alnum(c),
        !is_ascii_char(c) ==> b == non_ascii_alnum(c),
{
    c.is_alphanumeric()
}

/// Calls `str::to_lowercase`; the result's characters are `lowercase(s@)`:
/// an ASCII text lower-cased letter by letter.
#[verifier::external_body]
pub(crate) fn to_lower(s: &str) -> (r: String)
    ensures
        r@ == lowercase(s@),
        !is_ascii_text(s@) ==> r@ == non_ascii_lowercase(s@),
{
    s.to_lowercase()
}

/// Calls `str::to_uppercase`; the result's characters are `uppercase(s@)`:
/// an ASCII text upper-cased letter by letter.
#[verifier::external_body]
pub(crate) fn to_upper(s: &str) -> (r: String)
    ensures
        r@ == uppercase(s@),
        !is_ascii_text(s@) ==> r@ == non_ascii_uppercase(s@),
{
    s.to_uppercase()
}

/// Calls `String::push`: the string gains `c` at its end.
#[verifier::external_body]
pub(crate) fn push_char(s: &mut String, c: char)
    ensures
        final(s)@ == old(s)@.push(c),
{
    s.push(c);
}

// ---------------------------------------------------------------------------
// Spec helpers over character sequences.
// ---------------------------------------------------------------------------

/// `s` with its leading whitespace removed.
pub open spec fn trim_front(s: Seq<char>) -> Seq<char>
    decreases s.len(),
{
    if s.len() > 0 && char_is_space(s[0]) {
        trim_front(s.drop_first())
    } else {
        s
    }
}

/// `s` with its trailing whitespace removed.
pub open spec fn trim_back(s: Seq<char>) -> Seq<char>
    decreases s.len(),
{
    if s.len() > 0 && char_is_space(s.last()) {
        trim_back(s.drop_last())
    } else {
        s
    }
}

/// `s` with leading and trailing whitespace removed, as `str::trim` does.
pub open spec fn trimmed(s: Seq<char>) -> Seq<char> {
    trim_back(trim_front(s))
}

pub open spec fn starts_with_char(s: Seq<char>, c: char) -> bool {
    s.len() > 0 && s[0] == c
}

pub open spec fn ends_with_char(s: Seq<char>, c: char) -> bool {
    s.len() > 0 && s.last() == c
}

pub open spec fn is_suffix(suffix: Seq<char>, s: Seq<char>) -> bool {
    suffix.len() <= s.len() && s.subrange(s.len() - suffix.len(), s.len() as int) == suffix
}

pub open spec fn is_prefix(prefix: Seq<char>, s: Seq<char>) -> bool {
    prefix.len() <= s.len() && s.subrange(0, prefix.len() as int) == prefix
}

/// Whether `pattern` occurs in `s` as a contiguous piece.
pub open spec fn contains_seq(s: Seq<char>, pattern: Seq<char>) -> bool {
    exists|i: int|
        0 <= i && i + pattern.len() <= s.len() && #[trigger] s.subrange(i, i + pattern.len())
            == pattern
}

/// The pieces of `s` between occurrences of `sep`, as `str::split(sep)` yields
/// them: one more piece than there are separators, empty pieces included.
pub open spec fn split_on(s: Seq<char>, sep: char) -> Seq<Seq<char>>
    decreases s.len(),
{
    if s.len() == 0 {
        seq![Seq::<char>::empty()]
    } else {
        let rest = split_on(s.drop_last(), sep);
        if s.last() == sep {
            rest.push(Seq::<char>::empty())
        } else {
            rest.update(rest.len() - 1, rest.last().push(s.last()))
        }
    }
}

/// The pieces of `s` between commas, each trimmed of whitespace.
pub open spec fn comma_pieces(s: Seq<char>) -> Seq<Seq<char>> {
    split_on(s, ',').map_values(|p: Seq<char>| trimmed(p))
}

/// The pieces joined with `sep` between consecutive pieces.
pub open spec fn join_with(pieces: Seq<Seq<char>>, sep: Seq<char>) -> Seq<char>
    decreases pieces.len(),
{
    if pieces.len() == 0 {
        Seq::empty()
    } else if pieces.len() == 1 {
        pieces[0]
    } else {
        join_with(pieces.drop_last(), sep) + sep + pieces.last()
    }
}

/// The pieces that are not empty, in order.
pub open spec fn non_empty(pieces: Seq<Seq<char>>) -> Seq<Seq<char>>
    decreases pieces.len(),
{
    if pieces.len() == 0 {
        Seq::empty()
    } else if pieces.last().len() > 0 {
        non_empty(pieces.drop_last()).push(pieces.last())
    } else {
        non_empty(pieces.drop_last())
    }
}

// ---------------------------------------------------------------------------
// Verified executable helpers.
// ---------------------------------------------------------------------------

/// The characters of `s`, in order.
pub fn chars_of(s: &str) -> (v: Vec<char>)
    ensures
        v@ == s@,
{
    let mut v: Vec<char> = Vec::new();
    for c in it: s.chars()
        invariant
            v@ == it.seq().take(it.index() as int),
    {
        v.push(c);
    }
    v
}

/// A string made of `v[lo..hi]`.
pub fn string_of_range(v: &Vec<char>, lo: usize, hi: usize) -> (s: String)
    requires
        lo <= hi <= v.len(),
    ensures
        s@ == v@.subrange(lo as int, hi as int),
{
    let mut s = String::new();
    let mut i = lo;
    while i < hi
        invariant
            lo <= i <= hi <= v.len(),
            s@ == v@.subrange(lo as int, i as int),
        decreases hi - i,
    {
        push_char(&mut s, v[i]);
        assert(v@.subrange(lo as int, i + 1) == v@.subrange(lo as int, i as int).push(v@[i as int]));
        i += 1;
    }
    s
}

/// A string made of all of `v`.
pub fn string_of(v: &Vec<char>) -> (s: String)
    ensures
        s@ == v@,
{
    let s = string_of_range(v, 0, v.len());
    assert(v@.subrange(0, v.len() as int) == v@);
    s
}

/// Whether two strings have the same characters.
pub fn same_text(a: &str, b: &str) -> (r: bool)
    ensures
        r == (a@ == b@),
{
    let x: String = a.to_owned();
    let y: String = b.to_owned();
    x == y
}

/// The character sequence of `c` alone.
pub fn string_of_char(c: char) -> (s: String)
    ensures
        s@ == seq![c],
{
    let mut s = String::new();
    push_char(&mut s, c);
    s
}

/// The index of the first character at or after `lo` that is not whitespace,
/// or `hi` if there is none before `hi`.
pub open spec fn first_non_space(s: Seq<char>, lo: int, hi: int) -> int
    decreases hi - lo,
{
    if lo < hi && char_is_space(s[lo]) {
        first_non_space(s, lo + 1, hi)
    } else {
        lo
    }
}

/// One past the last character before `hi` and at or after `lo` that is not
/// whitespace, or `lo` if there is none.
pub open spec fn last_non_space(s: Seq<char>, lo: int, hi: int) -> int
    decreases hi - lo,
{
    if lo < hi && char_is_space(s[hi - 1]) {
        last_non_space(s, lo, hi - 1)
    } else {
        hi
    }
}

pub proof fn lemma_trim_front_sub(s: Seq<char>, lo: int, hi: int)
    requires
        0 <= lo <= hi <= s.len(),
    ensures
        lo <= first_non_space(s, lo, hi) <= hi,
        trim_front(s.subrange(lo, hi)) == s.subrange(first_non_space(s, lo, hi), hi),
    decreases hi - lo,
{
    if lo < hi && char_is_space(s[lo]) {
        assert(s.subrange(lo, hi).drop_first() == s.subrange(lo + 1, hi));
        lemma_trim_front_sub(s, lo + 1, hi);
    }
}

pub proof fn lemma_trim_back_sub(s: Seq<char>, lo: int, hi: int)
    requires
        0 <= lo <= hi <= s.len(),
    ensures
        lo <= last_non_space(s, lo, hi) <= hi,
        trim_back(s.subrange(lo, hi)) == s.subrange(lo, last_non_space(s, lo, hi)),
    decreases hi - lo,
{
    if lo < hi && char_is_space(s[hi - 1]) {
        assert(s.subrange(lo, hi).drop_last() == s.subrange(lo, hi - 1));
        lemma_trim_back_sub(s, lo, hi - 1);
    }
}

/// The characters `v[lo..hi]` with leading and trailing whitespace removed,
/// as a string.
pub fn trimmed_range(v: &Vec<char>, lo: usize, hi: usize) -> (s: String)
    requires
        lo <= hi <= v.len(),
    ensures
        s@ == trimmed(v@.subrange(lo as int, hi as int)),
{
    let mut a = lo;
    while a < hi && is_space(v[a])
        invariant
            lo <= a <= hi <= v.len(),
            first_non_space(v@, lo as int, hi as int) == first_non_space(v@, a as int, hi as int),
        decreases hi - a,
    {
        a += 1;
    }
    let mut b = hi;
    while b > a && is_space(v[b - 1])
        invariant
            lo <= a <= b <= hi <= v.len(),
            last_non_space(v@, a as int, hi as int) == last_non_space(v@, a as int, b as int),
        decreases b - a,
    {
        b -= 1;
    }
    proof {
        lemma_trim_front_sub(v@, lo as int, hi as int);
        lemma_trim_back_sub(v@, a as int, hi as int);
    }
    string_of_range(v, a, b)
}

/// The pieces of `v` between commas, each trimmed of whitespace.
pub fn split_commas(v: &Vec<char>) -> (r: Vec<String>)
    ensures
        r.deep_view() == comma_pieces(v@),
{
    let mut done: Vec<String> = Vec::new();
    let ghost mut raws: Seq<Seq<char>> = Seq::empty();
    let mut start: usize = 0;
    let mut i: usize = 0;
    assert(v@.take(0) == Seq::<char>::empty());
    while i < v.len()
        invariant
            0 <= start <= i <= v.len(),
            split_on(v@.take(i as int), ',') == raws + seq![v@.subrange(start as int, i as int)],
            done@.len() == raws.len(),
            forall|j: int| 0 <= j < raws.len() ==> #[trigger] done@[j]@ == trimmed(raws[j]),
        decreases v.len() - i,
    {
        assert(v@.take(i + 1).drop_last() == v@.take(i as int));
        assert(v@.take(i + 1).last() == v@[i as int]);
        if v[i] == ',' {
            let piece = trimmed_range(v, start, i);
            done.push(piece);
            proof {
                raws = raws.push(v@.subrange(start as int, i as int));
                assert(v@.subrange(i + 1, i + 1) == Seq::<char>::empty());
            }
            start = i + 1;
        } else {
            assert(v@.subrange(start as int, i + 1) == v@.subrange(start as int, i as int).push(v@[i as int]));
        }
        i += 1;
    }
    let last = trimmed_range(v, start, v.len());
    done.push(last);
    proof {
        assert(v@.take(v.len() as int) == v@);
        let all = raws + seq![v@.subrange(start as int, v.len() as int)];
        assert(done.deep_view() =~= all.map_values(|p: Seq<char>| trimmed(p)));
    }
    done
}

/// A string with the characters of the literal `lit`.
pub fn owned(lit: &str) -> (s: String)
    ensures
        s@ == lit@,
{
    lit.to_owned()
}

/// Whether `v` begins with the characters of `prefix`.
pub fn has_prefix(v: &Vec<char>, prefix: &Vec<char>) -> (b: bool)
    ensures
        b == is_prefix(prefix@, v@),
{
    if prefix.len() > v.len() {
        return false;
    }
    let mut i: usize = 0;
    while i < prefix.len()
        invariant
            prefix.len() <= v.len(),
            0 <= i <= prefix.len(),
            v@.subrange(0, i as int) == prefix@.subrange(0, i as int),
        decreases prefix.len() - i,
    {
        if v[i] != prefix[i] {
            assert(v@.subrange(0, prefix.len() as int)[i as int] != prefix@[i as int]);
            return false;
        }
        assert(v@.subrange(0, i + 1) == v@.subrange(0, i as int).push(v@[i as int]));
        assert(prefix@.subrange(0, i + 1) == prefix@.subrange(0, i as int).push(prefix@[i as int]));
        i += 1;
    }
    assert(prefix@.subrange(0, prefix.len() as int) == prefix@);
    true
}

/// Whether `v` ends with the characters of `suffix`.
pub fn has_suffix(v: &Vec<char>, suffix: &Vec<char>) -> (b: bool)
    ensures
        b == is_suffix(suffix@, v@),
{
    if suffix.len() > v.len() {
        return false;
    }
    let off: usize = v.len() - suffix.len();
    let mut i: usize = 0;
    while i < suffix.len()
        invariant
            suffix.len() <= v.len(),
            off == v.len() - suffix.len(),
            0 <= i <= suffix.len(),
            v@.subrange(off as int, off + i) == suffix@.subrange(0, i as int),
        decreases suffix.len() - i,
    {
        if v[off + i] != suffix[i] {
            assert(v@.subrange(off as int, v.len() as int)[i as int] != suffix@[i as int]);
            return false;
        }
        assert(v@.subrange(off as int, off + i + 1) == v@.subrange(off as int, off + i).push(v@[off + i]));
        assert(suffix@.subrange(0, i + 1) == suffix@.subrange(0, i as int).push(suffix@[i as int]));
        i += 1;
    }
    assert(suffix@.subrange(0, suffix.len() as int) == suffix@);
    true
}

/// Whether `c` occurs in `v`.
pub fn has_char(v: &Vec<char>, c: char) -> (b: bool)
    ensures
        b == v@.contains(c),
{
    let mut i: usize = 0;
    while i < v.len()
        invariant
            0 <= i <= v.len(),
            forall|j: int| 0 <= j < i ==> v@[j] != c,
        decreases v.len() - i,
    {
        if v[i] == c {
            return true;
        }
        i += 1;
    }
    false
}

} // verus!
