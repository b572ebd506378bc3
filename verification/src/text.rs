//! Small verified helpers on text: equality, prefixes and the words of a
//! section name.

use vstd::prelude::*;

verus! {

/// Whether `c` has the Unicode property `White_Space`.
pub open spec fn is_whitespace(c: char) -> bool {
    let n = c as u32;
    ||| 0x09 <= n <= 0x0D
    ||| n == 0x20
    ||| n == 0x85
    ||| n == 0xA0
    ||| n == 0x1680
    ||| 0x2000 <= n <= 0x200A
    ||| n == 0x2028
    ||| n == 0x2029
    ||| n == 0x202F
    ||| n == 0x205F
    ||| n == 0x3000
}

/// The first index at or after `from` that holds no whitespace.
pub open spec fn skip_whitespace(s: Seq<char>, from: int) -> int
    decreases s.len() - from,
{
    if 0 <= from < s.len() && is_whitespace(s[from]) {
        skip_whitespace(s, from + 1)
    } else {
        from
    }
}

/// The first index at or after `from` that holds whitespace or ends the text.
pub open spec fn skip_word(s: Seq<char>, from: int) -> int
    decreases s.len() - from,
{
    if 0 <= from < s.len() && !is_whitespace(s[from]) {
        skip_word(s, from + 1)
    } else {
        from
    }
}

/// The second of the words that whitespace separates in `s`, if there is one.
pub open spec fn second_word(s: Seq<char>) -> Option<Seq<char>> {
    let first_end = skip_word(s, skip_whitespace(s, 0));
    let start = skip_whitespace(s, first_end);
    let end = skip_word(s, start);
    if start < end {
        Some(s.subrange(start, end))
    } else {
        None
    }
}

/// Whether two texts hold the same characters.
pub fn same_text(a: &str, b: &str) -> (same: bool)
    ensures
        same == (a@ == b@),
{
    a.to_owned() == b.to_owned()
}

/// Whether `s` begins with `prefix`.
pub fn starts_with(s: &str, prefix: &str) -> (r: bool)
    ensures
        r == prefix@.is_prefix_of(s@),
{
    let n: usize = prefix.unicode_len();
    if n > s.unicode_len() {
        return false;
    }
    let mut i: usize = 0;
    while i < n
        invariant
            i <= n,
            n == prefix@.len(),
            n <= s@.len(),
            forall|j: int| 0 <= j < i ==> s@[j] == prefix@[j],
        decreases n - i,
    {
        if s.get_char(i) != prefix.get_char(i) {
            assert(s@.subrange(0, n as int)[i as int] != prefix@[i as int]);
            return false;
        }
        i = i + 1;
    }
    assert(prefix@ =~= s@.subrange(0, n as int));
    true
}

/// The byte order mark that may precede the text of a file.
pub const BYTE_ORDER_MARK: char = '\u{feff}';

/// The text without a byte order mark at its start.
pub open spec fn without_mark(s: Seq<char>) -> Seq<char> {
    if s.len() > 0 && s[0] == BYTE_ORDER_MARK {
        s.subrange(1, s.len() as int)
    } else {
        s
    }
}

/// The text without a byte order mark at its start.
pub fn strip_byte_order_mark(s: &str) -> (rest: &str)
    ensures
        rest@ == without_mark(s@),
{
    let n: usize = s.unicode_len();
    if n > 0 && s.get_char(0) == BYTE_ORDER_MARK {
        s.substring_char(1, n)
    } else {
        s
    }
}

/// Whether `c` is whitespace.
pub fn char_is_whitespace(c: char) -> (r: bool)
    ensures
        r == is_whitespace(c),
{
    let n: u32 = c as u32;
    (0x09 <= n && n <= 0x0D) || n == 0x20 || n == 0x85 || n == 0xA0 || n == 0x1680 || (0x2000 <= n
        && n <= 0x200A) || n == 0x2028 || n == 0x2029 || n == 0x202F || n == 0x205F || n == 0x3000
}

/// Exec counterpart of [`skip_whitespace`] and [`skip_word`]: walks from
/// `from` while the characters are (`over_space`) or are not whitespace.
fn skip(s: &str, from: usize, over_space: bool) -> (to: usize)
    requires
        from <= s@.len(),
    ensures
        from <= to <= s@.len(),
        over_space ==> to == skip_whitespace(s@, from as int),
        !over_space ==> to == skip_word(s@, from as int),
{
    let n: usize = s.unicode_len();
    let mut i: usize = from;
    while i < n && char_is_whitespace(s.get_char(i)) == over_space
        invariant
            from <= i <= n,
            n == s@.len(),
            over_space ==> skip_whitespace(s@, i as int) == skip_whitespace(s@, from as int),
            !over_space ==> skip_word(s@, i as int) == skip_word(s@, from as int),
        decreases n - i,
    {
        i = i + 1;
    }
    i
}

/// The second whitespace-separated word of `s`.
pub fn second_word_of(s: &str) -> (word: Option<String>)
    ensures
        word is Some <==> second_word(s@) is Some,
        word matches Some(w) ==> second_word(s@) == Some(w@),
{
    let lead: usize = skip(s, 0, true);
    let first_end: usize = skip(s, lead, false);
    let start: usize = skip(s, first_end, true);
    let end: usize = skip(s, start, false);
    if start < end {
        Some(s.substring_char(start, end).to_owned())
    } else {
        None
    }
}

} // verus!
