//! Character-level text handling: whitespace trimming, line and word
//! splitting, searching, decimal numbers and the ordering of strings.
//!
//! Every function works on the characters of its input (a `str` is viewed as
//! the sequence of its `char`s) and is specified by a spec function over
//! `Seq<char>` that follows the documented behaviour of the corresponding
//! `str` method of std.
use vstd::prelude::*;

verus! {

/// `String::push` appends one character to the end of the string.
pub assume_specification[ String::push ](s: &mut String, ch: char)
    ensures
        final(s)@ == old(s)@.push(ch),
;

// ---------------------------------------------------------------------------
// Conversions between strings and vectors of characters
// ---------------------------------------------------------------------------

/// The characters of `s`, in order.
pub fn chars_of(s: &str) -> (v: Vec<char>)
    ensures
        v@ == s@,
{
    let mut v: Vec<char> = Vec::new();
    for c in it: s.chars()
        invariant
            v@ == it.seq().take(it.index() as int),
            it.seq() == s@,
    {
        v.push(c);
    }
    v
}

/// The string made of the characters `v[lo..hi]`.
pub fn string_of_range(v: &Vec<char>, lo: usize, hi: usize) -> (s: String)
    requires
        lo <= hi <= v.len(),
    ensures
        s@ == v@.subrange(lo as int, hi as int),
{
    let mut s = String::new();
    let mut i: usize = lo;
    while i < hi
        invariant
            lo <= i <= hi <= v.len(),
            s@ == v@.subrange(lo as int, i as int),
        decreases hi - i,
    {
        s.push(v[i]);
        assert(v@.subrange(lo as int, i + 1) == v@.subrange(lo as int, i as int).push(v@[i as int]));
        i = i + 1;
    }
    s
}

/// The string made of the characters of `v`.
pub fn string_of(v: &Vec<char>) -> (s: String)
    ensures
        s@ == v@,
{
    let s = string_of_range(v, 0, v.len());
    assert(v@.subrange(0, v.len() as int) == v@);
    s
}

/// The views of a sequence of character vectors.
pub open spec fn char_seqs(v: Seq<Vec<char>>) -> Seq<Seq<char>> {
    v.map_values(|x: Vec<char>| x@)
}

/// The views of a sequence of strings.
pub open spec fn string_seqs(v: Seq<String>) -> Seq<Seq<char>> {
    v.map_values(|x: String| x@)
}

/// Turns each vector of characters into a string.
pub fn strings_of(v: &Vec<Vec<char>>) -> (r: Vec<String>)
    ensures
        string_seqs(r@) == char_seqs(v@),
{
    let mut r: Vec<String> = Vec::new();
    for i in 0..v.len()
        invariant
            string_seqs(r@) == char_seqs(v@.take(i as int)),
    {
        let s = string_of(&v[i]);
        r.push(s);
        assert(char_seqs(v@.take(i + 1)) == char_seqs(v@.take(i as int)).push(v@[i as int]@));
        assert(string_seqs(r@) == string_seqs(r@.drop_last()).push(s@));
    }
    assert(v@.take(v.len() as int) == v@);
    r
}

/// The string with the same characters as `s`.
pub fn owned(s: &str) -> (r: String)
    ensures
        r@ == s@,
{
    s.to_owned()
}

/// Whether the two strings hold the same characters.
pub fn str_eq(a: &str, b: &str) -> (r: bool)
    ensures
        r == (a@ == b@),
{
    let va = chars_of(a);
    let vb = chars_of(b);
    chars_eq(&va, &vb)
}

/// Whether the two vectors hold the same characters.
pub fn chars_eq(a: &Vec<char>, b: &Vec<char>) -> (r: bool)
    ensures
        r == (a@ == b@),
{
    if a.len() != b.len() {
        return false;
    }
    for i in 0..a.len()
        invariant
            a.len() == b.len(),
            forall|j: int| 0 <= j < i ==> a@[j] == b@[j],
    {
        if a[i] != b[i] {
            return false;
        }
    }
    assert(a@ =~= b@);
    true
}

// ---------------------------------------------------------------------------
// Whitespace and trimming
// ---------------------------------------------------------------------------

/// The characters with the Unicode property `White_Space`: those for which
/// `char::is_whitespace` holds.
pub open spec fn is_space(c: char) -> bool {
    ||| ('\u{9}' <= c && c <= '\u{d}')
    ||| c == ' '
    ||| c == '\u{85}'
    ||| c == '\u{a0}'
    ||| c == '\u{1680}'
    ||| ('\u{2000}' <= c && c <= '\u{200a}')
    ||| c == '\u{2028}'
    ||| c == '\u{2029}'
    ||| c == '\u{202f}'
    ||| c == '\u{205f}'
    ||| c == '\u{3000}'
}

/// Whether `c` is white space.
pub fn is_space_char(c: char) -> (r: bool)
    ensures
        r == is_space(c),
{
    ('\u{9}' <= c && c <= '\u{d}') || c == ' ' || c == '\u{85}' || c == '\u{a0}' || c
        == '\u{1680}' || ('\u{2000}' <= c && c <= '\u{200a}') || c == '\u{2028}' || c
        == '\u{2029}' || c == '\u{202f}' || c == '\u{205f}' || c == '\u{3000}'
}

/// `s` without its leading white space.
pub open spec fn trim_start_seq(s: Seq<char>) -> Seq<char>
    decreases s.len(),
{
    if s.len() > 0 && is_space(s[0]) {
        trim_start_seq(s.drop_first())
    } else {
        s
    }
}

/// `s` without its trailing white space.
pub open spec fn trim_end_seq(s: Seq<char>) -> Seq<char>
    decreases s.len(),
{
    if s.len() > 0 && is_space(s.last()) {
        trim_end_seq(s.drop_last())
    } else {
        s
    }
}

/// `s` without its leading and trailing white space, as `str::trim` gives it.
pub open spec fn trim_seq(s: Seq<char>) -> Seq<char> {
    trim_end_seq(trim_start_seq(s))
}

/// The index of the first character of `v[lo..]` that is not white space,
/// or `v.len()`.
fn skip_spaces(v: &Vec<char>) -> (i: usize)
    ensures
        i <= v.len(),
        trim_start_seq(v@) == v@.skip(i as int),
{
    let mut i: usize = 0;
    assert(v@.skip(0) == v@);
    while i < v.len() && is_space_char(v[i])
        invariant
            i <= v.len(),
            trim_start_seq(v@) == trim_start_seq(v@.skip(i as int)),
        decreases v.len() - i,
    {
        assert(v@.skip(i as int).drop_first() == v@.skip(i + 1));
        i = i + 1;
    }
    i
}

/// The end of `v[lo..hi]` once its trailing white space is removed.
fn skip_spaces_back(v: &Vec<char>, lo: usize, hi: usize) -> (j: usize)
    requires
        lo <= hi <= v.len(),
    ensures
        lo <= j <= hi,
        trim_end_seq(v@.subrange(lo as int, hi as int)) == v@.subrange(lo as int, j as int),
{
    let mut j: usize = hi;
    while j > lo && is_space_char(v[j - 1])
        invariant
            lo <= j <= hi <= v.len(),
            trim_end_seq(v@.subrange(lo as int, hi as int)) == trim_end_seq(
                v@.subrange(lo as int, j as int),
            ),
        decreases j,
    {
        assert(v@.subrange(lo as int, j as int).drop_last() == v@.subrange(lo as int, j - 1));
        j = j - 1;
    }
    j
}

/// `s` without leading and trailing white space (`str::trim`).
pub fn trim(s: &str) -> (r: String)
    ensures
        r@ == trim_seq(s@),
{
    let v = chars_of(s);
    let i = skip_spaces(&v);
    assert(v@.skip(i as int) == v@.subrange(i as int, v.len() as int));
    let j = skip_spaces_back(&v, i, v.len());
    string_of_range(&v, i, j)
}

/// `s` without trailing white space (`str::trim_end`).
pub fn trim_end(s: &str) -> (r: String)
    ensures
        r@ == trim_end_seq(s@),
{
    let v = chars_of(s);
    assert(v@.subrange(0, v.len() as int) == v@);
    let j = skip_spaces_back(&v, 0, v.len());
    string_of_range(&v, 0, j)
}

// ---------------------------------------------------------------------------
// Splitting
// ---------------------------------------------------------------------------

/// The pieces of `s` between the occurrences of `sep`, as `str::split` gives
/// them: one more piece than there are separators.
pub open spec fn split_on(s: Seq<char>, sep: char) -> Seq<Seq<char>>
    decreases s.len(),
{
    if s.len() == 0 {
        seq![Seq::<char>::empty()]
    } else {
        let p = split_on(s.drop_last(), sep);
        if s.last() == sep {
            p.push(Seq::<char>::empty())
        } else {
            p.update(p.len() - 1, p.last().push(s.last()))
        }
    }
}

/// There is always at least one piece.
pub proof fn lemma_split_on_nonempty(s: Seq<char>, sep: char)
    ensures
        split_on(s, sep).len() >= 1,
    decreases s.len(),
{
    if s.len() > 0 {
        lemma_split_on_nonempty(s.drop_last(), sep);
    }
}

/// `l` without one trailing carriage return.
pub open spec fn strip_cr(l: Seq<char>) -> Seq<char> {
    if l.len() > 0 && l.last() == '\r' {
        l.drop_last()
    } else {
        l
    }
}

/// The lines of `s`, as `str::lines` gives them: the pieces between line
/// feeds, where a piece that a line feed ends loses one carriage return at
/// its end, and an empty piece after the last line feed is no line.
pub open spec fn lines_seq(s: Seq<char>) -> Seq<Seq<char>> {
    let p = split_on(s, '\n');
    let n: int = if p.last().len() == 0 {
        p.len() - 1
    } else {
        p.len() as int
    };
    Seq::new(
        n as nat,
        |i: int|
            if i < p.len() - 1 {
                strip_cr(p[i])
            } else {
                p[i]
            },
    )
}

/// The pieces of `v` between the occurrences of `sep`.
fn split_chars(v: &Vec<char>, sep: char) -> (r: Vec<Vec<char>>)
    ensures
        char_seqs(r@) == split_on(v@, sep),
{
    let mut pieces: Vec<Vec<char>> = Vec::new();
    let mut cur: Vec<char> = Vec::new();
    for i in 0..v.len()
        invariant
            char_seqs(pieces@).push(cur@) == split_on(v@.take(i as int), sep),
    {
        assert(v@.take(i + 1).drop_last() == v@.take(i as int));
        let c = v[i];
        if c == sep {
            let done = cur;
            pieces.push(done);
            cur = Vec::new();
            assert(char_seqs(pieces@) == char_seqs(pieces@.drop_last()).push(done@));
        } else {
            cur.push(c);
        }
    }
    assert(v@.take(v.len() as int) == v@);
    let last = cur;
    pieces.push(last);
    assert(char_seqs(pieces@) == char_seqs(pieces@.drop_last()).push(last@));
    pieces
}

/// The lines of `s` (`str::lines`).
pub fn lines(s: &str) -> (r: Vec<String>)
    ensures
        string_seqs(r@) == lines_seq(s@),
{
    let v = chars_of(s);
    let pieces = split_chars(&v, '\n');
    proof {
        lemma_split_on_nonempty(v@, '\n');
    }
    let np = pieces.len();
    let n: usize = if pieces[np - 1].len() == 0 {
        np - 1
    } else {
        np
    };
    let mut out: Vec<String> = Vec::new();
    for i in 0..n
        invariant
            n <= np == pieces.len(),
            char_seqs(pieces@) == split_on(v@, '\n'),
            v@ == s@,
            string_seqs(out@) == lines_seq(s@).take(i as int),
            n == lines_seq(s@).len(),
    {
        let piece = &pieces[i];
        let len = piece.len();
        let end: usize = if i + 1 < np && len > 0 && piece[len - 1] == '\r' {
            len - 1
        } else {
            len
        };
        let line = string_of_range(piece, 0, end);
        assert(piece@.subrange(0, len as int) == piece@);
        assert(piece@.subrange(0, len - 1) == piece@.drop_last());
        out.push(line);
        assert(lines_seq(s@).take(i + 1) == lines_seq(s@).take(i as int).push(line@));
        assert(string_seqs(out@) == string_seqs(out@.drop_last()).push(line@));
    }
    assert(lines_seq(s@).take(n as int) == lines_seq(s@));
    out
}

/// The words of `s`, as `str::split_whitespace` gives them: the non-empty
/// runs of characters that are not white space.
pub open spec fn words_seq(s: Seq<char>) -> Seq<Seq<char>>
    decreases s.len(),
{
    if s.len() == 0 {
        seq![]
    } else {
        let w = words_seq(s.drop_last());
        let c = s.last();
        if is_space(c) {
            w
        } else if s.len() >= 2 && !is_space(s[s.len() - 2]) {
            w.update(w.len() - 1, w.last().push(c))
        } else {
            w.push(seq![c])
        }
    }
}

/// The words of `v`.
fn words_of_chars(v: &Vec<char>) -> (r: Vec<Vec<char>>)
    ensures
        char_seqs(r@) == words_seq(v@),
{
    let mut words: Vec<Vec<char>> = Vec::new();
    let mut cur: Vec<char> = Vec::new();
    let mut in_word = false;
    for i in 0..v.len()
        invariant
            in_word == (i > 0 && !is_space(v@[i - 1])),
            in_word ==> char_seqs(words@).push(cur@) == words_seq(v@.take(i as int)),
            !in_word ==> char_seqs(words@) == words_seq(v@.take(i as int)),
            !in_word ==> cur@.len() == 0,
    {
        let c = v[i];
        let ghost pre = v@.take(i as int);
        assert(v@.take(i + 1).drop_last() == pre);
        assert(v@.take(i + 1).last() == c);
        if is_space_char(c) {
            if in_word {
                let done = cur;
                words.push(done);
                cur = Vec::new();
                assert(char_seqs(words@) == char_seqs(words@.drop_last()).push(done@));
            }
            in_word = false;
        } else {
            if in_word {
                assert(v@.take(i + 1)[i - 1] == v@[i - 1]);
            } else {
                if i > 0 {
                    assert(v@.take(i + 1)[i - 1] == v@[i - 1]);
                }
                assert(cur@.push(c) == seq![c]);
            }
            cur.push(c);
            in_word = true;
        }
    }
    assert(v@.take(v.len() as int) == v@);
    if in_word {
        let last = cur;
        words.push(last);
        assert(char_seqs(words@) == char_seqs(words@.drop_last()).push(last@));
    }
    words
}

/// The words of `s` (`str::split_whitespace`).
pub fn words(s: &str) -> (r: Vec<String>)
    ensures
        string_seqs(r@) == words_seq(s@),
{
    let v = chars_of(s);
    let w = words_of_chars(&v);
    strings_of(&w)
}

/// The index of the first occurrence of `c` in `s`.
pub open spec fn find_char(s: Seq<char>, c: char) -> Option<int>
    decreases s.len(),
{
    if s.len() == 0 {
        None
    } else {
        let r = find_char(s.drop_last(), c);
        if r is Some {
            r
        } else if s.last() == c {
            Some(s.len() - 1)
        } else {
            None
        }
    }
}

/// `s` split at the first `c`, as `str::split_once` gives it.
pub open spec fn split_once_seq(s: Seq<char>, c: char) -> Option<(Seq<char>, Seq<char>)> {
    match find_char(s, c) {
        Some(k) => Some((s.take(k), s.skip(k + 1))),
        None => None,
    }
}

/// The index of the first `c` in `v`.
fn find_in(v: &Vec<char>, c: char) -> (r: Option<usize>)
    ensures
        r matches Some(k) ==> find_char(v@, c) == Some(k as int) && k < v.len(),
        r is None ==> find_char(v@, c) is None,
{
    let mut found: Option<usize> = None;
    for i in 0..v.len()
        invariant
            found matches Some(k) ==> find_char(v@.take(i as int), c) == Some(k as int) && k < i,
            found is None ==> find_char(v@.take(i as int), c) is None,
    {
        assert(v@.take(i + 1).drop_last() == v@.take(i as int));
        if found.is_none() && v[i] == c {
            found = Some(i);
        }
    }
    assert(v@.take(v.len() as int) == v@);
    found
}

/// `s` split at the first `c` (`str::split_once`).
pub fn split_once(s: &str, c: char) -> (r: Option<(String, String)>)
    ensures
        match r {
            Some((a, b)) => split_once_seq(s@, c) == Some((a@, b@)),
            None => split_once_seq(s@, c) is None,
        },
{
    let v = chars_of(s);
    match find_in(&v, c) {
        Some(k) => {
            let a = string_of_range(&v, 0, k);
            let b = string_of_range(&v, k + 1, v.len());
            assert(v@.subrange(0, k as int) == v@.take(k as int));
            assert(v@.subrange(k + 1, v.len() as int) == v@.skip(k + 1));
            Some((a, b))
        },
        None => None,
    }
}

/// Whether `p` occurs in `s` at index `i`.
pub open spec fn occurs_at(s: Seq<char>, p: Seq<char>, i: int) -> bool {
    0 <= i && i + p.len() <= s.len() && s.subrange(i, i + p.len()) == p
}

/// Whether `p` occurs in `s` (`str::contains` with a string pattern).
pub open spec fn contains_seq(s: Seq<char>, p: Seq<char>) -> bool {
    exists|i: int| #[trigger] occurs_at(s, p, i)
}

/// Whether `p` occurs in `v` at index `i`.
fn matches_at(v: &Vec<char>, p: &Vec<char>, i: usize) -> (r: bool)
    requires
        i + p.len() <= v.len(),
    ensures
        r == occurs_at(v@, p@, i as int),
{
    for j in 0..p.len()
        invariant
            i + p.len() <= v.len(),
            forall|k: int| 0 <= k < j ==> v@[i + k] == p@[k],
    {
        if v[i + j] != p[j] {
            assert(v@.subrange(i as int, i + p.len())[j as int] != p@[j as int]);
            return false;
        }
    }
    assert(v@.subrange(i as int, i + p.len()) =~= p@);
    true
}

/// Whether `pat` occurs in `s` (`str::contains`).
pub fn contains(s: &str, pat: &str) -> (r: bool)
    ensures
        r == contains_seq(s@, pat@),
{
    let v = chars_of(s);
    let p = chars_of(pat);
    if p.len() == 0 {
        assert(v@.subrange(0, 0) =~= p@);
        assert(occurs_at(v@, p@, 0));
        return true;
    }
    if p.len() > v.len() {
        assert forall|i: int| !occurs_at(v@, p@, i) by {}
        return false;
    }
    let last = v.len() - p.len();
    let mut i: usize = 0;
    while i <= last
        invariant
            last + p.len() == v.len(),
            p.len() > 0,
            v@ == s@,
            p@ == pat@,
            forall|k: int| 0 <= k < i ==> !occurs_at(v@, p@, k),
        decreases last + 1 - i,
    {
        if matches_at(&v, &p, i) {
            return true;
        }
        i = i + 1;
    }
    assert forall|k: int| !occurs_at(v@, p@, k) by {
        if 0 <= k <= last {
        }
    }
    false
}

/// `s` without one trailing line feed (`str::strip_suffix('\n')`, keeping
/// `s` where there is none).
pub open spec fn strip_newline(s: Seq<char>) -> Seq<char> {
    if s.len() > 0 && s.last() == '\n' {
        s.drop_last()
    } else {
        s
    }
}

/// `s` without one trailing line feed.
pub fn strip_newline_str(s: &str) -> (r: String)
    ensures
        r@ == strip_newline(s@),
{
    let v = chars_of(s);
    let n = v.len();
    if n > 0 && v[n - 1] == '\n' {
        let r = string_of_range(&v, 0, n - 1);
        assert(v@.subrange(0, n - 1) == v@.drop_last());
        r
    } else {
        assert(v@.subrange(0, n as int) == v@);
        string_of_range(&v, 0, n)
    }
}

// ---------------------------------------------------------------------------
// Decimal numbers
// ---------------------------------------------------------------------------

/// The decimal digit for `d`.
pub open spec fn digit_char(d: int) -> char {
    if d == 0 {
        '0'
    } else if d == 1 {
        '1'
    } else if d == 2 {
        '2'
    } else if d == 3 {
        '3'
    } else if d == 4 {
        '4'
    } else if d == 5 {
        '5'
    } else if d == 6 {
        '6'
    } else if d == 7 {
        '7'
    } else if d == 8 {
        '8'
    } else {
        '9'
    }
}

/// Whether `c` is one of the digits `0` to `9`.
pub open spec fn is_digit(c: char) -> bool {
    '0' <= c && c <= '9'
}

/// The value of a digit.
pub open spec fn digit_val(c: char) -> int {
    (c as int) - ('0' as int)
}

/// The decimal writing of `n`, as `u32::to_string` gives it.
pub open spec fn decimal(n: nat) -> Seq<char>
    decreases n,
{
    if n < 10 {
        seq![digit_char(n as int)]
    } else {
        decimal(n / 10).push(digit_char((n % 10) as int))
    }
}

/// The value of a string of digits.
pub open spec fn digits_value(s: Seq<char>) -> int
    decreases s.len(),
{
    if s.len() == 0 {
        0
    } else {
        digits_value(s.drop_last()) * 10 + digit_val(s.last())
    }
}

/// Whether every character of `s` is a digit.
pub open spec fn all_digits(s: Seq<char>) -> bool {
    forall|i: int| 0 <= i < s.len() ==> is_digit(#[trigger] s[i])
}

/// The digits of `s` once an optional leading `+` is taken off.
pub open spec fn unsigned_digits(s: Seq<char>) -> Seq<char> {
    if s.len() > 0 && s[0] == '+' {
        s.drop_first()
    } else {
        s
    }
}

/// What `s.parse::<u32>()` gives: the value of an optional `+` followed by
/// one or more digits, where that value fits in a `u32`.
pub open spec fn parse_u32_seq(s: Seq<char>) -> Option<u32> {
    let d = unsigned_digits(s);
    if d.len() > 0 && all_digits(d) && digits_value(d) <= u32::MAX {
        Some(digits_value(d) as u32)
    } else {
        None
    }
}

/// The digit for `d`.
fn digit_to_char(d: u32) -> (c: char)
    requires
        d < 10,
    ensures
        c == digit_char(d as int),
{
    match d {
        0 => '0',
        1 => '1',
        2 => '2',
        3 => '3',
        4 => '4',
        5 => '5',
        6 => '6',
        7 => '7',
        8 => '8',
        _ => '9',
    }
}

/// Appends the decimal writing of `n` to `out`.
fn push_decimal(n: u32, out: &mut Vec<char>)
    ensures
        final(out)@ == old(out)@ + decimal(n as nat),
    decreases n,
{
    if n >= 10 {
        push_decimal(n / 10, out);
    }
    out.push(digit_to_char(n % 10));
    assert(old(out)@ + decimal(n as nat) =~= final(out)@) by {
        if n >= 10 {
            assert(decimal(n as nat) == decimal((n / 10) as nat).push(digit_char((n % 10) as int)));
        }
    }
}

/// The decimal writing of `n` (`u32::to_string`).
pub fn format_u32(n: u32) -> (s: String)
    ensures
        s@ == decimal(n as nat),
{
    let mut v: Vec<char> = Vec::new();
    push_decimal(n, &mut v);
    assert(Seq::<char>::empty() + decimal(n as nat) == decimal(n as nat));
    string_of(&v)
}

/// A longer string of digits is worth at least as much as its prefix.
proof fn lemma_digits_value_prefix(s: Seq<char>, i: int)
    requires
        all_digits(s),
        0 <= i <= s.len(),
    ensures
        0 <= digits_value(s.take(i)) <= digits_value(s),
    decreases s.len(),
{
    if s.len() > 0 {
        assert(is_digit(s[s.len() - 1]));
        assert(all_digits(s.drop_last())) by {
            assert forall|j: int| 0 <= j < s.drop_last().len() implies is_digit(
                #[trigger] s.drop_last()[j],
            ) by {
                assert(s.drop_last()[j] == s[j]);
            }
        }
        if i == s.len() {
            assert(s.take(i) == s);
            lemma_digits_value_prefix(s.drop_last(), i - 1);
            assert(s.drop_last().take(i - 1) == s.drop_last());
        } else {
            lemma_digits_value_prefix(s.drop_last(), i);
            assert(s.drop_last().take(i) == s.take(i));
            lemma_digits_value_prefix(s.drop_last(), s.len() - 1);
            assert(s.drop_last().take(s.len() - 1) == s.drop_last());
        }
    }
}

/// The value of `s` (`s.parse::<u32>()`), or `None` where that fails.
pub fn parse_u32(s: &str) -> (r: Option<u32>)
    ensures
        r == parse_u32_seq(s@),
{
    let v = chars_of(s);
    let start: usize = if v.len() > 0 && v[0] == '+' {
        1
    } else {
        0
    };
    let ghost d = unsigned_digits(v@);
    assert(d == v@.skip(start as int));
    if start >= v.len() {
        return None;
    }
    let mut value: u64 = 0;
    let mut i: usize = start;
    while i < v.len()
        invariant
            start <= i <= v.len(),
            v@ == s@,
            d == unsigned_digits(v@),
            d == v@.skip(start as int),
            d.len() > 0,
            forall|j: int| 0 <= j < i - start ==> is_digit(#[trigger] d[j]),
            value as int == digits_value(d.take(i - start)),
            value <= u32::MAX,
        decreases v.len() - i,
    {
        let c = v[i];
        let ghost k = i - start;
        assert(d[k] == c);
        if !('0' <= c && c <= '9') {
            assert(!is_digit(d[k]));
            return None;
        }
        let dv = (c as u32 - '0' as u32) as u64;
        assert(dv == digit_val(c));
        assert(d.take(k + 1).drop_last() == d.take(k));
        assert(d.take(k + 1).last() == c);
        let next = value * 10 + dv;
        if next > u32::MAX as u64 {
            proof {
                if all_digits(d) {
                    lemma_digits_value_prefix(d, k + 1);
                }
            }
            return None;
        }
        value = next;
        i = i + 1;
    }
    assert(d.take(d.len() as int) == d);
    Some(value as u32)
}

/// A digit is worth what it stands for.
proof fn lemma_digit_char(d: int)
    requires
        0 <= d < 10,
    ensures
        is_digit(digit_char(d)),
        digit_val(digit_char(d)) == d,
{
}

/// The decimal writing of `n` is read back as `n`.
pub proof fn lemma_decimal_digits(n: nat)
    ensures
        decimal(n).len() > 0,
        all_digits(decimal(n)),
        digits_value(decimal(n)) == n,
    decreases n,
{
    lemma_digit_char((n % 10) as int);
    if n < 10 {
        assert(decimal(n).drop_last() =~= Seq::<char>::empty());
        assert(digits_value(decimal(n)) == digits_value(Seq::<char>::empty()) * 10 + digit_val(digit_char(n as int)));
    }
    if n >= 10 {
        lemma_decimal_digits(n / 10);
        let s = decimal(n);
        assert(s.drop_last() == decimal(n / 10));
        assert(s.last() == digit_char((n % 10) as int));
        assert(digits_value(s) == digits_value(decimal(n / 10)) * 10 + (n % 10));
        assert forall|i: int| 0 <= i < s.len() implies is_digit(#[trigger] s[i]) by {
            if i < s.len() - 1 {
                assert(s[i] == decimal(n / 10)[i]);
            }
        }
    }
}

/// Reading a number written in decimal gives the number back: what
/// `format_u32` writes, `parse_u32` reads as the same value.
pub proof fn lemma_parse_format_u32(n: u32)
    ensures
        parse_u32_seq(decimal(n as nat)) == Some(n),
{
    lemma_decimal_digits(n as nat);
    assert(is_digit(decimal(n as nat)[0]));
}

/// Trimming the start leaves nothing, or a text that starts in a character
/// that is not white space.
proof fn lemma_trim_start_shape(s: Seq<char>)
    ensures
        trim_start_seq(s).len() == 0 || !is_space(trim_start_seq(s)[0]),
    decreases s.len(),
{
    if s.len() > 0 && is_space(s[0]) {
        lemma_trim_start_shape(s.drop_first());
    }
}

/// Trimming the end keeps a prefix, which is empty or ends in a character
/// that is not white space.
proof fn lemma_trim_end_shape(s: Seq<char>)
    ensures
        trim_end_seq(s).len() <= s.len(),
        trim_end_seq(s) == s.take(trim_end_seq(s).len() as int),
        trim_end_seq(s).len() == 0 || !is_space(trim_end_seq(s).last()),
    decreases s.len(),
{
    if s.len() > 0 && is_space(s.last()) {
        lemma_trim_end_shape(s.drop_last());
        let t = trim_end_seq(s.drop_last());
        assert(s.drop_last().take(t.len() as int) == s.take(t.len() as int));
    } else {
        assert(s.take(s.len() as int) == s);
    }
}

/// Trimming a trimmed text changes nothing (`str::trim` is idempotent).
pub proof fn lemma_trim_idempotent(s: Seq<char>)
    ensures
        trim_seq(trim_seq(s)) == trim_seq(s),
{
    let u = trim_start_seq(s);
    let t = trim_end_seq(u);
    lemma_trim_start_shape(s);
    lemma_trim_end_shape(u);
    if t.len() > 0 {
        assert(t[0] == u[0]);
        assert(trim_start_seq(t) == t);
        assert(trim_end_seq(t) == t);
    } else {
        assert(trim_start_seq(t) == t);
        assert(trim_end_seq(t) == t);
    }
}

/// A line that tmux prints for a value that ends in no white space gives the
/// value back once trailing white space is trimmed.
pub proof fn lemma_trim_end_line(v: Seq<char>)
    requires
        v.len() == 0 || !is_space(v.last()),
    ensures
        trim_end_seq(v + seq!['\n']) == v,
{
    let w = v + seq!['\n'];
    assert(w.last() == '\n');
    assert(is_space(w.last()));
    assert(w.drop_last() == v);
    assert(trim_end_seq(w) == trim_end_seq(v));
    if v.len() > 0 {
        assert(!is_space(v.last()));
    }
    assert(trim_end_seq(v) == v);
}

/// A line that tmux prints for a value that is not empty and neither starts
/// nor ends in white space gives the value back once trimmed.
pub proof fn lemma_trim_line(v: Seq<char>)
    requires
        v.len() > 0,
        !is_space(v[0]),
        !is_space(v.last()),
    ensures
        trim_seq(v + seq!['\n']) == v,
{
    assert((v + seq!['\n'])[0] == v[0]);
    lemma_trim_end_line(v);
}

/// A number that tmux prints on a line is read back, once the line's
/// trailing white space is trimmed, as the same number.
pub proof fn lemma_index_line(n: u32)
    ensures
        parse_u32_seq(trim_end_seq(decimal(n as nat) + seq!['\n'])) == Some(n),
{
    lemma_decimal_digits(n as nat);
    let d = decimal(n as nat);
    assert(is_digit(d[d.len() - 1]));
    lemma_trim_end_line(d);
    lemma_parse_format_u32(n);
}

// ---------------------------------------------------------------------------
// Ordering of strings
// ---------------------------------------------------------------------------

/// The order of `String`s: lexicographic by character (which is the order of
/// their UTF-8 bytes).
pub open spec fn seq_lt(a: Seq<char>, b: Seq<char>) -> bool
    decreases a.len(),
{
    if a.len() == 0 {
        b.len() > 0
    } else if b.len() == 0 {
        false
    } else if a[0] < b[0] {
        true
    } else if a[0] == b[0] {
        seq_lt(a.drop_first(), b.drop_first())
    } else {
        false
    }
}

/// No string is less than itself, and of two different strings one is less
/// than the other.
pub proof fn lemma_seq_lt_total(a: Seq<char>, b: Seq<char>)
    ensures
        !(seq_lt(a, b) && seq_lt(b, a)),
        a == b ==> !seq_lt(a, b),
        a != b ==> seq_lt(a, b) || seq_lt(b, a),
    decreases a.len(),
{
    if a.len() > 0 && b.len() > 0 {
        lemma_seq_lt_total(a.drop_first(), b.drop_first());
        if a[0] == b[0] && a.drop_first() == b.drop_first() {
            assert(a == seq![a[0]] + a.drop_first());
            assert(b == seq![b[0]] + b.drop_first());
        }
    } else if a.len() == 0 && b.len() == 0 {
        assert(a == b);
    }
}

/// The order of strings is transitive.
pub proof fn lemma_seq_lt_trans(a: Seq<char>, b: Seq<char>, c: Seq<char>)
    requires
        seq_lt(a, b),
        seq_lt(b, c),
    ensures
        seq_lt(a, c),
    decreases a.len(),
{
    if a.len() > 0 && b.len() > 0 && c.len() > 0 {
        if a[0] == b[0] && b[0] == c[0] {
            lemma_seq_lt_trans(a.drop_first(), b.drop_first(), c.drop_first());
        }
    }
}

/// Whether `a` comes before `b` in the order of strings.
pub fn chars_lt(a: &Vec<char>, b: &Vec<char>) -> (r: bool)
    ensures
        r == seq_lt(a@, b@),
{
    let mut i: usize = 0;
    assert(a@.skip(0) == a@);
    assert(b@.skip(0) == b@);
    loop
        invariant
            i <= a.len(),
            i <= b.len(),
            seq_lt(a@, b@) == seq_lt(a@.skip(i as int), b@.skip(i as int)),
        decreases a.len() - i,
    {
        if i == a.len() {
            return i < b.len();
        }
        if i == b.len() {
            return false;
        }
        if a[i] < b[i] {
            return true;
        }
        if a[i] != b[i] {
            return false;
        }
        assert(a@.skip(i as int).drop_first() == a@.skip(i + 1));
        assert(b@.skip(i as int).drop_first() == b@.skip(i + 1));
        i = i + 1;
    }
}

} // verus!
