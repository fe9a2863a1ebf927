//! Character-sequence helpers: substring search, prefixes and suffixes,
//! over the `Seq<char>` view of Rust strings.

use vstd::prelude::*;
use vstd::string::{StrSliceExecFns, StringExecFns};

verus! {

broadcast use vstd::string::group_string_axioms;

/// `pat` occurs in `s` starting at position `i`.
pub open spec fn occurs_at(s: Seq<char>, pat: Seq<char>, i: int) -> bool {
    0 <= i && i + pat.len() <= s.len() && s.subrange(i, i + pat.len()) == pat
}

/// `pat` occurs somewhere in `s` (what `str::contains` answers).
pub open spec fn has_substring(s: Seq<char>, pat: Seq<char>) -> bool {
    exists|i: int| occurs_at(s, pat, i)
}

/// The characters of a string slice, in order.
pub fn chars_of(s: &str) -> (v: Vec<char>)
    ensures
        v@ == s@,
{
    let mut v: Vec<char> = Vec::new();
    for c in it: s.chars()
        invariant
            it.seq() == s@,
            v@ == it.seq().take(it.index() as int),
    {
        v.push(c);
    }
    v
}


/// Text that holds `big` holds every part of `big`.
pub proof fn lemma_substring_within(s: Seq<char>, big: Seq<char>, small: Seq<char>, off: int)
    requires
        has_substring(s, big),
        0 <= off,
        off + small.len() <= big.len(),
        big.subrange(off, off + small.len()) == small,
    ensures
        has_substring(s, small),
{
    let i = choose|i: int| occurs_at(s, big, i);
    assert(s.subrange(i + off, i + off + small.len()) =~= small) by {
        assert forall|k: int| 0 <= k < small.len() implies s.subrange(i + off, i + off + small.len())[k] == small[k] by {
            assert(s.subrange(i, i + big.len())[off + k] == big[off + k]);
            assert(big.subrange(off, off + small.len())[k] == big[off + k]);
        }
    }
    assert(occurs_at(s, small, i + off));
}

/// `s` begins with `pat` (what `str::starts_with` answers).
pub open spec fn has_prefix(s: Seq<char>, pat: Seq<char>) -> bool {
    occurs_at(s, pat, 0)
}

/// `s` ends with `pat` (what `str::ends_with` answers).
pub open spec fn has_suffix(s: Seq<char>, pat: Seq<char>) -> bool {
    occurs_at(s, pat, s.len() - pat.len())
}

/// Whether `pat` occurs in `s` at position `i`.
pub fn occurs_at_exec(s: &Vec<char>, pat: &Vec<char>, i: usize) -> (r: bool)
    ensures
        r == occurs_at(s@, pat@, i as int),
{
    if i > s.len() || pat.len() > s.len() - i {
        return false;
    }
    let mut j: usize = 0;
    while j < pat.len()
        invariant
            i + pat.len() <= s.len(),
            j <= pat@.len(),
            forall|k: int| 0 <= k < j ==> s@[i + k] == pat@[k],
        decreases pat@.len() - j,
    {
        if s[i + j] != pat[j] {
            assert(s@.subrange(i as int, i + pat@.len())[j as int] != pat@[j as int]);
            return false;
        }
        j = j + 1;
    }
    assert(s@.subrange(i as int, i + pat@.len()) =~= pat@);
    true
}

/// Whether `pat` occurs anywhere in `s`.
pub fn contains_seq(s: &Vec<char>, pat: &Vec<char>) -> (r: bool)
    ensures
        r == has_substring(s@, pat@),
{
    if pat.len() > s.len() {
        assert(forall|i: int| !occurs_at(s@, pat@, i));
        return false;
    }
    let last = s.len() - pat.len();
    let mut i: usize = 0;
    while i < last
        invariant
            last == s@.len() - pat@.len(),
            i <= last,
            forall|k: int| 0 <= k < i ==> !occurs_at(s@, pat@, k),
        decreases last - i,
    {
        if occurs_at_exec(s, pat, i) {
            return true;
        }
        i = i + 1;
    }
    if occurs_at_exec(s, pat, last) {
        return true;
    }
    assert(forall|k: int| !occurs_at(s@, pat@, k));
    false
}

/// Whether `s` begins with `pat`.
pub fn starts_with_seq(s: &Vec<char>, pat: &Vec<char>) -> (r: bool)
    ensures
        r == has_prefix(s@, pat@),
{
    occurs_at_exec(s, pat, 0)
}

/// Whether `s` ends with `pat`.
pub fn ends_with_seq(s: &Vec<char>, pat: &Vec<char>) -> (r: bool)
    ensures
        r == has_suffix(s@, pat@),
{
    if pat.len() > s.len() {
        return false;
    }
    occurs_at_exec(s, pat, s.len() - pat.len())
}

/// Whether the string `s` contains the string `pat`.
pub fn str_contains(s: &str, pat: &str) -> (r: bool)
    ensures
        r == has_substring(s@, pat@),
{
    contains_seq(&chars_of(s), &chars_of(pat))
}

/// Whether the string `s` begins with the string `pat`.
pub fn str_starts_with(s: &str, pat: &str) -> (r: bool)
    ensures
        r == has_prefix(s@, pat@),
{
    starts_with_seq(&chars_of(s), &chars_of(pat))
}

/// Whether the string `s` ends with the string `pat`.
pub fn str_ends_with(s: &str, pat: &str) -> (r: bool)
    ensures
        r == has_suffix(s@, pat@),
{
    ends_with_seq(&chars_of(s), &chars_of(pat))
}

/// Whether two strings hold the same characters.
pub fn str_eq(a: &str, b: &str) -> (r: bool)
    ensures
        r == (a@ == b@),
{
    let x = chars_of(a);
    let y = chars_of(b);
    if x.len() != y.len() {
        return false;
    }
    let r = occurs_at_exec(&x, &y, 0);
    assert(x@.subrange(0, y@.len() as int) =~= x@);
    r
}

/// Whether a character has the Unicode `White_Space` property.
pub uninterp spec fn unicode_white_space(c: char) -> bool;

/// A character of the ASCII range.
pub open spec fn is_ascii_char(c: char) -> bool {
    (c as u32) < 128
}

/// Every character of `s` is ASCII.
pub open spec fn ascii_text(s: Seq<char>) -> bool {
    forall|i: int| 0 <= i < s.len() ==> is_ascii_char(#[trigger] s[i])
}

/// An ASCII whitespace character in Unicode's sense: tab, line feed,
/// vertical tab, form feed, carriage return or space.
pub open spec fn ascii_white_space(c: char) -> bool {
    c == '\t' || c == '\n' || c == '\x0B' || c == '\x0C' || c == '\r' || c == ' '
}

/// Whitespace as `char::is_whitespace` answers it: on ASCII characters the
/// six of `ascii_white_space`, beyond ASCII the `White_Space` property.
pub open spec fn white_space(c: char) -> bool {
    if is_ascii_char(c) {
        ascii_white_space(c)
    } else {
        unicode_white_space(c)
    }
}

/// Calls `char::is_whitespace`, which answers whether the character has the
/// Unicode `White_Space` property. The contract names that answer and gives
/// it on ASCII characters, where the property holds of exactly tab, line
/// feed, vertical tab, form feed, carriage return and space; the property's
/// code points beyond ASCII are not listed.
#[verifier::external_body]
pub(crate) fn is_whitespace(c: char) -> (r: bool)
    ensures
        r == unicode_white_space(c),
        is_ascii_char(c) ==> r == ascii_white_space(c),
{
    c.is_whitespace()
}

/// `s` without its leading whitespace.
pub open spec fn trim_start(s: Seq<char>) -> Seq<char>
    decreases s.len(),
{
    if s.len() > 0 && white_space(s[0]) {
        trim_start(s.drop_first())
    } else {
        s
    }
}

/// `s` without its trailing whitespace.
pub open spec fn trim_end(s: Seq<char>) -> Seq<char>
    decreases s.len(),
{
    if s.len() > 0 && white_space(s.last()) {
        trim_end(s.drop_last())
    } else {
        s
    }
}

/// `s` without leading and trailing whitespace (what `str::trim` returns).
pub open spec fn trimmed(s: Seq<char>) -> Seq<char> {
    trim_end(trim_start(s))
}

/// Trimming keeps a contiguous part of the text.
pub proof fn lemma_trimmed_is_part(s: Seq<char>)
    ensures
        exists|a: int, b: int| 0 <= a <= b <= s.len() && trimmed(s) == s.subrange(a, b),
{
    lemma_trim_start_is_suffix(s);
    let a = choose|a: int| 0 <= a <= s.len() && trim_start(s) == s.subrange(a, s.len() as int);
    lemma_trim_end_is_prefix(trim_start(s));
    let b = choose|b: int| 0 <= b <= trim_start(s).len() && trim_end(trim_start(s)) == trim_start(s).subrange(0, b);
    assert(trimmed(s) =~= s.subrange(a, a + b));
}

/// Dropping leading whitespace keeps a suffix.
proof fn lemma_trim_start_is_suffix(s: Seq<char>)
    ensures
        exists|a: int| 0 <= a <= s.len() && trim_start(s) == s.subrange(a, s.len() as int),
    decreases s.len(),
{
    if s.len() > 0 && white_space(s[0]) {
        lemma_trim_start_is_suffix(s.drop_first());
        let a = choose|a: int| 0 <= a <= s.drop_first().len() && trim_start(s.drop_first()) == s.drop_first().subrange(a, s.drop_first().len() as int);
        assert(s.drop_first().subrange(a, s.drop_first().len() as int) =~= s.subrange(a + 1, s.len() as int));
    } else {
        assert(s.subrange(0, s.len() as int) =~= s);
    }
}

/// Dropping trailing whitespace keeps a prefix.
proof fn lemma_trim_end_is_prefix(s: Seq<char>)
    ensures
        exists|b: int| 0 <= b <= s.len() && trim_end(s) == s.subrange(0, b),
    decreases s.len(),
{
    if s.len() > 0 && white_space(s.last()) {
        lemma_trim_end_is_prefix(s.drop_last());
        let b = choose|b: int| 0 <= b <= s.drop_last().len() && trim_end(s.drop_last()) == s.drop_last().subrange(0, b);
        assert(s.drop_last().subrange(0, b) =~= s.subrange(0, b));
    } else {
        assert(s.subrange(0, s.len() as int) =~= s);
    }
}

/// What is left after dropping leading whitespace does not begin with whitespace.
proof fn lemma_trim_start_clean(s: Seq<char>)
    ensures
        trim_start(s).len() > 0 ==> !white_space(trim_start(s)[0]),
    decreases s.len(),
{
    if s.len() > 0 && white_space(s[0]) {
        lemma_trim_start_clean(s.drop_first());
    }
}

/// What is left after dropping trailing whitespace does not end with whitespace.
proof fn lemma_trim_end_clean(s: Seq<char>)
    ensures
        trim_end(s).len() > 0 ==> !white_space(trim_end(s).last()),
    decreases s.len(),
{
    if s.len() > 0 && white_space(s.last()) {
        lemma_trim_end_clean(s.drop_last());
    }
}

/// Trimming text that is already trimmed changes nothing.
pub proof fn lemma_trimmed_idempotent(s: Seq<char>)
    ensures
        trimmed(trimmed(s)) == trimmed(s),
        trimmed(s).len() > 0 ==> !white_space(trimmed(s)[0]) && !white_space(trimmed(s).last()),
{
    let u = trim_start(s);
    let t = trim_end(u);
    lemma_trim_start_clean(s);
    lemma_trim_end_clean(u);
    lemma_trim_end_is_prefix(u);
    let b = choose|b: int| 0 <= b <= u.len() && trim_end(u) == u.subrange(0, b);
    if t.len() > 0 {
        assert(t[0] == u[0]);
        assert(!white_space(t[0]));
        assert(trim_start(t) == t);
        assert(trim_end(t) == t);
    } else {
        assert(trim_start(t) == t);
        assert(trim_end(t) == t);
    }
}

/// The string without leading and trailing whitespace.
pub fn trim(s: &str) -> (r: &str)
    ensures
        r@ == trimmed(s@),
{
    let c = chars_of(s);
    let n = c.len();
    let mut i: usize = 0;
    assert(c@.subrange(0, n as int) =~= c@);
    while i < n && is_whitespace(c[i])
        invariant
            c@ == s@,
            n == c@.len(),
            i <= n,
            trim_start(c@) == trim_start(c@.subrange(i as int, n as int)),
        decreases n - i,
    {
        assert(c@.subrange(i as int, n as int).drop_first() =~= c@.subrange(i + 1, n as int));
        i = i + 1;
    }
    assert(trim_start(c@.subrange(i as int, n as int)) == c@.subrange(i as int, n as int));
    let mut j: usize = n;
    while j > i && is_whitespace(c[j - 1])
        invariant
            c@ == s@,
            n == c@.len(),
            i <= j <= n,
            trimmed(c@) == trim_end(c@.subrange(i as int, j as int)),
        decreases j,
    {
        assert(c@.subrange(i as int, j as int).drop_last() =~= c@.subrange(i as int, j - 1));
        j = j - 1;
    }
    s.substring_char(i, j)
}

/// A string holding the given characters, in order.
#[verifier::external_body]
pub(crate) fn string_from_chars(v: &Vec<char>) -> (r: String)
    ensures
        r@ == v@,
{
    v.iter().collect()
}

/// The number of bytes of the UTF-8 encoding of `c`.
pub open spec fn char_width(c: char) -> int {
    vstd::utf8::encode_scalar(c as u32).len() as int
}

/// The number of bytes of the UTF-8 encoding of a character.
pub fn utf8_width(c: char) -> (w: usize)
    ensures
        w == char_width(c),
        1 <= w <= 4,
{
    proof {
        vstd::utf8::char_is_scalar(c);
    }
    let v = c as u32;
    if v < 0x80 {
        1
    } else if v < 0x800 {
        2
    } else if v < 0x10000 {
        3
    } else {
        4
    }
}

/// What is left of `s` after its first `n` bytes of UTF-8, or `None` when
/// the first `n` bytes end inside a character or `s` is shorter.
pub open spec fn skip_bytes(s: Seq<char>, n: int) -> Option<Seq<char>>
    decreases s.len(),
{
    if n == 0 {
        Some(s)
    } else if n < 0 || s.len() == 0 {
        None
    } else {
        skip_bytes(s.drop_first(), n - char_width(s[0]))
    }
}

/// Skipping a positive number of bytes leaves a suffix of `s` that is shorter than `s`.
pub proof fn lemma_skip_bytes_suffix(s: Seq<char>, n: int)
    ensures
        skip_bytes(s, n) matches Some(t) ==> exists|k: int|
            0 <= k <= s.len() && t == s.skip(k) && (n > 0 ==> k > 0),
    decreases s.len(),
{
    if n == 0 {
        assert(s.skip(0) =~= s);
    } else if n < 0 || s.len() == 0 {
    } else {
        vstd::utf8::char_is_scalar(s[0]);
        lemma_skip_bytes_suffix(s.drop_first(), n - char_width(s[0]));
        if let Some(t) = skip_bytes(s, n) {
            let k = choose|k: int|
                0 <= k <= s.drop_first().len() && t == s.drop_first().skip(k) && (n - char_width(s[0]) > 0 ==> k > 0);
            assert(s.drop_first().skip(k) =~= s.skip(k + 1));
        }
    }
}

/// The position, in characters, after the first `n` bytes of `s`; `None`
/// when those bytes end inside a character or `s` is shorter.
pub fn skip_bytes_index(s: &Vec<char>, n: usize) -> (r: Option<usize>)
    ensures
        match skip_bytes(s@, n as int) {
            None => r is None,
            Some(t) => r matches Some(k) && k <= s@.len() && t == s@.skip(k as int),
        },
{
    let mut i: usize = 0;
    let mut rem: usize = n;
    assert(s@.skip(0) =~= s@);
    while rem > 0
        invariant
            i <= s@.len(),
            skip_bytes(s@, n as int) == skip_bytes(s@.skip(i as int), rem as int),
        decreases rem,
    {
        if i == s.len() {
            return None;
        }
        let w = utf8_width(s[i]);
        assert(s@.skip(i as int).drop_first() =~= s@.skip(i + 1));
        assert(s@.skip(i as int)[0] == s@[i as int]);
        if w > rem {
            assert(skip_bytes(s@.skip(i + 1), rem - w) is None);
            return None;
        }
        rem = rem - w;
        i = i + 1;
    }
    Some(i)
}

/// The lowercase form of a string, by the Unicode rules that `str::to_lowercase` applies.
pub uninterp spec fn unicode_lowercase(s: Seq<char>) -> Seq<char>;

/// The lowercase form of an ASCII character: `A` to `Z` become `a` to `z`,
/// every other character is kept.
pub open spec fn ascii_lower_char(c: char) -> char {
    if 'A' <= c && c <= 'Z' {
        ((c as u32) + 32) as char
    } else {
        c
    }
}

/// The lowercase form of a string as `str::to_lowercase` gives it: an ASCII
/// string character by character, any other by the Unicode rules.
pub open spec fn lowered(s: Seq<char>) -> Seq<char> {
    if ascii_text(s) {
        s.map_values(|c: char| ascii_lower_char(c))
    } else {
        unicode_lowercase(s)
    }
}

/// Calls `str::to_lowercase`. The contract claims that the result is the
/// string's Unicode lowercase form, a function of the string alone, and
/// gives it for ASCII strings, where Unicode's mapping lowercases `A` to `Z`
/// one character at a time and keeps every other character; the mapping
/// beyond ASCII (Unicode's tables, the final-sigma rule) is left unsaid.
#[verifier::external_body]
pub(crate) fn lowercase(s: &str) -> (r: String)
    ensures
        r@ == unicode_lowercase(s@),
        ascii_text(s@) ==> r@ == s@.map_values(|c: char| ascii_lower_char(c)),
{
    s.to_lowercase()
}

/// The ASCII digit for a value below ten.
pub open spec fn digit_char(d: nat) -> char {
    (('0' as u32) + d) as char
}

/// The decimal representation of `n`, without leading zeros.
pub open spec fn decimal(n: nat) -> Seq<char>
    decreases n,
{
    if n < 10 {
        seq![digit_char(n)]
    } else {
        decimal(n / 10).push(digit_char(n % 10))
    }
}

/// Append the decimal digits of `n` to `out`.
fn push_decimal(n: u64, out: &mut Vec<char>)
    ensures
        final(out)@ == old(out)@ + decimal(n as nat),
    decreases n,
{
    if n >= 10 {
        push_decimal(n / 10, out);
    }
    let d = (n % 10) as u32;
    let c = char_from_digit(d);
    proof {
        if n >= 10 {
            assert(old(out)@ + decimal((n / 10) as nat) + seq![c] =~= old(out)@ + decimal(n as nat));
        } else {
            assert(old(out)@ + seq![c] =~= old(out)@ + decimal(n as nat));
        }
    }
    out.push(c);
}

/// The ASCII digit for a value below ten.
fn char_from_digit(d: u32) -> (c: char)
    requires
        d < 10,
    ensures
        c == digit_char(d as nat),
{
    if d == 0 {
        '0'
    } else if d == 1 {
        '1'
    } else if d == 2 {
        '2'
    } else if d == 3 {
        '3'
    } else if d == 4 {
        '4'
    } else if d == 5 {
        '5'
    } else if d == 6 {
        '6'
    } else if d == 7 {
        '7'
    } else if d == 8 {
        '8'
    } else {
        '9'
    }
}

/// The decimal representation of a number (what `to_string` gives for an unsigned integer).
pub fn decimal_string(n: u64) -> (r: String)
    ensures
        r@ == decimal(n as nat),
{
    let mut digits: Vec<char> = Vec::new();
    push_decimal(n, &mut digits);
    assert(digits@ =~= decimal(n as nat));
    string_from_chars(&digits)
}

/// The concatenation of three strings.
pub fn concat3(a: &str, b: &str, c: &str) -> (r: String)
    ensures
        r@ == a@ + b@ + c@,
{
    let mut r = String::from_str(a);
    r.append(b);
    r.append(c);
    r
}

/// The numbers of `s` in decimal, separated by `", "`.
pub open spec fn joined_decimals(s: Seq<usize>) -> Seq<char>
    decreases s.len(),
{
    if s.len() == 0 {
        seq![]
    } else if s.len() == 1 {
        decimal(s[0] as nat)
    } else {
        joined_decimals(s.drop_last()) + ", "@ + decimal(s.last() as nat)
    }
}

/// A list of numbers as `{:?}` prints it: `[1, 2, 3]`.
pub open spec fn debug_list(s: Seq<usize>) -> Seq<char> {
    "["@ + joined_decimals(s) + "]"@
}

/// A list of numbers as `{:?}` prints it.
pub fn debug_list_string(s: &[usize]) -> (r: String)
    ensures
        r@ == debug_list(s@),
{
    let mut r = String::from_str("[");
    let mut i: usize = 0;
    while i < s.len()
        invariant
            i <= s@.len(),
            r@ == "["@ + joined_decimals(s@.take(i as int)),
        decreases s@.len() - i,
    {
        assert(s@.take(i + 1).drop_last() =~= s@.take(i as int));
        if i > 0 {
            r.append(", ");
        } else {
            assert(s@.take(0) =~= Seq::<usize>::empty());
        }
        let d = decimal_string(s[i] as u64);
        r.append(d.as_str());
        i = i + 1;
    }
    assert(s@.take(i as int) =~= s@);
    r.append("]");
    r
}

/// The length of a text in bytes, as `str::len` reports it.
pub open spec fn byte_len(s: Seq<char>) -> int {
    vstd::utf8::encode_utf8(s).len() as int
}

/// The length of a string in bytes.
pub fn byte_length(s: &str) -> (n: usize)
    ensures
        n == byte_len(s@),
{
    s.as_bytes().len()
}

} // verus!
