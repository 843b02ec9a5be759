//! Text helpers: decoding of header titles, whitespace trimming and the
//! decimal/hexadecimal renderings used in messages.
use vstd::prelude::*;
use vstd::std_specs::iter::IteratorSpec;

verus! {

/// The characters that `String::from_utf8_lossy` produces from `bytes`:
/// valid UTF-8 is decoded, invalid sequences become U+FFFD.
pub uninterp spec fn utf8_lossy(bytes: Seq<u8>) -> Seq<char>;

/// Decode `bytes` as UTF-8, replacing invalid sequences.
///
/// Calls `String::from_utf8_lossy`; its result is named by [`utf8_lossy`],
/// a function of the bytes alone. On valid UTF-8 it is the decoded text, as
/// the function's documentation says.
#[verifier::external_body]
pub(crate) fn decode_utf8_lossy(bytes: &[u8]) -> (s: String)
    ensures
        s@ == utf8_lossy(bytes@),
        vstd::utf8::valid_utf8(bytes@) ==> s@ == vstd::utf8::decode_utf8(bytes@),
{
    String::from_utf8_lossy(bytes).into_owned()
}

/// The characters of `s`, in order.
pub fn chars_of(s: &str) -> (v: Vec<char>)
    ensures
        v@ == s@,
{
    broadcast use vstd::string::axiom_spec_iter, vstd::string::next_postcondition;
    let mut it = s.chars();
    let mut v: Vec<char> = Vec::new();
    loop
        invariant
            v@ + it.remaining() == s@,
            it.obeys_prophetic_iter_laws(),
            it.decrease() is Some,
        decreases it.decrease()->0,
    {
        match it.next() {
            Some(c) => {
                v.push(c);
            },
            None => {
                assert(v@ + it.remaining() == v@);
                return v;
            },
        }
    }
}

/// The string made of the characters of `v`, in order.
///
/// Calls `String::from_iter` (`FromIterator<char>`) on the vector; the
/// claim is that the string holds exactly its characters, in order.
#[verifier::external_body]
pub(crate) fn string_from_chars(v: Vec<char>) -> (s: String)
    ensures
        s@ == v@,
{
    String::from_iter(v)
}

/// The Unicode `White_Space` property, which `char::is_whitespace` and
/// `str::trim` use.
pub open spec fn is_white_space(c: char) -> bool {
    let v = c as u32;
    (0x09 <= v <= 0x0D) || v == 0x20 || v == 0x85 || v == 0xA0 || v == 0x1680 || (0x2000 <= v
        <= 0x200A) || v == 0x2028 || v == 0x2029 || v == 0x202F || v == 0x205F || v == 0x3000
}

pub fn is_whitespace(c: char) -> (r: bool)
    ensures
        r == is_white_space(c),
{
    let v = c as u32;
    (0x09 <= v && v <= 0x0D) || v == 0x20 || v == 0x85 || v == 0xA0 || v == 0x1680 || (0x2000 <= v
        && v <= 0x200A) || v == 0x2028 || v == 0x2029 || v == 0x202F || v == 0x205F || v == 0x3000
}

/// `s` without its trailing NUL characters.
pub open spec fn trim_end_nul(s: Seq<char>) -> Seq<char>
    decreases s.len(),
{
    if s.len() > 0 && s.last() == '\0' {
        trim_end_nul(s.drop_last())
    } else {
        s
    }
}

/// `s` without its trailing white space.
pub open spec fn trim_end_white(s: Seq<char>) -> Seq<char>
    decreases s.len(),
{
    if s.len() > 0 && is_white_space(s.last()) {
        trim_end_white(s.drop_last())
    } else {
        s
    }
}

/// `s` without its leading white space.
pub open spec fn trim_start_white(s: Seq<char>) -> Seq<char>
    decreases s.len(),
{
    if s.len() > 0 && is_white_space(s[0]) {
        trim_start_white(s.drop_first())
    } else {
        s
    }
}

/// `s` without leading and trailing white space, as `str::trim` returns it.
pub open spec fn trim_white(s: Seq<char>) -> Seq<char> {
    trim_start_white(trim_end_white(s))
}

/// Length of `s` without its trailing NUL characters.
fn trailing_nul_end(s: &Vec<char>) -> (end: usize)
    ensures
        end <= s@.len(),
        trim_end_nul(s@) == s@.take(end as int),
{
    let mut end = s.len();
    assert(s@.take(end as int) =~= s@);
    while end > 0 && s[end - 1] == '\0'
        invariant
            end <= s@.len(),
            trim_end_nul(s@) == trim_end_nul(s@.take(end as int)),
        decreases end,
    {
        assert(s@.take(end as int).drop_last() =~= s@.take(end - 1));
        end = end - 1;
    }
    end
}

/// Remove leading and trailing white space and, before that, trailing NULs:
/// `s.trim_end_matches('\0').trim()`.
pub fn trim_title(s: &Vec<char>) -> (r: Vec<char>)
    ensures
        r@ == trim_white(trim_end_nul(s@)),
{
    let nul_end = trailing_nul_end(s);
    let ghost t = s@.take(nul_end as int);
    let mut end = nul_end;
    assert(t.take(end as int) =~= t);
    while end > 0 && is_whitespace(s[end - 1])
        invariant
            end <= nul_end <= s@.len(),
            t == s@.take(nul_end as int),
            trim_end_white(t) == trim_end_white(t.take(end as int)),
        decreases end,
    {
        assert(t.take(end as int).drop_last() =~= t.take(end - 1));
        end = end - 1;
    }
    proof {
        if end > 0 {
            assert(t.take(end as int).last() == s@[end - 1]);
        }
    }
    let ghost u = t.take(end as int);
    assert(trim_end_white(u) == u);
    let mut start: usize = 0;
    assert(u.skip(0) =~= u);
    while start < end && is_whitespace(s[start])
        invariant
            start <= end <= nul_end <= s@.len(),
            u == s@.take(end as int),
            trim_start_white(u) == trim_start_white(u.skip(start as int)),
        decreases end - start,
    {
        assert(u.skip(start as int).drop_first() =~= u.skip(start + 1));
        start = start + 1;
    }
    proof {
        if start < end {
            assert(u.skip(start as int)[0] == s@[start as int]);
        }
    }
    let mut r: Vec<char> = Vec::new();
    let mut i = start;
    while i < end
        invariant
            start <= i <= end <= s@.len(),
            r@ == s@.subrange(start as int, i as int),
        decreases end - i,
    {
        r.push(s[i]);
        assert(r@ =~= s@.subrange(start as int, i + 1));
        i = i + 1;
    }
    assert(r@ =~= u.skip(start as int));
    r
}

/// The decimal digit `d`.
pub open spec fn digit_char(d: int) -> char {
    ((48 + d) as u32) as char
}

/// The uppercase hexadecimal digit `d`.
pub open spec fn hex_digit_char(d: int) -> char {
    if d < 10 {
        ((48 + d) as u32) as char
    } else {
        ((55 + d) as u32) as char
    }
}

/// `n` in decimal, without leading zeros, as `{}` formats it.
pub open spec fn decimal(n: nat) -> Seq<char>
    decreases n,
{
    if n < 10 {
        seq![digit_char(n as int)]
    } else {
        decimal(n / 10).push(digit_char(n as int % 10))
    }
}

/// `b` as two uppercase hexadecimal digits, as `{:02X}` formats it.
pub open spec fn hex2(b: u8) -> Seq<char> {
    seq![hex_digit_char(b as int / 16), hex_digit_char(b as int % 16)]
}

/// The decimal digit `d` as a character.
fn digit(d: u8) -> (c: char)
    requires
        d < 10,
    ensures
        c == digit_char(d as int),
{
    match d {
        0 => '0',
        1 => '1',
        2 => '2',
        3 => '3',
        4 => '4',
        5 => '5',
        6 => '6',
        7 => '7',
        8 => '8',
        _ => '9',
    }
}

/// The uppercase hexadecimal digit `d` as a character.
fn hex_digit(d: u8) -> (c: char)
    requires
        d < 16,
    ensures
        c == hex_digit_char(d as int),
{
    if d < 10 {
        digit(d)
    } else {
        match d {
            10 => 'A',
            11 => 'B',
            12 => 'C',
            13 => 'D',
            14 => 'E',
            _ => 'F',
        }
    }
}

/// The decimal digits of `n`.
fn decimal_chars(n: u64) -> (v: Vec<char>)
    ensures
        v@ == decimal(n as nat),
    decreases n,
{
    if n < 10 {
        let mut v: Vec<char> = Vec::new();
        v.push(digit(n as u8));
        v
    } else {
        let mut v = decimal_chars(n / 10);
        v.push(digit((n % 10) as u8));
        v
    }
}

/// `n` in decimal, without leading zeros.
pub fn decimal_string(n: u64) -> (s: String)
    ensures
        s@ == decimal(n as nat),
{
    let v = decimal_chars(n);
    string_from_chars(v)
}

/// `b` as two uppercase hexadecimal digits.
pub fn hex2_string(b: u8) -> (s: String)
    ensures
        s@ == hex2(b),
{
    let mut v: Vec<char> = Vec::new();
    v.push(hex_digit(b / 16));
    v.push(hex_digit(b % 16));
    string_from_chars(v)
}

} // verus!
