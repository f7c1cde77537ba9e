//! Times as text: decoding `MM:SS.mmm` and `HH:MM:SS.mmm`, and writing a time
//! in the bracketed and the subtitle convention.
//!
//! A time is a whole number of milliseconds.

use crate::text::{append_chars, chars_of, split, split_on, string_of};
use vstd::prelude::*;

verus! {

/// An ASCII decimal digit.
pub open spec fn is_digit(c: char) -> bool {
    '0' <= c <= '9'
}

/// Whether every character is an ASCII decimal digit.
pub open spec fn all_digits(s: Seq<char>) -> bool {
    forall|i: int| 0 <= i < s.len() ==> is_digit(#[trigger] s[i])
}

/// The number that a digit stands for.
pub open spec fn digit_value(c: char) -> nat {
    (c as u32 - '0' as u32) as nat
}

/// The number that a run of digits writes in base ten; 0 for the empty run.
pub open spec fn digits_value(s: Seq<char>) -> nat
    decreases s.len(),
{
    if s.len() == 0 {
        0
    } else {
        digits_value(s.drop_last()) * 10 + digit_value(s.last())
    }
}

/// The digit at position `i` of a fraction, 0 past its end.
pub open spec fn fraction_digit(frac: Seq<char>, i: int) -> nat {
    if 0 <= i < frac.len() {
        digit_value(frac[i])
    } else {
        0
    }
}

/// The thousandths that the digits after a decimal point write: the first
/// three count, later ones are cut off.
pub open spec fn fraction_millis(frac: Seq<char>) -> nat {
    fraction_digit(frac, 0) * 100 + fraction_digit(frac, 1) * 10 + fraction_digit(frac, 2)
}

/// The largest whole part that a field may have.
pub open spec fn max_whole() -> nat {
    0xFFFF_FFFF
}

/// Whether `whole` and `frac` are the two sides of a decimal number: digits
/// only, at least one digit in all, and a whole part within `max_whole()`.
pub open spec fn is_decimal(whole: Seq<char>, frac: Seq<char>) -> bool {
    all_digits(whole) && all_digits(frac) && whole.len() + frac.len() > 0 && digits_value(whole)
        <= max_whole()
}

/// The value of one field in thousandths. A field is a decimal number with an
/// optional fraction after a `.`; a field that is none counts as 0.
pub open spec fn field_millis(field: Seq<char>) -> nat {
    let sides = split_on(field, '.');
    if sides.len() == 1 && is_decimal(sides[0], Seq::<char>::empty()) {
        digits_value(sides[0]) * 1000
    } else if sides.len() == 2 && is_decimal(sides[0], sides[1]) {
        digits_value(sides[0]) * 1000 + fraction_millis(sides[1])
    } else {
        0
    }
}

/// The time in milliseconds that `text` writes: minutes and seconds where it
/// has two fields between colons, hours, minutes and seconds where it has
/// three, and 0 for any other number of fields.
pub open spec fn timestamp_millis(text: Seq<char>) -> nat {
    let fields = split_on(text, ':');
    if fields.len() == 2 {
        field_millis(fields[0]) * 60 + field_millis(fields[1])
    } else if fields.len() == 3 {
        field_millis(fields[0]) * 3600 + field_millis(fields[1]) * 60 + field_millis(fields[2])
    } else {
        0
    }
}

/// No timestamp decodes to more than this.
pub open spec fn max_millis() -> nat {
    4_294_967_295_999 * 3661
}

/// The character for a digit below ten.
pub open spec fn digit_char(d: nat) -> char {
    ('0' as u32 + d) as char
}

/// `n` in base ten, without leading zeros.
pub open spec fn decimal(n: nat) -> Seq<char>
    decreases n,
{
    if n < 10 {
        seq![digit_char(n)]
    } else {
        decimal(n / 10).push(digit_char(n % 10))
    }
}

/// `n` in base ten, with zeros in front up to `width` characters. A number
/// that needs more than `width` digits is written in full.
pub open spec fn padded(n: nat, width: nat) -> Seq<char> {
    let digits = decimal(n);
    if digits.len() >= width {
        digits
    } else {
        Seq::new((width - digits.len()) as nat, |i: int| '0') + digits
    }
}

/// The bracketed form `[MM:SS]`: whole minutes, which do not roll over into
/// hours, and the whole seconds within the minute.
pub open spec fn bracket_text(millis: nat) -> Seq<char> {
    seq!['['] + padded(millis / 60_000, 2) + seq![':'] + padded((millis / 1000) % 60, 2) + seq![
        ']',
    ]
}

/// The subtitle form `HH:MM:SS,mmm`.
pub open spec fn srt_text(millis: nat) -> Seq<char> {
    padded(millis / 3_600_000, 2) + seq![':'] + padded((millis % 3_600_000) / 60_000, 2) + seq![
        ':',
    ] + padded((millis / 1000) % 60, 2) + seq![','] + padded(millis % 1000, 3)
}

/// The shape `[M..M:SS]`: brackets around at least two digits of minutes, a
/// colon, and exactly two digits of seconds.
pub open spec fn is_bracket_stamp(s: Seq<char>) -> bool {
    let n = s.len() as int;
    &&& n >= 7
    &&& s[0] == '['
    &&& all_digits(s.subrange(1, n - 4))
    &&& s[n - 4] == ':'
    &&& all_digits(s.subrange(n - 3, n - 1))
    &&& s[n - 1] == ']'
}

/// A number is written with digits only; below ten with one, below a hundred
/// with at most two, below a thousand with at most three.
pub proof fn lemma_decimal_shape(n: nat)
    ensures
        all_digits(decimal(n)),
        decimal(n).len() >= 1,
        n < 10 ==> decimal(n).len() == 1,
        10 <= n < 100 ==> decimal(n).len() == 2,
        100 <= n < 1000 ==> decimal(n).len() == 3,
    decreases n,
{
    if n >= 10 {
        lemma_decimal_shape(n / 10);
    }
}

/// A padded number is written with digits only and is at least as wide as
/// asked; it is exactly that wide where the number fits.
pub proof fn lemma_padded_shape(n: nat, width: nat)
    ensures
        all_digits(padded(n, width)),
        padded(n, width).len() >= width,
        padded(n, width).len() == if decimal(n).len() >= width {
            decimal(n).len()
        } else {
            width
        },
{
    lemma_decimal_shape(n);
}

/// Every bracketed time has the shape `[M..M:SS]`.
pub proof fn lemma_bracket_shape(millis: nat)
    ensures
        is_bracket_stamp(bracket_text(millis)),
{
    let minutes = padded(millis / 60_000, 2);
    let seconds = padded((millis / 1000) % 60, 2);
    lemma_padded_shape(millis / 60_000, 2);
    lemma_padded_shape((millis / 1000) % 60, 2);
    lemma_decimal_shape((millis / 1000) % 60);
    let s = bracket_text(millis);
    let n = s.len() as int;
    assert(seconds.len() == 2);
    assert(n == minutes.len() + 5);
    assert(s.subrange(1, n - 4) == minutes);
    assert(s.subrange(n - 3, n - 1) == seconds);
}

/// A prefix of a run of digits writes no larger a number than the whole run.
proof fn lemma_digits_value_prefix(s: Seq<char>, k: int)
    requires
        0 <= k <= s.len(),
    ensures
        digits_value(s.take(k)) <= digits_value(s),
    decreases s.len(),
{
    if k == s.len() {
        assert(s.take(k) == s);
    } else {
        lemma_digits_value_prefix(s.drop_last(), k);
        assert(s.drop_last().take(k) == s.take(k));
    }
}

/// A field is at most `max_whole()` and 999 thousandths.
pub proof fn lemma_field_bound(field: Seq<char>)
    ensures
        field_millis(field) <= 4_294_967_295_999,
{
}

/// Every timestamp decodes to at most `max_millis()`.
pub proof fn lemma_timestamp_bound(text: Seq<char>)
    ensures
        timestamp_millis(text) <= max_millis(),
{
    let fields = split_on(text, ':');
    if fields.len() == 2 {
        lemma_field_bound(fields[0]);
        lemma_field_bound(fields[1]);
    } else if fields.len() == 3 {
        lemma_field_bound(fields[0]);
        lemma_field_bound(fields[1]);
        lemma_field_bound(fields[2]);
    }
}

/// The number that `s` writes, where `s` is all digits and the number is
/// within `max_whole()`.
fn parse_digits(s: &Vec<char>) -> (r: Option<u64>)
    ensures
        match r {
            Some(v) => all_digits(s@) && v == digits_value(s@) && v <= max_whole(),
            None => !all_digits(s@) || digits_value(s@) > max_whole(),
        },
{
    let mut acc: u64 = 0;
    let mut i: usize = 0;
    assert(s@.take(0) == Seq::<char>::empty());
    while i < s.len()
        invariant
            i <= s.len(),
            all_digits(s@.take(i as int)),
            acc == digits_value(s@.take(i as int)),
            acc <= max_whole(),
        decreases s.len() - i,
    {
        let c = s[i];
        if !('0' <= c && c <= '9') {
            return None;
        }
        assert(s@.take(i + 1).drop_last() == s@.take(i as int));
        acc = acc * 10 + (c as u32 - '0' as u32) as u64;
        if acc > 0xFFFF_FFFF {
            proof {
                lemma_digits_value_prefix(s@, i + 1);
            }
            return None;
        }
        i += 1;
    }
    assert(s@.take(s.len() as int) == s@);
    Some(acc)
}

/// The digit at position `i` of a fraction, 0 past its end.
fn digit_at(frac: &Vec<char>, i: usize) -> (d: u64)
    requires
        all_digits(frac@),
    ensures
        d == fraction_digit(frac@, i as int),
        d <= 9,
{
    if i < frac.len() {
        (frac[i] as u32 - '0' as u32) as u64
    } else {
        0
    }
}

/// The value of one field in thousandths, 0 where it is no decimal number.
fn parse_field(field: &Vec<char>) -> (r: u64)
    ensures
        r == field_millis(field@),
        r <= 4_294_967_295_999,
{
    let sides = split(field, '.');
    if sides.len() == 0 || sides.len() > 2 {
        return 0;
    }
    let empty: Vec<char> = Vec::new();
    let frac = if sides.len() == 2 {
        &sides[1]
    } else {
        &empty
    };
    if sides[0].len() == 0 && frac.len() == 0 {
        return 0;
    }
    let whole = match parse_digits(&sides[0]) {
        Some(w) => w,
        None => {
            return 0;
        },
    };
    if parse_digits_only(frac) {
        whole * 1000 + digit_at(frac, 0) * 100 + digit_at(frac, 1) * 10 + digit_at(frac, 2)
    } else {
        0
    }
}

/// Whether every character is an ASCII decimal digit.
fn parse_digits_only(s: &Vec<char>) -> (r: bool)
    ensures
        r == all_digits(s@),
{
    let mut i: usize = 0;
    while i < s.len()
        invariant
            i <= s.len(),
            forall|j: int| 0 <= j < i ==> is_digit(#[trigger] s@[j]),
        decreases s.len() - i,
    {
        let c = s[i];
        if !('0' <= c && c <= '9') {
            return false;
        }
        i += 1;
    }
    true
}

/// Decodes a timestamp to milliseconds.
///
/// Two fields between colons are minutes and seconds, three are hours,
/// minutes and seconds. Each field is a decimal number whose fraction counts
/// to the millisecond. A field that is no such number counts as 0, and so
/// does the whole text where it has any other number of fields.
pub fn parse_vtt_timestamp(ts: &str) -> (millis: u64)
    ensures
        millis == timestamp_millis(ts@),
{
    let fields = split(&chars_of(ts), ':');
    if fields.len() == 2 {
        parse_field(&fields[0]) * 60 + parse_field(&fields[1])
    } else if fields.len() == 3 {
        parse_field(&fields[0]) * 3600 + parse_field(&fields[1]) * 60 + parse_field(&fields[2])
    } else {
        0
    }
}

/// The digits of `n` in base ten.
pub(crate) fn decimal_digits(n: u64) -> (out: Vec<char>)
    ensures
        out@ == decimal(n as nat),
    decreases n,
{
    if n < 10 {
        let mut out: Vec<char> = Vec::new();
        out.push((48 + n as u8) as char);
        out
    } else {
        let mut out = decimal_digits(n / 10);
        out.push((48 + (n % 10) as u8) as char);
        out
    }
}

/// Appends `n` in base ten, zero-padded to `width` characters.
fn push_padded(out: &mut Vec<char>, n: u64, width: usize)
    ensures
        final(out)@ == old(out)@ + padded(n as nat, width as nat),
{
    let digits = decimal_digits(n);
    let ghost start = out@;
    let mut k: usize = digits.len();
    assert(out@ =~= start + Seq::new(0, |i: int| '0'));
    while k < width
        invariant
            digits.len() <= k,
            k <= width || k == digits.len(),
            out@ == start + Seq::new((k - digits.len()) as nat, |i: int| '0'),
        decreases width - k,
    {
        out.push('0');
        assert(out@ =~= start + Seq::new((k + 1 - digits.len()) as nat, |i: int| '0'));
        k += 1;
    }
    let ghost zeros = Seq::new((k - digits.len()) as nat, |i: int| '0');
    append_chars(out, &digits);
    assert(out@ =~= start + (zeros + digits@));
    assert(zeros + digits@ =~= padded(n as nat, width as nat));
}

/// The characters of the bracketed form.
pub(crate) fn bracket_chars(millis: u64) -> (buf: Vec<char>)
    ensures
        buf@ == bracket_text(millis as nat),
{
    let mut buf: Vec<char> = Vec::new();
    buf.push('[');
    push_padded(&mut buf, millis / 60_000, 2);
    buf.push(':');
    push_padded(&mut buf, (millis / 1000) % 60, 2);
    buf.push(']');
    buf
}

/// The characters of the subtitle form.
pub(crate) fn srt_chars(millis: u64) -> (buf: Vec<char>)
    ensures
        buf@ == srt_text(millis as nat),
{
    let mut buf: Vec<char> = Vec::new();
    push_padded(&mut buf, millis / 3_600_000, 2);
    buf.push(':');
    push_padded(&mut buf, (millis % 3_600_000) / 60_000, 2);
    buf.push(':');
    push_padded(&mut buf, (millis / 1000) % 60, 2);
    buf.push(',');
    push_padded(&mut buf, millis % 1000, 3);
    buf
}

/// Writes a time as `[MM:SS]`: whole minutes, not rolled over into hours, and
/// the whole seconds within the minute, each with at least two digits.
pub fn format_timestamp_bracket(millis: u64) -> (out: String)
    ensures
        out@ == bracket_text(millis as nat),
{
    string_of(&bracket_chars(millis))
}

/// Writes a time as `HH:MM:SS,mmm`: hours, minutes and seconds with at least
/// two digits each, a comma, and the milliseconds with three.
pub fn format_timestamp_srt(millis: u64) -> (out: String)
    ensures
        out@ == srt_text(millis as nat),
{
    string_of(&srt_chars(millis))
}

} // verus!
