use crate::decimal::{
    all_digits, decimal, digit_value, digits_value, is_decimal_digit, is_digit,
    lemma_decimal_round_trip, lemma_digit_round_trip, lemma_digits_have_no_point,
    lemma_digits_value_concat, lemma_digits_value_prefix, lemma_digits_value_push,
    lemma_pow10_positive, pow10,
};
use crate::error::VolumeQueryError;
use crate::volume::{padded, volume_text, Volume};
use vstd::prelude::*;

verus! {

/// Number of characters that precede the number in a reply to a volume
/// query.
pub const REPLY_PREFIX: usize = 8;

/// `c` is white space: a character with the Unicode property `White_Space`.
pub open spec fn is_whitespace(c: char) -> bool {
    ||| '\u{9}' <= c <= '\u{d}'
    ||| c == ' '
    ||| c == '\u{85}'
    ||| c == '\u{a0}'
    ||| c == '\u{1680}'
    ||| '\u{2000}' <= c <= '\u{200a}'
    ||| c == '\u{2028}'
    ||| c == '\u{2029}'
    ||| c == '\u{202f}'
    ||| c == '\u{205f}'
    ||| c == '\u{3000}'
}

/// `text` without the white space at its start.
pub open spec fn trim_start(text: Seq<char>) -> Seq<char>
    decreases text.len(),
{
    if text.len() > 0 && is_whitespace(text[0]) {
        trim_start(text.drop_first())
    } else {
        text
    }
}

/// `text` without the white space at its end.
pub open spec fn trim_end(text: Seq<char>) -> Seq<char>
    decreases text.len(),
{
    if text.len() > 0 && is_whitespace(text.last()) {
        trim_end(text.drop_last())
    } else {
        text
    }
}

/// `text` without the white space at either end.
pub open spec fn trimmed(text: Seq<char>) -> Seq<char> {
    trim_end(trim_start(text))
}

/// Position of the first decimal point in `text`, or the length of `text`
/// if it has none.
pub open spec fn first_point(text: Seq<char>) -> int
    decreases text.len(),
{
    if text.len() == 0 || text[0] == '.' {
        0
    } else {
        1 + first_point(text.drop_first())
    }
}

/// The digits before the first decimal point of `text`.
pub open spec fn whole_part(text: Seq<char>) -> Seq<char> {
    text.take(first_point(text))
}

/// What follows the first decimal point of `text`; empty without a point.
pub open spec fn fraction_part(text: Seq<char>) -> Seq<char> {
    if first_point(text) < text.len() {
        text.skip(first_point(text) + 1)
    } else {
        Seq::empty()
    }
}

/// `text` is an unsigned decimal number: digits, with at most one decimal
/// point among or beside them, and at least one digit.
pub open spec fn is_decimal_number(text: Seq<char>) -> bool {
    &&& all_digits(whole_part(text))
    &&& all_digits(fraction_part(text))
    &&& whole_part(text).len() + fraction_part(text).len() > 0
}

/// The volume that `text` writes, if it is a decimal number that a
/// [`Volume`] can hold.
pub open spec fn volume_of_text(text: Seq<char>) -> Result<Volume, VolumeQueryError> {
    let mantissa = digits_value(whole_part(text) + fraction_part(text));
    let scale = fraction_part(text).len();
    if !is_decimal_number(text) {
        Err(VolumeQueryError::Malformed)
    } else if mantissa > u64::MAX || scale > u32::MAX {
        Err(VolumeQueryError::TooPrecise)
    } else {
        Ok(Volume { mantissa: mantissa as u64, scale: scale as u32 })
    }
}

/// The volume that a reply to a volume query reports: the decimal number
/// that stands after the first eight characters, white space around it set
/// aside.
pub open spec fn volume_of_reply(reply: Seq<char>) -> Result<Volume, VolumeQueryError> {
    if reply.len() < REPLY_PREFIX {
        Err(VolumeQueryError::ShortReply)
    } else {
        volume_of_text(trimmed(reply.skip(REPLY_PREFIX as int)))
    }
}

proof fn lemma_first_point(text: Seq<char>, p: int)
    requires
        0 <= p <= text.len(),
        forall|i: int| 0 <= i < p ==> text[i] != '.',
        p < text.len() ==> text[p] == '.',
    ensures
        first_point(text) == p,
    decreases text.len(),
{
    if p > 0 {
        lemma_first_point(text.drop_first(), p - 1);
    }
}

proof fn lemma_padded_value(x: nat, width: nat)
    ensures
        padded(x, width).len() == width,
        all_digits(padded(x, width)),
        digits_value(padded(x, width)) == x % pow10(width),
    decreases width,
{
    if width > 0 {
        let rest = (width - 1) as nat;
        lemma_padded_value(x / 10, rest);
        lemma_digit_round_trip(x % 10);
        lemma_pow10_positive(rest);
        let text = padded(x, width);
        assert(text.drop_last() =~= padded(x / 10, rest));
        vstd::arithmetic::div_mod::lemma_mod_breakdown(x as int, 10, pow10(rest) as int);
    }
}

/// Whether `c` is white space.
pub fn is_space(c: char) -> (yes: bool)
    ensures
        yes == is_whitespace(c),
{
    ('\u{9}' <= c && c <= '\u{d}') || c == ' ' || c == '\u{85}' || c == '\u{a0}' || c
        == '\u{1680}' || ('\u{2000}' <= c && c <= '\u{200a}') || c == '\u{2028}' || c
        == '\u{2029}' || c == '\u{202f}' || c == '\u{205f}' || c == '\u{3000}'
}

fn digit_of(c: char) -> (d: u64)
    requires
        is_digit(c),
    ensures
        d == digit_value(c),
        d < 10,
{
    (c as u32 - '0' as u32) as u64
}

fn chars_of(text: &str) -> (chars: Vec<char>)
    ensures
        chars@ == text@,
{
    let mut chars: Vec<char> = Vec::new();
    for c in it: text.chars()
        invariant
            it.seq() == text@,
            chars@ == it.seq().take(it.index() as int),
    {
        chars.push(c);
    }
    chars
}

/// Adds the digits `chars[from..to]` to the number read so far.
fn read_digits(
    chars: &Vec<char>,
    from: usize,
    to: usize,
    before: Ghost<Seq<char>>,
    value: u64,
) -> (total: Option<u64>)
    requires
        from <= to <= chars@.len(),
        all_digits(chars@.subrange(from as int, to as int)),
        value == digits_value(before@),
    ensures
        match total {
            Some(v) => v == digits_value(before@ + chars@.subrange(from as int, to as int)),
            None => digits_value(before@ + chars@.subrange(from as int, to as int)) > u64::MAX,
        },
{
    let ghost run = chars@.subrange(from as int, to as int);
    let mut acc: u64 = value;
    let mut i: usize = from;
    assert(before@ + run.take(0) =~= before@);
    while i < to
        invariant
            from <= i <= to <= chars@.len(),
            run == chars@.subrange(from as int, to as int),
            all_digits(run),
            acc == digits_value(before@ + run.take(i - from)),
        decreases to - i,
    {
        let c: char = chars[i];
        assert(c == run[i - from]);
        let d: u64 = digit_of(c);
        proof {
            lemma_digits_value_push(before@ + run.take(i - from), c);
            assert((before@ + run.take(i - from)).push(c) =~= before@ + run.take(i - from + 1));
        }
        if acc > (u64::MAX - d) / 10 {
            proof {
                let all = before@ + run;
                let k = before@.len() + (i - from + 1);
                lemma_digits_value_prefix(all, k);
                assert(all.take(k) =~= before@ + run.take(i - from + 1));
            }
            return None;
        }
        acc = acc * 10 + d;
        i = i + 1;
    }
    assert(run.take(to - from) =~= run);
    Some(acc)
}

fn digits_only(chars: &Vec<char>, from: usize, to: usize) -> (yes: bool)
    requires
        from <= to <= chars@.len(),
    ensures
        yes == all_digits(chars@.subrange(from as int, to as int)),
{
    let ghost run = chars@.subrange(from as int, to as int);
    let mut i: usize = from;
    while i < to
        invariant
            from <= i <= to <= chars@.len(),
            run == chars@.subrange(from as int, to as int),
            forall|k: int| 0 <= k < i - from ==> is_digit(#[trigger] run[k]),
        decreases to - i,
    {
        if !is_decimal_digit(chars[i]) {
            assert(!is_digit(run[i - from]));
            return false;
        }
        i = i + 1;
    }
    true
}

/// Reads the decimal number that `chars[start..end]` writes.
fn parse_span(chars: &Vec<char>, start: usize, end: usize) -> (result: Result<
    Volume,
    VolumeQueryError,
>)
    requires
        start <= end <= chars@.len(),
    ensures
        result == volume_of_text(chars@.subrange(start as int, end as int)),
{
    let ghost text = chars@.subrange(start as int, end as int);
    let mut point: usize = start;
    while point < end && chars[point] != '.'
        invariant
            start <= point <= end <= chars@.len(),
            text == chars@.subrange(start as int, end as int),
            forall|k: int| 0 <= k < point - start ==> text[k] != '.',
        decreases end - point,
    {
        point = point + 1;
    }
    let after: usize = if point < end {
        point + 1
    } else {
        end
    };
    proof {
        lemma_first_point(text, point - start);
        assert(whole_part(text) =~= chars@.subrange(start as int, point as int));
        assert(fraction_part(text) =~= chars@.subrange(after as int, end as int));
    }
    if !digits_only(chars, start, point) || !digits_only(chars, after, end) {
        return Err(VolumeQueryError::Malformed);
    }
    if point == start && after == end {
        return Err(VolumeQueryError::Malformed);
    }
    let ghost whole = whole_part(text);
    let ghost fraction = fraction_part(text);
    assert(Seq::<char>::empty() + whole =~= whole);
    let whole_value: u64 = match read_digits(chars, start, point, Ghost(Seq::empty()), 0) {
        Some(v) => v,
        None => {
            proof {
                lemma_digits_value_prefix(whole + fraction, whole.len() as int);
                assert((whole + fraction).take(whole.len() as int) =~= whole);
            }
            return Err(VolumeQueryError::TooPrecise);
        },
    };
    let mantissa: u64 = match read_digits(chars, after, end, Ghost(whole), whole_value) {
        Some(v) => v,
        None => {
            return Err(VolumeQueryError::TooPrecise);
        },
    };
    let places: usize = end - after;
    if places > u32::MAX as usize {
        return Err(VolumeQueryError::TooPrecise);
    }
    Ok(Volume { mantissa, scale: places as u32 })
}

/// Reads a volume written as an unsigned decimal number, such as `0.30`.
pub fn parse_volume(text: &str) -> (result: Result<Volume, VolumeQueryError>)
    ensures
        result == volume_of_text(text@),
{
    let chars: Vec<char> = chars_of(text);
    assert(chars@.subrange(0, chars@.len() as int) =~= chars@);
    parse_span(&chars, 0, chars.len())
}

/// Reads the volume out of the reply to a volume query.
///
/// The first eight characters are skipped unread; what follows them, white
/// space at either end set aside, must be an unsigned decimal number.
pub fn parse_volume_reply(reply: &str) -> (result: Result<Volume, VolumeQueryError>)
    ensures
        result == volume_of_reply(reply@),
{
    let chars: Vec<char> = chars_of(reply);
    let len: usize = chars.len();
    if len < REPLY_PREFIX {
        return Err(VolumeQueryError::ShortReply);
    }
    let ghost rest = chars@.skip(REPLY_PREFIX as int);
    let mut start: usize = REPLY_PREFIX;
    assert(chars@.subrange(start as int, len as int) =~= rest);
    while start < len && is_space(chars[start])
        invariant
            REPLY_PREFIX <= start <= len,
            len == chars@.len(),
            trim_start(rest) == trim_start(chars@.subrange(start as int, len as int)),
        decreases len - start,
    {
        assert(chars@.subrange(start as int, len as int).drop_first() =~= chars@.subrange(
            start + 1,
            len as int,
        ));
        start = start + 1;
    }
    let ghost head = chars@.subrange(start as int, len as int);
    assert(trim_start(rest) == head);
    let mut end: usize = len;
    while end > start && is_space(chars[end - 1])
        invariant
            start <= end <= len,
            len == chars@.len(),
            trim_end(head) == trim_end(chars@.subrange(start as int, end as int)),
            head == chars@.subrange(start as int, len as int),
        decreases end - start,
    {
        assert(chars@.subrange(start as int, end as int).drop_last() =~= chars@.subrange(
            start as int,
            end - 1,
        ));
        end = end - 1;
    }
    assert(trimmed(rest) == chars@.subrange(start as int, end as int));
    parse_span(&chars, start, end)
}

/// Reading back what `to_text` writes gives the same volume, digit for
/// digit.
pub proof fn lemma_text_round_trip(volume: Volume)
    ensures
        volume_of_text(volume_text(volume)) == Ok::<Volume, VolumeQueryError>(volume),
{
    let m = volume.mantissa as nat;
    let text = volume_text(volume);
    if volume.scale == 0 {
        lemma_decimal_round_trip(m);
        lemma_digits_have_no_point(text);
        lemma_first_point(text, text.len() as int);
        assert(whole_part(text) =~= text);
        assert(whole_part(text) + fraction_part(text) =~= text);
    } else {
        let scale = volume.scale as nat;
        let unit = pow10(scale);
        lemma_pow10_positive(scale);
        let whole = decimal(m / unit);
        let fraction = padded(m % unit, scale);
        lemma_decimal_round_trip(m / unit);
        lemma_padded_value(m % unit, scale);
        lemma_digits_have_no_point(whole);
        lemma_first_point(text, whole.len() as int);
        assert(whole_part(text) =~= whole);
        assert(fraction_part(text) =~= fraction);
        lemma_digits_value_concat(whole, fraction);
        vstd::arithmetic::div_mod::lemma_fundamental_div_mod(m as int, unit as int);
        vstd::arithmetic::div_mod::lemma_mod_twice(m as int, unit as int);
        assert((m / unit) * unit == unit * (m / unit)) by (nonlinear_arith);
    }
}

} // verus!
