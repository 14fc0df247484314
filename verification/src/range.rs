//! Parsing and formatting of a single HTTP byte range.

use vstd::prelude::*;
use vstd::utf8::{encode_utf8, is_ascii_chars, is_ascii_chars_encode_utf8};
use crate::text::{
    all_digits, chars_of, contains_char, decimal_string, decimal_value, is_digit, push_decimal,
    push_str_chars, split_once, split_once_chars, string_from_chars, lemma_decimal_round_trip,
    lemma_decimal_string_shape, lemma_split_once_at_boundary,
};

verus! {

/// Largest Range header value, in bytes, that the parser accepts.
pub const MAX_RANGE_HEADER_BYTES: usize = 128;

/// One byte range of a `Range: bytes=...` header.
#[derive(Debug, Clone, Copy, PartialEq, Eq)]
pub enum ByteRange {
    Closed { start: u64, end: u64 },
    OpenEnded { start: u64 },
    Suffix { length: u64 },
}

/// Why a Range header value was refused.
#[derive(Debug, Clone, Copy, PartialEq, Eq)]
pub enum RangeParseError {
    Empty,
    TooLong,
    UnsupportedUnit,
    MultipleRanges,
    InvalidSyntax,
    NonDigit,
    Overflow,
    Reversed,
    ZeroSuffix,
}

/// The unit name `bytes`.
pub open spec fn bytes_unit() -> Seq<char> {
    seq!['b', 'y', 't', 'e', 's']
}

/// What a range position (a run of ASCII digits) denotes.
pub open spec fn spec_parse_position(s: Seq<char>) -> Result<u64, RangeParseError> {
    if !all_digits(s) {
        Err(RangeParseError::NonDigit)
    } else if s.len() == 0 || decimal_value(s) > u64::MAX {
        Err(RangeParseError::Overflow)
    } else {
        Ok(decimal_value(s) as u64)
    }
}

/// The start and end halves of a range spec, once split at its first `-`.
pub open spec fn spec_parse_bounds(start: Seq<char>, end: Seq<char>) -> Result<ByteRange, RangeParseError> {
    if start.len() == 0 && end.len() == 0 {
        Err(RangeParseError::Empty)
    } else if start.len() == 0 {
        match spec_parse_position(end) {
            Err(e) => Err(e),
            Ok(length) => if length == 0 {
                Err(RangeParseError::ZeroSuffix)
            } else {
                Ok(ByteRange::Suffix { length })
            },
        }
    } else {
        match spec_parse_position(start) {
            Err(e) => Err(e),
            Ok(first) => if end.len() == 0 {
                Ok(ByteRange::OpenEnded { start: first })
            } else {
                match spec_parse_position(end) {
                    Err(e) => Err(e),
                    Ok(last) => if last < first {
                        Err(RangeParseError::Reversed)
                    } else {
                        Ok(ByteRange::Closed { start: first, end: last })
                    },
                }
            },
        }
    }
}

/// The part after `bytes=`.
pub open spec fn spec_parse_range_spec(range: Seq<char>) -> Result<ByteRange, RangeParseError> {
    if range.len() == 0 {
        Err(RangeParseError::Empty)
    } else if range.contains(',') {
        Err(RangeParseError::MultipleRanges)
    } else {
        match split_once(range, '-') {
            None => Err(RangeParseError::InvalidSyntax),
            Some((start, end)) => spec_parse_bounds(start, end),
        }
    }
}

/// What `parse_single_range` gives for the header value `s`.
pub open spec fn spec_parse_range(s: Seq<char>) -> Result<ByteRange, RangeParseError> {
    if s.len() == 0 {
        Err(RangeParseError::Empty)
    } else if encode_utf8(s).len() as usize > MAX_RANGE_HEADER_BYTES {
        Err(RangeParseError::TooLong)
    } else {
        match split_once(s, '=') {
            None => Err(RangeParseError::InvalidSyntax),
            Some((unit, range)) => if unit != bytes_unit() {
                Err(RangeParseError::UnsupportedUnit)
            } else {
                spec_parse_range_spec(range)
            },
        }
    }
}

impl ByteRange {
    /// A range that a header can carry: a closed range does not end before it starts and a
    /// suffix is not empty.
    pub open spec fn well_formed(self) -> bool {
        match self {
            ByteRange::Closed { start, end } => start <= end,
            ByteRange::OpenEnded { .. } => true,
            ByteRange::Suffix { length } => length > 0,
        }
    }

    /// The header text `bytes=...` for this range.
    pub open spec fn spec_header(self) -> Seq<char> {
        match self {
            ByteRange::Closed { start, end } => bytes_unit().push('=') + decimal_string(
                start as nat,
            ).push('-') + decimal_string(end as nat),
            ByteRange::OpenEnded { start } => bytes_unit().push('=') + decimal_string(
                start as nat,
            ).push('-'),
            ByteRange::Suffix { length } => bytes_unit().push('=').push('-') + decimal_string(
                length as nat,
            ),
        }
    }

    /// The header text of the range: `bytes=S-E`, `bytes=S-` or `bytes=-L`.
    pub fn to_string(&self) -> (s: String)
        ensures
            s@ == self.spec_header(),
    {
        let mut out: Vec<char> = Vec::new();
        push_str_chars(&mut out, "bytes=");
        proof {
            reveal_strlit("bytes=");
        }
        assert(out@ == bytes_unit().push('='));
        match self {
            ByteRange::Closed { start, end } => {
                push_decimal(&mut out, *start);
                out.push('-');
                push_decimal(&mut out, *end);
            },
            ByteRange::OpenEnded { start } => {
                push_decimal(&mut out, *start);
                out.push('-');
            },
            ByteRange::Suffix { length } => {
                out.push('-');
                push_decimal(&mut out, *length);
            },
        }
        string_from_chars(&out)
    }
}

/// Reads a range position: ASCII digits only, and a value that fits in 64 bits.
pub fn parse_position(value: &Vec<char>) -> (r: Result<u64, RangeParseError>)
    ensures
        r == spec_parse_position(value@),
{
    let mut i: usize = 0;
    while i < value.len()
        invariant
            i <= value.len(),
            forall|j: int| 0 <= j < i ==> is_digit(value@[j]),
        decreases value.len() - i,
    {
        if !('0' <= value[i] && value[i] <= '9') {
            return Err(RangeParseError::NonDigit);
        }
        i = i + 1;
    }
    if value.len() == 0 {
        return Err(RangeParseError::Overflow);
    }
    let mut acc: u64 = 0;
    let mut k: usize = 0;
    while k < value.len()
        invariant
            k <= value.len(),
            all_digits(value@),
            acc as nat == decimal_value(value@.take(k as int)),
        decreases value.len() - k,
    {
        let d: u64 = ((value[k] as u32) - 48) as u64;
        proof {
            let p = value@.take(k + 1);
            assert(p.drop_last() == value@.take(k as int));
            assert(p.last() == value@[k as int]);
        }
        if acc > 1844674407370955161u64 || (acc == 1844674407370955161u64 && d > 5) {
            proof {
                lemma_decimal_prefix_le(value@, k + 1);
                assert(value@.take(value@.len() as int) == value@);
            }
            return Err(RangeParseError::Overflow);
        }
        acc = acc * 10 + d;
        k = k + 1;
    }
    assert(value@.take(value@.len() as int) == value@);
    Ok(acc)
}

/// A prefix of a digit string never denotes more than the whole string.
pub proof fn lemma_decimal_prefix_le(s: Seq<char>, k: int)
    requires
        0 <= k <= s.len(),
    ensures
        decimal_value(s.take(k)) <= decimal_value(s),
    decreases s.len() - k,
{
    if k < s.len() {
        lemma_decimal_prefix_le(s, k + 1);
        let p = s.take(k + 1);
        assert(p.drop_last() == s.take(k));
    } else {
        assert(s.take(k) == s);
    }
}

/// Parses one `Range` header value.
///
/// The value must be `bytes=` followed by exactly one range: `S-E` with `S <= E`, `S-`, or `-L`
/// with `L > 0`. Positions are ASCII digits that fit in 64 bits. Values longer than
/// `MAX_RANGE_HEADER_BYTES` bytes are refused before anything else is read.
pub fn parse_single_range(value: &str) -> (r: Result<ByteRange, RangeParseError>)
    ensures
        r == spec_parse_range(value@),
        r is Ok ==> r->Ok_0.well_formed(),
{
    let chars = chars_of(value);
    if chars.len() == 0 {
        return Err(RangeParseError::Empty);
    }
    if value.len() > MAX_RANGE_HEADER_BYTES {
        return Err(RangeParseError::TooLong);
    }
    let (unit, range) = match split_once_chars(&chars, '=') {
        Some(parts) => parts,
        None => return Err(RangeParseError::InvalidSyntax),
    };
    let is_bytes = unit.len() == 5 && unit[0] == 'b' && unit[1] == 'y' && unit[2] == 't'
        && unit[3] == 'e' && unit[4] == 's';
    assert(is_bytes == (unit@ == bytes_unit())) by {
        if unit@.len() == 5 {
            if unit@[0] == 'b' && unit@[1] == 'y' && unit@[2] == 't' && unit@[3] == 'e'
                && unit@[4] == 's' {
                assert(unit@ =~= bytes_unit());
            }
        }
    }
    if !is_bytes {
        return Err(RangeParseError::UnsupportedUnit);
    }
    if range.len() == 0 {
        return Err(RangeParseError::Empty);
    }
    if contains_char(&range, ',') {
        return Err(RangeParseError::MultipleRanges);
    }
    let (start, end) = match split_once_chars(&range, '-') {
        Some(parts) => parts,
        None => return Err(RangeParseError::InvalidSyntax),
    };
    if start.len() == 0 && end.len() == 0 {
        return Err(RangeParseError::Empty);
    }
    if start.len() == 0 {
        let length = parse_position(&end)?;
        if length == 0 {
            return Err(RangeParseError::ZeroSuffix);
        }
        return Ok(ByteRange::Suffix { length });
    }
    let first = parse_position(&start)?;
    if end.len() == 0 {
        return Ok(ByteRange::OpenEnded { start: first });
    }
    let last = parse_position(&end)?;
    if last < first {
        return Err(RangeParseError::Reversed);
    }
    Ok(ByteRange::Closed { start: first, end: last })
}

/// A position written in decimal reads back as itself.
pub proof fn lemma_position_round_trip(n: u64)
    ensures
        spec_parse_position(decimal_string(n as nat)) == Ok::<u64, RangeParseError>(n),
{
    lemma_decimal_string_shape(n as nat);
    lemma_decimal_round_trip(n as nat);
}

/// Digits are neither `=`, `-` nor `,`, and are ASCII.
proof fn lemma_digits_exclude(s: Seq<char>)
    requires
        all_digits(s),
    ensures
        !s.contains('='),
        !s.contains('-'),
        !s.contains(','),
        is_ascii_chars(s),
{
    assert forall|i: int| 0 <= i < s.len() implies is_digit(s[i]) by {}
}

/// Concatenating ASCII sequences gives an ASCII sequence.
proof fn lemma_ascii_concat(x: Seq<char>, y: Seq<char>)
    requires
        is_ascii_chars(x),
        is_ascii_chars(y),
    ensures
        is_ascii_chars(x + y),
{
    assert forall|i: int| 0 <= i < (x + y).len() implies '\0' <= #[trigger] (x + y)[i] <= '\u{7f}' by {
        if i < x.len() {
            assert((x + y)[i] == x[i]);
        } else {
            assert((x + y)[i] == y[i - x.len()]);
        }
    }
}

/// `bytes=` holds no `=` before its last character and is ASCII.
proof fn lemma_unit_facts()
    ensures
        !bytes_unit().contains('='),
        is_ascii_chars(bytes_unit().push('=')),
        is_ascii_chars(seq!['-']),
{
    let unit = bytes_unit();
    assert forall|i: int| 0 <= i < unit.len() implies unit[i] != '=' by {}
    assert forall|i: int| 0 <= i < unit.push('=').len() implies '\0' <= #[trigger] unit.push('=')[i] <= '\u{7f}' by {}
    assert forall|i: int| 0 <= i < seq!['-'].len() implies '\0' <= #[trigger] seq!['-'][i] <= '\u{7f}' by {}
}

/// The text after `bytes=` determines the whole parse once the header is short and ASCII.
proof fn lemma_parse_after_unit(rest: Seq<char>)
    requires
        is_ascii_chars(rest),
        rest.len() <= 41,
    ensures
        spec_parse_range(bytes_unit().push('=') + rest) == spec_parse_range_spec(rest),
{
    lemma_unit_facts();
    let unit = bytes_unit();
    let h = unit.push('=') + rest;
    assert(h =~= unit + (seq!['='] + rest));
    lemma_split_once_at_boundary(unit, seq!['='] + rest, '=');
    assert((seq!['='] + rest).drop_first() =~= rest);
    lemma_ascii_concat(unit.push('='), rest);
    is_ascii_chars_encode_utf8(h);
}

proof fn lemma_closed_round_trip(start: u64, end: u64)
    requires
        start <= end,
    ensures
        spec_parse_range(ByteRange::Closed { start, end }.spec_header()) == Ok::<ByteRange, RangeParseError>(ByteRange::Closed { start, end }),
{
    lemma_unit_facts();
    let a = decimal_string(start as nat);
    let b = decimal_string(end as nat);
    lemma_decimal_string_shape(start as nat);
    lemma_decimal_string_shape(end as nat);
    lemma_digits_exclude(a);
    lemma_digits_exclude(b);
    lemma_position_round_trip(start);
    lemma_position_round_trip(end);
    let rest = a + (seq!['-'] + b);
    assert(ByteRange::Closed { start, end }.spec_header() =~= bytes_unit().push('=') + rest);
    lemma_ascii_concat(seq!['-'], b);
    lemma_ascii_concat(a, seq!['-'] + b);
    lemma_parse_after_unit(rest);
    lemma_split_once_at_boundary(a, seq!['-'] + b, '-');
    assert((seq!['-'] + b).drop_first() =~= b);
    assert forall|i: int| 0 <= i < rest.len() implies rest[i] != ',' by {
        if i < a.len() {
            assert(rest[i] == a[i]);
        } else if i > a.len() {
            assert(rest[i] == b[i - a.len() - 1]);
        }
    }
}

proof fn lemma_open_round_trip(start: u64)
    ensures
        spec_parse_range(ByteRange::OpenEnded { start }.spec_header()) == Ok::<ByteRange, RangeParseError>(ByteRange::OpenEnded { start }),
{
    lemma_unit_facts();
    let a = decimal_string(start as nat);
    lemma_decimal_string_shape(start as nat);
    lemma_digits_exclude(a);
    lemma_position_round_trip(start);
    let rest = a + seq!['-'];
    assert(ByteRange::OpenEnded { start }.spec_header() =~= bytes_unit().push('=') + rest);
    lemma_ascii_concat(a, seq!['-']);
    lemma_parse_after_unit(rest);
    lemma_split_once_at_boundary(a, seq!['-'], '-');
    assert(seq!['-'].drop_first() =~= Seq::<char>::empty());
    assert forall|i: int| 0 <= i < rest.len() implies rest[i] != ',' by {
        if i < a.len() {
            assert(rest[i] == a[i]);
        }
    }
}

proof fn lemma_suffix_round_trip(length: u64)
    requires
        length > 0,
    ensures
        spec_parse_range(ByteRange::Suffix { length }.spec_header()) == Ok::<ByteRange, RangeParseError>(ByteRange::Suffix { length }),
{
    lemma_unit_facts();
    let b = decimal_string(length as nat);
    lemma_decimal_string_shape(length as nat);
    lemma_digits_exclude(b);
    lemma_position_round_trip(length);
    let rest = seq!['-'] + b;
    assert(ByteRange::Suffix { length }.spec_header() =~= bytes_unit().push('=') + rest);
    lemma_ascii_concat(seq!['-'], b);
    lemma_parse_after_unit(rest);
    assert(rest =~= Seq::<char>::empty() + rest);
    lemma_split_once_at_boundary(Seq::<char>::empty(), rest, '-');
    assert(rest.drop_first() =~= b);
    assert forall|i: int| 0 <= i < rest.len() implies rest[i] != ',' by {
        if i > 0 {
            assert(rest[i] == b[i - 1]);
        }
    }
}

/// Law: a well-formed range, written as header text, parses back to itself.
pub proof fn lemma_range_header_round_trip(r: ByteRange)
    requires
        r.well_formed(),
    ensures
        spec_parse_range(r.spec_header()) == Ok::<ByteRange, RangeParseError>(r),
{
    match r {
        ByteRange::Closed { start, end } => lemma_closed_round_trip(start, end),
        ByteRange::OpenEnded { start } => lemma_open_round_trip(start),
        ByteRange::Suffix { length } => lemma_suffix_round_trip(length),
    }
}

} // verus!
