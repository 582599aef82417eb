use vstd::prelude::*;
use vstd::string::StringExecFns;

use crate::classify::Field;
use crate::error::CodecError;

verus! {

/// The value of one hexadecimal digit, either case.
pub open spec fn hex_digit_value(c: char) -> int {
    if '0' <= c <= '9' {
        c as int - '0' as int
    } else if 'a' <= c <= 'f' {
        c as int - 'a' as int + 10
    } else if 'A' <= c <= 'F' {
        c as int - 'A' as int + 10
    } else {
        -1
    }
}

pub open spec fn is_hex_digit(c: char) -> bool {
    hex_digit_value(c) >= 0
}

/// Text made of pairs of hex digits.
pub open spec fn is_hex_text(s: Seq<char>) -> bool {
    &&& s.len() % 2 == 0
    &&& forall|i: int| 0 <= i < s.len() ==> is_hex_digit(#[trigger] s[i])
}

/// The bytes that hex text spells, two digits per byte, high digit first.
pub open spec fn hex_bytes(s: Seq<char>) -> Seq<u8> {
    Seq::new(
        s.len() / 2,
        |i: int| (hex_digit_value(s[2 * i]) * 16 + hex_digit_value(s[2 * i + 1])) as u8,
    )
}

/// The lower-case digit for a value below 16.
pub open spec fn lower_hex_digit(v: int) -> char {
    if v < 10 {
        ('0' as int + v) as char
    } else {
        ('a' as int + v - 10) as char
    }
}

/// Lower-case hex text of a byte string, two digits per byte.
pub open spec fn lower_hex_text(b: Seq<u8>) -> Seq<char> {
    Seq::new(
        2 * b.len(),
        |i: int|
            if i % 2 == 0 {
                lower_hex_digit(b[i / 2] as int / 16)
            } else {
                lower_hex_digit(b[i / 2] as int % 16)
            },
    )
}

/// A textual address or hash: `0x` followed by hex text.
pub open spec fn is_prefixed_hex(s: Seq<char>) -> bool {
    &&& s.len() >= 2
    &&& s[0] == '0'
    &&& s[1] == 'x'
    &&& is_hex_text(s.subrange(2, s.len() as int))
}

/// The bytes that a `0x`-prefixed text spells.
pub open spec fn prefixed_hex_bytes(s: Seq<char>) -> Seq<u8> {
    hex_bytes(s.subrange(2, s.len() as int))
}

#[verifier::external_type_specification]
#[verifier::external_body]
pub struct ExFromHexError(hex::FromHexError);

/// Relies on `hex::decode`: text of even length made only of hex digits
/// (either case) decodes to two digits per byte; anything else is an error.
#[verifier::external_body]
fn decode_hex(s: &str) -> (r: Result<Vec<u8>, hex::FromHexError>)
    ensures
        r is Ok <==> is_hex_text(s@),
        r is Ok ==> r->Ok_0@ == hex_bytes(s@),
{
    hex::decode(s)
}

/// Relies on `hex::encode`: two lower-case digits per byte.
#[verifier::external_body]
fn encode_hex(b: &[u8]) -> (r: String)
    ensures
        r@ == lower_hex_text(b@),
{
    hex::encode(b)
}

/// Strips the leading `0x` of an address or hash and decodes the hex digits
/// after it. `field` and `row` are reported in the error.
pub fn address_bytes(s: &str, field: Field, row: usize) -> (r: Result<Vec<u8>, CodecError>)
    ensures
        match r {
            Ok(b) => is_prefixed_hex(s@) && b@ == prefixed_hex_bytes(s@),
            Err(e) => !is_prefixed_hex(s@) && e == CodecError::InvalidEncoding { field, row },
        },
{
    let n = s.unicode_len();
    if n < 2 || s.get_char(0) != '0' || s.get_char(1) != 'x' {
        return Err(CodecError::InvalidEncoding { field, row });
    }
    let digits = s.substring_char(2, n);
    match decode_hex(digits) {
        Ok(b) => Ok(b),
        Err(_) => Err(CodecError::InvalidEncoding { field, row }),
    }
}

/// Decodes a whole column of `0x`-prefixed hex values into byte strings.
/// Fails at the first row that is not such a value.
pub fn address_column_bytes(column: &Vec<String>, field: Field) -> (r: Result<Vec<Vec<u8>>, CodecError>)
    ensures
        match r {
            Ok(out) => out.len() == column.len() && forall|k: int|
                0 <= k < column.len() ==> is_prefixed_hex(#[trigger] column@[k]@)
                    && out@[k]@ == prefixed_hex_bytes(column@[k]@),
            Err(e) => exists|row: int|
                0 <= row < column.len() && !is_prefixed_hex(#[trigger] column@[row]@) && (forall|
                    k: int,
                | 0 <= k < row ==> is_prefixed_hex(#[trigger] column@[k]@)) && e
                    == CodecError::InvalidEncoding { field, row: row as usize },
        },
{
    let mut out: Vec<Vec<u8>> = Vec::new();
    let mut k: usize = 0;
    while k < column.len()
        invariant
            k <= column.len(),
            out.len() == k,
            forall|j: int|
                0 <= j < k ==> is_prefixed_hex(#[trigger] column@[j]@) && out@[j]@
                    == prefixed_hex_bytes(column@[j]@),
        decreases column.len() - k,
    {
        match address_bytes(column[k].as_str(), field, k) {
            Ok(b) => out.push(b),
            Err(e) => {
                return Err(e);
            },
        }
        k = k + 1;
    }
    Ok(out)
}

/// The textual form of a byte string: `0x` and lower-case hex digits.
pub fn address_text(b: &Vec<u8>) -> (r: String)
    ensures
        r@ == seq!['0', 'x'] + lower_hex_text(b@),
{
    let mut out = String::from_str("0x");
    proof {
        reveal_strlit("0x");
    }
    let digits = encode_hex(b.as_slice());
    out.append(digits.as_str());
    assert(out@ =~= seq!['0', 'x'] + lower_hex_text(b@));
    out
}

/// Two byte strings one after the other: the key of a (from, to) pair.
pub fn concat_bytes(a: &Vec<u8>, b: &Vec<u8>) -> (r: Vec<u8>)
    ensures
        r@ == a@ + b@,
{
    let mut out: Vec<u8> = Vec::new();
    let mut i: usize = 0;
    while i < a.len()
        invariant
            i <= a.len(),
            out@ =~= a@.subrange(0, i as int),
        decreases a.len() - i,
    {
        out.push(a[i]);
        i = i + 1;
    }
    let mut j: usize = 0;
    while j < b.len()
        invariant
            j <= b.len(),
            out@ =~= a@ + b@.subrange(0, j as int),
        decreases b.len() - j,
    {
        out.push(b[j]);
        j = j + 1;
    }
    assert(b@.subrange(0, j as int) =~= b@);
    out
}

/// The stored form of (from, to) byte pairs: each pair's bytes joined into
/// one string, and the width of its `from` part.
pub open spec fn joins_pairs(pairs: Seq<(Seq<u8>, Seq<u8>)>, joined: Seq<Seq<u8>>, widths: Seq<u64>) -> bool {
    &&& joined.len() == pairs.len()
    &&& widths.len() == pairs.len()
    &&& forall|k: int|
        0 <= k < pairs.len() ==> #[trigger] joined[k] == pairs[k].0 + pairs[k].1 && widths[k]
            == pairs[k].0.len()
}

/// What splitting stored pairs gives back, or nothing when the two lists
/// differ in length or a width is past the end of its bytes.
pub open spec fn split_pairs_of(joined: Seq<Seq<u8>>, widths: Seq<u64>) -> Option<Seq<(Seq<u8>, Seq<u8>)>> {
    if joined.len() == widths.len() && forall|k: int|
        0 <= k < joined.len() ==> #[trigger] widths[k] <= joined[k].len() {
        Some(
            Seq::new(
                joined.len(),
                |k: int|
                    (
                        joined[k].subrange(0, widths[k] as int),
                        joined[k].subrange(widths[k] as int, joined[k].len() as int),
                    ),
            ),
        )
    } else {
        None
    }
}

/// Joins each (from, to) pair into one byte string and records the width of
/// its `from` part.
pub fn join_pairs(pairs: &Vec<(Vec<u8>, Vec<u8>)>) -> (r: (Vec<Vec<u8>>, Vec<u64>))
    ensures
        joins_pairs(pairs.deep_view(), r.0.deep_view(), r.1@),
{
    let mut joined: Vec<Vec<u8>> = Vec::new();
    let mut widths: Vec<u64> = Vec::new();
    let mut k: usize = 0;
    while k < pairs.len()
        invariant
            k <= pairs.len(),
            joined.len() == k,
            widths.len() == k,
            forall|j: int|
                0 <= j < k ==> #[trigger] joined.deep_view()[j] == pairs.deep_view()[j].0
                    + pairs.deep_view()[j].1 && widths@[j] == pairs.deep_view()[j].0.len(),
        decreases pairs.len() - k,
    {
        let ghost before = joined.deep_view();
        let bytes = concat_bytes(&pairs[k].0, &pairs[k].1);
        joined.push(bytes);
        widths.push(pairs[k].0.len() as u64);
        proof {
            assert(pairs@[k as int].0.deep_view() =~= pairs@[k as int].0@);
            assert(pairs@[k as int].1.deep_view() =~= pairs@[k as int].1@);
            assert(bytes.deep_view() =~= bytes@);
            assert(joined.deep_view() =~= before.push(bytes@));
        }
        k = k + 1;
    }
    (joined, widths)
}

/// The bytes of `b` from `start` to `end`.
fn slice_bytes(b: &Vec<u8>, start: usize, end: usize) -> (r: Vec<u8>)
    requires
        start <= end <= b.len(),
    ensures
        r@ == b@.subrange(start as int, end as int),
{
    let mut out: Vec<u8> = Vec::new();
    let mut i: usize = start;
    while i < end
        invariant
            start <= i <= end <= b.len(),
            out@ == b@.subrange(start as int, i as int),
        decreases end - i,
    {
        out.push(b[i]);
        assert(out@ =~= b@.subrange(start as int, i + 1));
        i = i + 1;
    }
    out
}

/// Splits stored pairs back at their widths. Fails with `MalformedArtifact`
/// when the two lists differ in length or a width is past the end of its
/// bytes.
pub fn split_pairs(joined: &Vec<Vec<u8>>, widths: &Vec<u64>) -> (r: Result<Vec<(Vec<u8>, Vec<u8>)>, CodecError>)
    ensures
        match r {
            Ok(pairs) => split_pairs_of(joined.deep_view(), widths@) == Some(pairs.deep_view()),
            Err(e) => split_pairs_of(joined.deep_view(), widths@) is None && e
                == CodecError::MalformedArtifact,
        },
{
    if joined.len() != widths.len() {
        return Err(CodecError::MalformedArtifact);
    }
    let mut pairs: Vec<(Vec<u8>, Vec<u8>)> = Vec::new();
    let mut k: usize = 0;
    while k < joined.len()
        invariant
            k <= joined.len() == widths.len(),
            pairs.len() == k,
            forall|j: int| 0 <= j < k ==> #[trigger] widths@[j] <= joined.deep_view()[j].len(),
            forall|j: int|
                0 <= j < k ==> #[trigger] pairs.deep_view()[j] == (
                    joined.deep_view()[j].subrange(0, widths@[j] as int),
                    joined.deep_view()[j].subrange(
                        widths@[j] as int,
                        joined.deep_view()[j].len() as int,
                    ),
                ),
        decreases joined.len() - k,
    {
        let w = widths[k];
        let b = &joined[k];
        assert(joined.deep_view()[k as int] =~= b@);
        if w > b.len() as u64 {
            return Err(CodecError::MalformedArtifact);
        }
        let ghost before = pairs.deep_view();
        let front = slice_bytes(b, 0, w as usize);
        let back = slice_bytes(b, w as usize, b.len());
        let pair = (front, back);
        pairs.push(pair);
        proof {
            assert(front.deep_view() =~= front@);
            assert(back.deep_view() =~= back@);
            assert(pairs.deep_view() =~= before.push(pair.deep_view()));
        }
        k = k + 1;
    }
    assert(pairs.deep_view() =~= split_pairs_of(joined.deep_view(), widths@)->Some_0);
    Ok(pairs)
}

/// Splitting joined pairs at their widths gives the pairs back.
pub proof fn lemma_pairs_round_trip(pairs: Seq<(Seq<u8>, Seq<u8>)>, joined: Seq<Seq<u8>>, widths: Seq<u64>)
    requires
        joins_pairs(pairs, joined, widths),
    ensures
        split_pairs_of(joined, widths) == Some(pairs),
{
    assert forall|k: int| 0 <= k < joined.len() implies #[trigger] widths[k] <= joined[k].len() by {
        assert(joined[k] == pairs[k].0 + pairs[k].1);
    }
    let split = split_pairs_of(joined, widths)->Some_0;
    assert forall|k: int| 0 <= k < pairs.len() implies #[trigger] split[k] == pairs[k] by {
        assert(joined[k] == pairs[k].0 + pairs[k].1);
        assert(joined[k].subrange(0, widths[k] as int) =~= pairs[k].0);
        assert(joined[k].subrange(widths[k] as int, joined[k].len() as int) =~= pairs[k].1);
    }
    assert(split =~= pairs);
}

} // verus!
