use vstd::prelude::*;

use crate::classify::Field;
use crate::error::CodecError;

verus! {

/// The values are divided by ten to the power of this number of places
/// before normalization.
pub const RESCALE_PLACES: i64 = 1;

#[verifier::external_type_specification]
#[verifier::external_body]
pub struct ExParseBigDecimalError(bigdecimal::ParseBigDecimalError);

/// What `bigdecimal` reads from a text: its integer digits (as base-ten text,
/// with a sign when negative) and its scale, the value being
/// `digits * 10^-scale`; `None` when the text is not a decimal.
pub uninterp spec fn parsed_decimal(s: Seq<char>) -> Option<(Seq<char>, i64)>;

/// Relies on `BigDecimal::from_str` and `BigDecimal::into_bigint_and_scale`:
/// whether the text parses, and the digits and scale read from it, depend on
/// the text alone.
#[verifier::external_body]
fn parse_decimal(s: &str) -> (r: Result<(String, i64), bigdecimal::ParseBigDecimalError>)
    ensures
        match r {
            Ok(p) => parsed_decimal(s@) == Some((p.0@, p.1)),
            Err(_) => parsed_decimal(s@) is None,
        },
{
    match <bigdecimal::BigDecimal as std::str::FromStr>::from_str(s) {
        Ok(d) => {
            let (digits, scale) = d.into_bigint_and_scale();
            Ok((digits.to_string(), scale))
        },
        Err(e) => Err(e),
    }
}

/// A decimal as plain values: `digits * 10^-scale`.
#[derive(Clone, Debug, PartialEq, Eq)]
pub struct ScaledDecimal {
    pub digits: String,
    pub scale: i64,
}

/// The text is a decimal whose scale leaves room for the rescaling places.
pub open spec fn rescalable(s: Seq<char>) -> bool {
    match parsed_decimal(s) {
        Some(p) => p.1 + RESCALE_PLACES <= i64::MAX,
        None => false,
    }
}

/// `d` is the text's decimal divided by ten to the rescaling places: the
/// same digits, the scale grown by the places.
pub open spec fn rescales_to(s: Seq<char>, d: ScaledDecimal) -> bool {
    match parsed_decimal(s) {
        Some(p) => d.digits@ == p.0 && d.scale == p.1 + RESCALE_PLACES,
        None => false,
    }
}

/// The first row of a column that cannot be rescaled.
pub open spec fn first_non_decimal(column: Seq<String>, row: int) -> bool {
    &&& 0 <= row < column.len()
    &&& !rescalable(column[row]@)
    &&& forall|k: int| 0 <= k < row ==> rescalable(#[trigger] column[k]@)
}

/// Parses each value of a decimal-string column and divides it by ten to
/// the rescaling places. Fails with `InvalidEncoding` at the first row that
/// is not a decimal, or whose scale has no room for the places.
pub fn rescale_decimals(column: &Vec<String>) -> (r: Result<Vec<ScaledDecimal>, CodecError>)
    ensures
        match r {
            Ok(out) => out.len() == column.len() && forall|k: int|
                0 <= k < column.len() ==> rescales_to(#[trigger] column@[k]@, out@[k]),
            Err(e) => exists|row: int|
                first_non_decimal(column@, row) && e == CodecError::InvalidEncoding {
                    field: Field::ValueString,
                    row: row as usize,
                },
        },
{
    let mut out: Vec<ScaledDecimal> = Vec::new();
    let mut k: usize = 0;
    while k < column.len()
        invariant
            k <= column.len(),
            out.len() == k,
            forall|j: int| 0 <= j < k ==> rescalable(#[trigger] column@[j]@),
            forall|j: int| 0 <= j < k ==> rescales_to(#[trigger] column@[j]@, out@[j]),
        decreases column.len() - k,
    {
        match parse_decimal(column[k].as_str()) {
            Ok((digits, scale)) => {
                match scale.checked_add(RESCALE_PLACES) {
                    Some(scale) => {
                        out.push(ScaledDecimal { digits, scale });
                    },
                    None => {
                        assert(first_non_decimal(column@, k as int));
                        return Err(CodecError::InvalidEncoding { field: Field::ValueString, row: k });
                    },
                }
            },
            Err(_) => {
                assert(first_non_decimal(column@, k as int));
                return Err(CodecError::InvalidEncoding { field: Field::ValueString, row: k });
            },
        }
        k = k + 1;
    }
    Ok(out)
}

/// The 1-based positions of a vector of `n` entries.
pub fn positions(n: usize) -> (r: Vec<u32>)
    requires
        n <= u32::MAX,
    ensures
        r@.len() == n,
        forall|k: int| 0 <= k < n ==> #[trigger] r@[k] == k + 1,
{
    let mut out: Vec<u32> = Vec::new();
    let mut k: usize = 0;
    while k < n
        invariant
            k <= n <= u32::MAX,
            out@.len() == k,
            forall|j: int| 0 <= j < k ==> #[trigger] out@[j] == j + 1,
        decreases n - k,
    {
        out.push((k + 1) as u32);
        k = k + 1;
    }
    out
}

} // verus!
