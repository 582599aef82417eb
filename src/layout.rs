use vstd::prelude::*;
use vstd::string::StringExecFns;

use crate::classify::Field;

verus! {

/// The sub-columns an artifact contributes to the container.
#[derive(Clone, Copy, Debug, PartialEq, Eq, Structural)]
pub enum Part {
    /// Run values, or dictionary entries.
    Values,
    /// Run lengths.
    Counts,
    /// Dictionary index per row, or 1-based positions of a normalized vector.
    Index,
    /// The normalized vector.
    Normalized,
    /// The norm that inverts the normalized vector.
    Norm,
    /// Width of the `from` part of each joined address pair.
    FromWidth,
}

pub open spec fn field_text(field: Field) -> Seq<char> {
    match field {
        Field::BlockNumber => "block_number"@,
        Field::TransactionIndex => "transaction_index"@,
        Field::LogIndex => "log_index"@,
        Field::TransactionHash => "transaction_hash"@,
        Field::Erc20 => "erc20"@,
        Field::FromAddress => "from_address"@,
        Field::ToAddress => "to_address"@,
        Field::Address => "address"@,
        Field::ValueString => "value_string"@,
        Field::ChainId => "chain_id"@,
    }
}

pub open spec fn part_text(part: Part) -> Seq<char> {
    match part {
        Part::Values => "values"@,
        Part::Counts => "counts"@,
        Part::Index => "index"@,
        Part::Normalized => "normalized"@,
        Part::Norm => "norm"@,
        Part::FromWidth => "from_width"@,
    }
}

/// The column name of a field in the input table.
pub fn field_name(field: Field) -> (r: &'static str)
    ensures
        r@ == field_text(field),
{
    match field {
        Field::BlockNumber => "block_number",
        Field::TransactionIndex => "transaction_index",
        Field::LogIndex => "log_index",
        Field::TransactionHash => "transaction_hash",
        Field::Erc20 => "erc20",
        Field::FromAddress => "from_address",
        Field::ToAddress => "to_address",
        Field::Address => "address",
        Field::ValueString => "value_string",
        Field::ChainId => "chain_id",
    }
}

pub fn part_name(part: Part) -> (r: &'static str)
    ensures
        r@ == part_text(part),
{
    match part {
        Part::Values => "values",
        Part::Counts => "counts",
        Part::Index => "index",
        Part::Normalized => "normalized",
        Part::Norm => "norm",
        Part::FromWidth => "from_width",
    }
}

/// The container name of a sub-column: `<field>_<part>`.
pub fn sub_column_name(field: Field, part: Part) -> (r: String)
    ensures
        r@ == field_text(field) + seq!['_'] + part_text(part),
{
    let mut out = String::from_str(field_name(field));
    let sep = "_";
    proof {
        reveal_strlit("_");
    }
    out.append(sep);
    out.append(part_name(part));
    assert(out@ =~= field_text(field) + seq!['_'] + part_text(part));
    out
}

} // verus!
