use vstd::prelude::*;

use crate::dictionary::{lemma_dictionary_size, DictionaryArtifact};
use crate::value::ColumnValue;

verus! {

/// Numerator of the default uniqueness threshold (three tenths).
pub const DEFAULT_THRESHOLD_NUMERATOR: u64 = 3;

/// Denominator of the default uniqueness threshold.
pub const DEFAULT_THRESHOLD_DENOMINATOR: u64 = 10;

/// The columns of a transfer table that the engine knows how to compress.
#[derive(Clone, Copy, Debug, PartialEq, Eq, Structural)]
pub enum Field {
    BlockNumber,
    TransactionIndex,
    LogIndex,
    TransactionHash,
    Erc20,
    FromAddress,
    ToAddress,
    /// The (from, to) address pair, when both columns are present.
    Address,
    ValueString,
    ChainId,
}

/// The encodings a column can receive.
#[derive(Clone, Copy, Debug, PartialEq, Eq, Structural)]
pub enum Codec {
    RunLength,
    Dictionary,
    PassThrough,
    NormalizedVector,
}

/// Row count and distinct-value count of one column.
#[derive(Clone, Copy, Debug, PartialEq, Eq, Structural)]
pub struct ColumnStatistics {
    pub row_count: usize,
    pub unique_count: usize,
}

impl ColumnStatistics {
    /// Counts the rows and the distinct values of a column.
    pub fn of<T: ColumnValue>(column: &Vec<T>) -> (r: Self)
        requires
            column.len() <= u32::MAX,
        ensures
            r.row_count == column.len(),
            r.unique_count == column.deep_view().to_set().len(),
    {
        let dictionary = DictionaryArtifact::encode(column);
        proof {
            lemma_dictionary_size(column.deep_view());
        }
        ColumnStatistics { row_count: column.len(), unique_count: dictionary.values.len() }
    }
}

/// A uniqueness ratio, `numerator / denominator`, below which a column is
/// redundant enough to be worth a dictionary.
#[derive(Clone, Copy, Debug, PartialEq, Eq, Structural)]
pub struct UniquenessThreshold {
    pub numerator: u64,
    pub denominator: u64,
}

/// `unique / rows < numerator / denominator`, without division. An empty
/// column has no ratio and is never below the threshold.
pub open spec fn ratio_below(unique: int, rows: int, numerator: int, denominator: int) -> bool {
    unique * denominator < numerator * rows
}

impl UniquenessThreshold {
    /// Three tenths.
    pub fn standard() -> (r: Self)
        ensures
            r.numerator == DEFAULT_THRESHOLD_NUMERATOR,
            r.denominator == DEFAULT_THRESHOLD_DENOMINATOR,
    {
        UniquenessThreshold {
            numerator: DEFAULT_THRESHOLD_NUMERATOR,
            denominator: DEFAULT_THRESHOLD_DENOMINATOR,
        }
    }

    /// Whether the column's uniqueness ratio lies strictly below this
    /// threshold.
    pub fn admits(&self, stats: ColumnStatistics) -> (r: bool)
        ensures
            r == ratio_below(
                stats.unique_count as int,
                stats.row_count as int,
                self.numerator as int,
                self.denominator as int,
            ),
    {
        let u = stats.unique_count as u128;
        let rows = stats.row_count as u128;
        let d = self.denominator as u128;
        let n = self.numerator as u128;
        assert(u * d <= u64::MAX as u128 * u64::MAX as u128 && n * rows <= u64::MAX as u128
            * u64::MAX as u128) by (nonlinear_arith)
            requires
                u <= u64::MAX,
                rows <= u64::MAX,
                d <= u64::MAX,
                n <= u64::MAX,
        ;
        let lhs: u128 = stats.unique_count as u128 * self.denominator as u128;
        let rhs: u128 = self.numerator as u128 * stats.row_count as u128;
        lhs < rhs
    }
}

/// The codec that a column receives, from its role and, for addresses,
/// whether its uniqueness ratio is below the threshold.
pub open spec fn spec_codec_for(field: Field, redundant: bool) -> Codec {
    match field {
        Field::BlockNumber | Field::TransactionIndex | Field::LogIndex | Field::ChainId
        | Field::Erc20 => Codec::RunLength,
        Field::TransactionHash => Codec::Dictionary,
        Field::FromAddress | Field::ToAddress | Field::Address => if redundant {
            Codec::Dictionary
        } else {
            Codec::PassThrough
        },
        Field::ValueString => Codec::NormalizedVector,
    }
}

/// Chooses the codec for a column.
pub fn codec_for(field: Field, redundant: bool) -> (r: Codec)
    ensures
        r == spec_codec_for(field, redundant),
{
    match field {
        Field::BlockNumber | Field::TransactionIndex | Field::LogIndex | Field::ChainId
        | Field::Erc20 => Codec::RunLength,
        Field::TransactionHash => Codec::Dictionary,
        Field::FromAddress | Field::ToAddress | Field::Address => if redundant {
            Codec::Dictionary
        } else {
            Codec::PassThrough
        },
        Field::ValueString => Codec::NormalizedVector,
    }
}

/// Chooses the codec for a column from its statistics.
pub fn classify(field: Field, stats: ColumnStatistics, threshold: UniquenessThreshold) -> (r: Codec)
    ensures
        r == spec_codec_for(
            field,
            ratio_below(
                stats.unique_count as int,
                stats.row_count as int,
                threshold.numerator as int,
                threshold.denominator as int,
            ),
        ),
{
    codec_for(field, threshold.admits(stats))
}

} // verus!
