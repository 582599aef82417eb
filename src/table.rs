use vstd::prelude::*;

use crate::address::{address_column_bytes, address_text, is_prefixed_hex, lower_hex_text, prefixed_hex_bytes};
use crate::classify::{ratio_below, spec_codec_for, Codec, ColumnStatistics, Field, UniquenessThreshold};
use crate::decimal::{rescalable, rescale_decimals, rescales_to, ScaledDecimal};
use crate::dictionary::{dictionary_decoded, is_dictionary_of, DictionaryArtifact};
use crate::error::CodecError;
use crate::report::{reports, reports_of, CompressionReport};
use crate::rle::{is_run_length_of, run_length_decoded, RunLengthArtifact};
use crate::value::ColumnValue;

verus! {

/// A transfer table as handed over by the reader: each known column, when
/// the table has it.
pub struct TransferTable {
    pub block_number: Option<Vec<u32>>,
    pub transaction_index: Option<Vec<u32>>,
    pub log_index: Option<Vec<u32>>,
    pub transaction_hash: Option<Vec<String>>,
    pub erc20: Option<Vec<String>>,
    pub from_address: Option<Vec<String>>,
    pub to_address: Option<Vec<String>>,
    pub value_string: Option<Vec<String>>,
    pub chain_id: Option<Vec<u64>>,
}

/// The artifact of the address columns.
pub enum AddressArtifact {
    /// Both columns, dictionary-encoded together as (from, to) byte pairs.
    Pairs(DictionaryArtifact<(Vec<u8>, Vec<u8>)>),
    /// Only `from_address` is present, dictionary-encoded as bytes.
    From(DictionaryArtifact<Vec<u8>>),
    /// Only `to_address` is present, dictionary-encoded as bytes.
    To(DictionaryArtifact<Vec<u8>>),
    /// Too many distinct values: the text is kept as it is.
    Plain { from: Option<Vec<String>>, to: Option<Vec<String>> },
}

/// The encoded artifacts of one table, one per column present, in the fixed
/// order of the container layout.
pub struct CompressedTable {
    pub block_number: Option<RunLengthArtifact<u32>>,
    pub transaction_index: Option<RunLengthArtifact<u32>>,
    pub log_index: Option<RunLengthArtifact<u32>>,
    pub transaction_hash: Option<DictionaryArtifact<Vec<u8>>>,
    pub erc20: Option<RunLengthArtifact<String>>,
    pub addresses: Option<AddressArtifact>,
    /// Each value parsed and divided by ten to the rescaling places; the
    /// normalization itself happens in floating point, outside this crate.
    pub value_string: Option<Vec<ScaledDecimal>>,
    pub chain_id: Option<RunLengthArtifact<u64>>,
}

/// Every row of a column is `0x`-prefixed hex.
pub open spec fn all_prefixed_hex(column: Seq<String>) -> bool {
    forall|k: int| 0 <= k < column.len() ==> is_prefixed_hex(#[trigger] column[k]@)
}

/// Every row of a column is a decimal that can be rescaled.
pub open spec fn all_decimal(column: Seq<String>) -> bool {
    forall|k: int| 0 <= k < column.len() ==> rescalable(#[trigger] column[k]@)
}

/// The bytes of each row of a hex column.
pub open spec fn column_bytes(column: Seq<String>) -> Seq<Seq<u8>> {
    Seq::new(column.len(), |k: int| prefixed_hex_bytes(column[k]@))
}

/// The (from, to) byte pair of each row.
pub open spec fn column_pairs(from: Seq<String>, to: Seq<String>) -> Seq<(Seq<u8>, Seq<u8>)> {
    Seq::new(from.len(), |k: int| (prefixed_hex_bytes(from[k]@), prefixed_hex_bytes(to[k]@)))
}

/// The text of each row, as a model.
pub open spec fn texts(column: Vec<String>) -> Seq<Seq<char>> {
    column.deep_view()
}

/// The uniqueness ratio of a text column lies below the threshold.
pub open spec fn is_redundant(column: Vec<String>, threshold: UniquenessThreshold) -> bool {
    ratio_below(
        texts(column).to_set().len() as int,
        column.len() as int,
        threshold.numerator as int,
        threshold.denominator as int,
    )
}

/// The codec that the address columns receive. When both are present they
/// are considered together and share a dictionary only if both are redundant.
pub open spec fn address_codec(t: TransferTable, threshold: UniquenessThreshold) -> Codec {
    match (t.from_address, t.to_address) {
        (Some(f), Some(g)) => spec_codec_for(
            Field::Address,
            is_redundant(f, threshold) && is_redundant(g, threshold),
        ),
        (Some(f), None) => spec_codec_for(Field::FromAddress, is_redundant(f, threshold)),
        (None, Some(g)) => spec_codec_for(Field::ToAddress, is_redundant(g, threshold)),
        (None, None) => Codec::PassThrough,
    }
}

/// A column that the chosen codec will hex-decode is valid hex throughout.
pub open spec fn addresses_decodable(t: TransferTable, threshold: UniquenessThreshold) -> bool {
    address_codec(t, threshold) == Codec::Dictionary ==> (match t.from_address {
        Some(f) => all_prefixed_hex(f@),
        None => true,
    }) && (match t.to_address {
        Some(g) => all_prefixed_hex(g@),
        None => true,
    })
}

/// Every column can be encoded: hashes and dictionary-bound addresses are
/// hex, values are decimals.
pub open spec fn compressible(t: TransferTable, threshold: UniquenessThreshold) -> bool {
    &&& (match t.transaction_hash {
        Some(c) => all_prefixed_hex(c@),
        None => true,
    })
    &&& addresses_decodable(t, threshold)
    &&& (match t.value_string {
        Some(c) => all_decimal(c@),
        None => true,
    })
}

/// The column of `field` is one that its codec cannot encode.
pub open spec fn fails_on(t: TransferTable, threshold: UniquenessThreshold, field: Field) -> bool {
    match field {
        Field::TransactionHash => t.transaction_hash matches Some(c) && !all_prefixed_hex(c@),
        Field::FromAddress => address_codec(t, threshold) == Codec::Dictionary
            && (t.from_address matches Some(c) && !all_prefixed_hex(c@)),
        Field::ToAddress => address_codec(t, threshold) == Codec::Dictionary
            && (t.to_address matches Some(c) && !all_prefixed_hex(c@)),
        Field::ValueString => t.value_string matches Some(c) && !all_decimal(c@),
        _ => false,
    }
}

/// The table's columns fit the 32-bit row indices of the artifacts, and
/// `from_address` and `to_address` have equal length when both are present.
pub open spec fn table_fits(t: TransferTable) -> bool {
    &&& (t.block_number matches Some(c) ==> c.len() <= u32::MAX)
    &&& (t.transaction_index matches Some(c) ==> c.len() <= u32::MAX)
    &&& (t.log_index matches Some(c) ==> c.len() <= u32::MAX)
    &&& (t.transaction_hash matches Some(c) ==> c.len() <= u32::MAX)
    &&& (t.erc20 matches Some(c) ==> c.len() <= u32::MAX)
    &&& (t.from_address matches Some(c) ==> c.len() <= u32::MAX)
    &&& (t.to_address matches Some(c) ==> c.len() <= u32::MAX)
    &&& (t.chain_id matches Some(c) ==> c.len() <= u32::MAX)
    &&& (t.from_address is Some && t.to_address is Some) ==> t.from_address->Some_0.len()
        == t.to_address->Some_0.len()
}

/// An integer or token column and its run-length artifact.
pub open spec fn runs_match<T: ColumnValue>(
    column: Option<Vec<T>>,
    artifact: Option<RunLengthArtifact<T>>,
) -> bool {
    match (column, artifact) {
        (None, None) => true,
        (Some(c), Some(a)) => is_run_length_of(a.value_models(), a.counts@, c.deep_view()),
        _ => false,
    }
}

/// Two optional text columns hold the same rows.
pub open spec fn same_texts(a: Option<Vec<String>>, b: Option<Vec<String>>) -> bool {
    match (a, b) {
        (None, None) => true,
        (Some(x), Some(y)) => x@ == y@,
        _ => false,
    }
}

/// The address columns and their artifact, under the codec chosen for them.
pub open spec fn addresses_match(t: TransferTable, threshold: UniquenessThreshold, a: Option<AddressArtifact>) -> bool {
    let dictionary = address_codec(t, threshold) == Codec::Dictionary;
    match (t.from_address, t.to_address, a) {
        (None, None, None) => true,
        (Some(f), Some(g), Some(AddressArtifact::Pairs(d))) => dictionary && is_dictionary_of(
            d.index@,
            d.value_models(),
            column_pairs(f@, g@),
        ),
        (Some(f), None, Some(AddressArtifact::From(d))) => dictionary && is_dictionary_of(
            d.index@,
            d.value_models(),
            column_bytes(f@),
        ),
        (None, Some(g), Some(AddressArtifact::To(d))) => dictionary && is_dictionary_of(
            d.index@,
            d.value_models(),
            column_bytes(g@),
        ),
        (from, to, Some(AddressArtifact::Plain { from: kept_from, to: kept_to })) => !dictionary
            && !(from is None && to is None) && same_texts(kept_from, from) && same_texts(kept_to, to),
        _ => false,
    }
}

/// `r` holds, for each column of `t`, the artifact of the codec that the
/// classifier picks for it, and nothing for absent columns.
pub open spec fn compresses_to(t: TransferTable, threshold: UniquenessThreshold, r: CompressedTable) -> bool {
    &&& runs_match(t.block_number, r.block_number)
    &&& runs_match(t.transaction_index, r.transaction_index)
    &&& runs_match(t.log_index, r.log_index)
    &&& match (t.transaction_hash, r.transaction_hash) {
        (None, None) => true,
        (Some(c), Some(d)) => is_dictionary_of(d.index@, d.value_models(), column_bytes(c@)),
        _ => false,
    }
    &&& runs_match(t.erc20, r.erc20)
    &&& addresses_match(t, threshold, r.addresses)
    &&& match (t.value_string, r.value_string) {
        (None, None) => true,
        (Some(c), Some(v)) => v.len() == c.len() && forall|k: int|
            0 <= k < c.len() ==> rescales_to(#[trigger] c@[k]@, v@[k]),
        _ => false,
    }
    &&& runs_match(t.chain_id, r.chain_id)
}

/// Hex-decodes a column and dictionary-encodes the bytes.
fn encode_hex_column(column: &Vec<String>, field: Field) -> (r: Result<DictionaryArtifact<Vec<u8>>, CodecError>)
    requires
        column.len() <= u32::MAX,
    ensures
        match r {
            Ok(d) => all_prefixed_hex(column@) && is_dictionary_of(
                d.index@,
                d.value_models(),
                column_bytes(column@),
            ),
            Err(e) => !all_prefixed_hex(column@) && e is InvalidEncoding && e.failed_field() == field,
        },
{
    match address_column_bytes(column, field) {
        Ok(bytes) => {
            assert(bytes.deep_view() =~= column_bytes(column@)) by {
                assert forall|k: int| 0 <= k < bytes.len() implies bytes.deep_view()[k]
                    == column_bytes(column@)[k] by {
                    assert(bytes@[k].deep_view() =~= bytes@[k]@);
                }
            }
            Ok(DictionaryArtifact::encode(&bytes))
        },
        Err(e) => Err(e),
    }
}

/// Hex-decodes two columns of equal length and dictionary-encodes the
/// (from, to) byte pairs.
fn encode_pair_columns(from: &Vec<String>, to: &Vec<String>) -> (r: Result<
    DictionaryArtifact<(Vec<u8>, Vec<u8>)>,
    CodecError,
>)
    requires
        from.len() == to.len() <= u32::MAX,
    ensures
        match r {
            Ok(d) => all_prefixed_hex(from@) && all_prefixed_hex(to@) && is_dictionary_of(
                d.index@,
                d.value_models(),
                column_pairs(from@, to@),
            ),
            Err(e) => e is InvalidEncoding && ((e.failed_field() == Field::FromAddress
                && !all_prefixed_hex(from@)) || (e.failed_field() == Field::ToAddress
                && !all_prefixed_hex(to@))),
        },
{
    let from_bytes = match address_column_bytes(from, Field::FromAddress) {
        Ok(b) => b,
        Err(e) => {
            return Err(e);
        },
    };
    let to_bytes = match address_column_bytes(to, Field::ToAddress) {
        Ok(b) => b,
        Err(e) => {
            return Err(e);
        },
    };
    let mut pairs: Vec<(Vec<u8>, Vec<u8>)> = Vec::new();
    let mut k: usize = 0;
    while k < from_bytes.len()
        invariant
            k <= from_bytes.len() == to_bytes.len() == from.len() == to.len(),
            pairs.len() == k,
            forall|j: int| 0 <= j < from.len() ==> from_bytes@[j]@ == prefixed_hex_bytes(#[trigger] from@[j]@),
            forall|j: int| 0 <= j < to.len() ==> to_bytes@[j]@ == prefixed_hex_bytes(#[trigger] to@[j]@),
            forall|j: int| 0 <= j < k ==> #[trigger] pairs.deep_view()[j] == column_pairs(from@, to@)[j],
        decreases from_bytes.len() - k,
    {
        let ghost before = pairs.deep_view();
        let p = (from_bytes[k].duplicate(), to_bytes[k].duplicate());
        pairs.push(p);
        proof {
            assert(from_bytes@[k as int].deep_view() =~= from_bytes@[k as int]@);
            assert(to_bytes@[k as int].deep_view() =~= to_bytes@[k as int]@);
            assert(pairs.deep_view() =~= before.push(p.deep_view()));
        }
        k = k + 1;
    }
    assert(pairs.deep_view() =~= column_pairs(from@, to@));
    Ok(DictionaryArtifact::encode(&pairs))
}

/// Copies a text column.
fn copy_texts(column: &Vec<String>) -> (r: Vec<String>)
    ensures
        r@ == column@,
{
    let mut out: Vec<String> = Vec::new();
    let mut k: usize = 0;
    while k < column.len()
        invariant
            k <= column.len(),
            out@ == column@.subrange(0, k as int),
        decreases column.len() - k,
    {
        out.push(column[k].clone());
        assert(out@ =~= column@.subrange(0, k + 1));
        k = k + 1;
    }
    assert(column@.subrange(0, k as int) =~= column@);
    out
}

/// Chooses and applies the codec of the address columns.
fn compress_addresses(t: &TransferTable, threshold: UniquenessThreshold) -> (r: Result<
    Option<AddressArtifact>,
    CodecError,
>)
    requires
        table_fits(*t),
    ensures
        match r {
            Ok(a) => addresses_decodable(*t, threshold) && addresses_match(*t, threshold, a),
            Err(e) => !addresses_decodable(*t, threshold) && e is InvalidEncoding && fails_on(
                *t,
                threshold,
                e.failed_field(),
            ),
        },
{
    match (&t.from_address, &t.to_address) {
        (Some(f), Some(g)) => {
            let sf = ColumnStatistics::of(f);
            let sg = ColumnStatistics::of(g);
            let redundant = threshold.admits(sf) && threshold.admits(sg);
            match crate::classify::codec_for(Field::Address, redundant) {
                Codec::Dictionary => match encode_pair_columns(f, g) {
                    Ok(d) => Ok(Some(AddressArtifact::Pairs(d))),
                    Err(e) => Err(e),
                },
                _ => Ok(
                    Some(AddressArtifact::Plain { from: Some(copy_texts(f)), to: Some(copy_texts(g)) }),
                ),
            }
        },
        (Some(f), None) => {
            let sf = ColumnStatistics::of(f);
            match crate::classify::codec_for(Field::FromAddress, threshold.admits(sf)) {
                Codec::Dictionary => match encode_hex_column(f, Field::FromAddress) {
                    Ok(d) => Ok(Some(AddressArtifact::From(d))),
                    Err(e) => Err(e),
                },
                _ => Ok(Some(AddressArtifact::Plain { from: Some(copy_texts(f)), to: None })),
            }
        },
        (None, Some(g)) => {
            let sg = ColumnStatistics::of(g);
            match crate::classify::codec_for(Field::ToAddress, threshold.admits(sg)) {
                Codec::Dictionary => match encode_hex_column(g, Field::ToAddress) {
                    Ok(d) => Ok(Some(AddressArtifact::To(d))),
                    Err(e) => Err(e),
                },
                _ => Ok(Some(AddressArtifact::Plain { from: None, to: Some(copy_texts(g)) })),
            }
        },
        (None, None) => Ok(None),
    }
}

/// Run-length encodes a column when it is present.
fn compress_runs<T: ColumnValue>(column: &Option<Vec<T>>) -> (r: Option<RunLengthArtifact<T>>)
    requires
        column matches Some(c) ==> c.len() <= u32::MAX,
    ensures
        runs_match(*column, r),
{
    match column {
        Some(c) => Some(RunLengthArtifact::encode(c)),
        None => None,
    }
}

/// Whether the table has the column of `field`; the address pair needs both
/// address columns.
pub open spec fn has_column(t: TransferTable, field: Field) -> bool {
    match field {
        Field::BlockNumber => t.block_number is Some,
        Field::TransactionIndex => t.transaction_index is Some,
        Field::LogIndex => t.log_index is Some,
        Field::TransactionHash => t.transaction_hash is Some,
        Field::Erc20 => t.erc20 is Some,
        Field::FromAddress => t.from_address is Some,
        Field::ToAddress => t.to_address is Some,
        Field::Address => t.from_address is Some && t.to_address is Some,
        Field::ValueString => t.value_string is Some,
        Field::ChainId => t.chain_id is Some,
    }
}

impl TransferTable {
    /// Whether the table meets the precondition of `compress`.
    pub fn fits(&self) -> (r: bool)
        ensures
            r == table_fits(*self),
    {
        let fits_one = |c: &Option<Vec<u32>>| -> (r: bool)
            ensures r == (c matches Some(v) ==> v.len() <= u32::MAX)
            {
                match c {
                    Some(v) => v.len() <= u32::MAX as usize,
                    None => true,
                }
            };
        let fits_text = |c: &Option<Vec<String>>| -> (r: bool)
            ensures r == (c matches Some(v) ==> v.len() <= u32::MAX)
            {
                match c {
                    Some(v) => v.len() <= u32::MAX as usize,
                    None => true,
                }
            };
        let same_length = match (&self.from_address, &self.to_address) {
            (Some(f), Some(g)) => f.len() == g.len(),
            _ => true,
        };
        let chain_fits = match &self.chain_id {
            Some(v) => v.len() <= u32::MAX as usize,
            None => true,
        };
        fits_one(&self.block_number) && fits_one(&self.transaction_index) && fits_one(&self.log_index)
            && fits_text(&self.transaction_hash) && fits_text(&self.erc20) && fits_text(&self.from_address)
            && fits_text(&self.to_address) && chain_fits && same_length
    }

    /// Whether the table has the column of `field`.
    pub fn has(&self, field: Field) -> (r: bool)
        ensures
            r == has_column(*self, field),
    {
        match field {
            Field::BlockNumber => self.block_number.is_some(),
            Field::TransactionIndex => self.transaction_index.is_some(),
            Field::LogIndex => self.log_index.is_some(),
            Field::TransactionHash => self.transaction_hash.is_some(),
            Field::Erc20 => self.erc20.is_some(),
            Field::FromAddress => self.from_address.is_some(),
            Field::ToAddress => self.to_address.is_some(),
            Field::Address => self.from_address.is_some() && self.to_address.is_some(),
            Field::ValueString => self.value_string.is_some(),
            Field::ChainId => self.chain_id.is_some(),
        }
    }

    /// Absent columns are skipped by `compress`, except those the caller
    /// asks for: fails with `MissingColumn` exactly when one of `requested`
    /// is absent.
    pub fn require_columns(&self, requested: &Vec<Field>) -> (r: Result<(), CodecError>)
        ensures
            r is Ok <==> forall|k: int| 0 <= k < requested.len() ==> has_column(*self, #[trigger] requested@[k]),
            r is Err ==> r == Err::<(), CodecError>(CodecError::MissingColumn),
    {
        let mut k: usize = 0;
        while k < requested.len()
            invariant
                k <= requested.len(),
                forall|j: int| 0 <= j < k ==> has_column(*self, #[trigger] requested@[j]),
            decreases requested.len() - k,
        {
            if !self.has(requested[k]) {
                return Err(CodecError::MissingColumn);
            }
            k = k + 1;
        }
        Ok(())
    }

    /// Encodes every present column with the codec that the classifier
    /// picks for it; absent columns are skipped. Returns the artifacts and
    /// one report per artifact. Any column that cannot be encoded fails the
    /// whole run with `InvalidEncoding` naming that column, and nothing is
    /// returned for the other columns.
    pub fn compress(&self, threshold: UniquenessThreshold) -> (r: Result<
        (CompressedTable, Vec<CompressionReport>),
        CodecError,
    >)
        requires
            table_fits(*self),
        ensures
            match r {
                Ok((c, reports)) => compressible(*self, threshold) && compresses_to(*self, threshold, c)
                    && reports@ == reports_of(*self, c),
                Err(e) => !compressible(*self, threshold) && e is InvalidEncoding && fails_on(
                    *self,
                    threshold,
                    e.failed_field(),
                ),
            },
    {
        let block_number = compress_runs(&self.block_number);
        let transaction_index = compress_runs(&self.transaction_index);
        let log_index = compress_runs(&self.log_index);
        let transaction_hash = match &self.transaction_hash {
            Some(c) => match encode_hex_column(c, Field::TransactionHash) {
                Ok(d) => Some(d),
                Err(e) => {
                    return Err(e);
                },
            },
            None => None,
        };
        let erc20 = compress_runs(&self.erc20);
        let addresses = match compress_addresses(self, threshold) {
            Ok(a) => a,
            Err(e) => {
                return Err(e);
            },
        };
        let value_string = match &self.value_string {
            Some(c) => match rescale_decimals(c) {
                Ok(v) => Some(v),
                Err(e) => {
                    return Err(e);
                },
            },
            None => None,
        };
        let chain_id = compress_runs(&self.chain_id);
        let compressed = CompressedTable {
            block_number,
            transaction_index,
            log_index,
            transaction_hash,
            erc20,
            addresses,
            value_string,
            chain_id,
        };
        let reports = reports(self, &compressed);
        Ok((compressed, reports))
    }
}

/// The `0x` text of each byte string.
pub open spec fn hex_texts(bytes: Seq<Seq<u8>>) -> Seq<Seq<char>> {
    Seq::new(bytes.len(), |k: int| seq!['0', 'x'] + lower_hex_text(bytes[k]))
}

/// The first components of a sequence of pairs.
pub open spec fn firsts<A, B>(pairs: Seq<(A, B)>) -> Seq<A> {
    Seq::new(pairs.len(), |k: int| pairs[k].0)
}

/// The second components of a sequence of pairs.
pub open spec fn seconds<A, B>(pairs: Seq<(A, B)>) -> Seq<B> {
    Seq::new(pairs.len(), |k: int| pairs[k].1)
}

/// A stored run-length artifact and the column it decodes to.
pub open spec fn runs_restored<T: ColumnValue>(
    artifact: Option<RunLengthArtifact<T>>,
    column: Option<Vec<T>>,
) -> bool {
    match (artifact, column) {
        (None, None) => true,
        (Some(a), Some(c)) => run_length_decoded(a.value_models(), a.counts@) == Some(
            c.deep_view(),
        ),
        _ => false,
    }
}

/// A stored byte dictionary and the `0x` text column it decodes to.
pub open spec fn hex_restored(artifact: DictionaryArtifact<Vec<u8>>, column: Option<Vec<String>>) -> bool {
    match (dictionary_decoded(artifact.index@, artifact.value_models()), column) {
        (Some(bytes), Some(c)) => texts(c) == hex_texts(bytes),
        _ => false,
    }
}

/// The stored address artifact and the two address columns it decodes to.
pub open spec fn addresses_restored(artifact: Option<AddressArtifact>, t: TransferTable) -> bool {
    match artifact {
        None => t.from_address is None && t.to_address is None,
        Some(AddressArtifact::Pairs(d)) => match (
            dictionary_decoded(d.index@, d.value_models()),
            t.from_address,
            t.to_address,
        ) {
            (Some(pairs), Some(f), Some(g)) => texts(f) == hex_texts(firsts(pairs)) && texts(g)
                == hex_texts(seconds(pairs)),
            _ => false,
        },
        Some(AddressArtifact::From(d)) => hex_restored(d, t.from_address) && t.to_address is None,
        Some(AddressArtifact::To(d)) => hex_restored(d, t.to_address) && t.from_address is None,
        Some(AddressArtifact::Plain { from, to }) => same_texts(t.from_address, from) && same_texts(
            t.to_address,
            to,
        ),
    }
}

/// Every stored artifact is well formed.
pub open spec fn decodable(c: CompressedTable) -> bool {
    &&& (c.block_number matches Some(a) ==> run_length_decoded(a.value_models(), a.counts@) is Some)
    &&& (c.transaction_index matches Some(a) ==> run_length_decoded(a.value_models(), a.counts@) is Some)
    &&& (c.log_index matches Some(a) ==> run_length_decoded(a.value_models(), a.counts@) is Some)
    &&& (c.transaction_hash matches Some(d) ==> dictionary_decoded(d.index@, d.value_models()) is Some)
    &&& (c.erc20 matches Some(a) ==> run_length_decoded(a.value_models(), a.counts@) is Some)
    &&& match c.addresses {
        Some(AddressArtifact::Pairs(d)) => dictionary_decoded(d.index@, d.value_models()) is Some,
        Some(AddressArtifact::From(d)) => dictionary_decoded(d.index@, d.value_models()) is Some,
        Some(AddressArtifact::To(d)) => dictionary_decoded(d.index@, d.value_models()) is Some,
        _ => true,
    }
    &&& (c.chain_id matches Some(a) ==> run_length_decoded(a.value_models(), a.counts@) is Some)
}

/// `t` is what the artifacts of `c` decode to. The value strings are left
/// out: they come back from the normalized vector and its norm.
pub open spec fn restores(c: CompressedTable, t: TransferTable) -> bool {
    &&& runs_restored(c.block_number, t.block_number)
    &&& runs_restored(c.transaction_index, t.transaction_index)
    &&& runs_restored(c.log_index, t.log_index)
    &&& match c.transaction_hash {
        None => t.transaction_hash is None,
        Some(d) => hex_restored(d, t.transaction_hash),
    }
    &&& runs_restored(c.erc20, t.erc20)
    &&& addresses_restored(c.addresses, t)
    &&& t.value_string is None
    &&& runs_restored(c.chain_id, t.chain_id)
}

/// The `0x` text of each byte string of a column.
fn hex_column(bytes: &Vec<Vec<u8>>) -> (r: Vec<String>)
    ensures
        texts(r) == hex_texts(bytes.deep_view()),
{
    let mut out: Vec<String> = Vec::new();
    let mut k: usize = 0;
    while k < bytes.len()
        invariant
            k <= bytes.len(),
            out.len() == k,
            forall|j: int| 0 <= j < k ==> #[trigger] out@[j]@ == seq!['0', 'x'] + lower_hex_text(bytes@[j]@),
        decreases bytes.len() - k,
    {
        out.push(address_text(&bytes[k]));
        k = k + 1;
    }
    assert forall|j: int| 0 <= j < bytes.len() implies bytes.deep_view()[j] == bytes@[j]@ by {
        assert(bytes@[j].deep_view() =~= bytes@[j]@);
    }
    assert(texts(out) =~= hex_texts(bytes.deep_view()));
    out
}

/// Splits decoded (from, to) pairs into the two `0x` text columns.
fn hex_pair_columns(pairs: &Vec<(Vec<u8>, Vec<u8>)>) -> (r: (Vec<String>, Vec<String>))
    ensures
        texts(r.0) == hex_texts(firsts(pairs.deep_view())),
        texts(r.1) == hex_texts(seconds(pairs.deep_view())),
{
    let mut from: Vec<Vec<u8>> = Vec::new();
    let mut to: Vec<Vec<u8>> = Vec::new();
    let mut k: usize = 0;
    while k < pairs.len()
        invariant
            k <= pairs.len(),
            from.len() == k,
            to.len() == k,
            forall|j: int| 0 <= j < k ==> #[trigger] from.deep_view()[j] == pairs.deep_view()[j].0,
            forall|j: int| 0 <= j < k ==> #[trigger] to.deep_view()[j] == pairs.deep_view()[j].1,
        decreases pairs.len() - k,
    {
        let ghost fb = from.deep_view();
        let ghost tb = to.deep_view();
        let f = pairs[k].0.duplicate();
        let g = pairs[k].1.duplicate();
        from.push(f);
        to.push(g);
        assert(from.deep_view() =~= fb.push(f.deep_view()));
        assert(to.deep_view() =~= tb.push(g.deep_view()));
        k = k + 1;
    }
    assert(from.deep_view() =~= firsts(pairs.deep_view()));
    assert(to.deep_view() =~= seconds(pairs.deep_view()));
    (hex_column(&from), hex_column(&to))
}

/// Decodes a run-length artifact when there is one.
fn restore_runs<T: ColumnValue>(artifact: &Option<RunLengthArtifact<T>>) -> (r: Result<
    Option<Vec<T>>,
    CodecError,
>)
    ensures
        match r {
            Ok(c) => runs_restored(*artifact, c),
            Err(e) => artifact matches Some(a) && run_length_decoded(a.value_models(), a.counts@) is None
                && e == CodecError::MalformedArtifact,
        },
{
    match artifact {
        Some(a) => match a.decode() {
            Ok(c) => Ok(Some(c)),
            Err(e) => Err(e),
        },
        None => Ok(None),
    }
}

/// Decodes a byte dictionary into its `0x` text column.
fn restore_hex(artifact: &DictionaryArtifact<Vec<u8>>) -> (r: Result<Vec<String>, CodecError>)
    ensures
        match r {
            Ok(c) => hex_restored(*artifact, Some(c)),
            Err(e) => dictionary_decoded(artifact.index@, artifact.value_models()) is None
                && e is DictionaryIndexOutOfRange,
        },
{
    match artifact.decode() {
        Ok(bytes) => Ok(hex_column(&bytes)),
        Err(e) => Err(e),
    }
}

/// Copies an optional text column.
fn copy_optional_texts(column: &Option<Vec<String>>) -> (r: Option<Vec<String>>)
    ensures
        same_texts(r, *column),
{
    match column {
        Some(c) => Some(copy_texts(c)),
        None => None,
    }
}

impl CompressedTable {
    /// Rebuilds the columns from their artifacts. Fails with
    /// `MalformedArtifact` or `DictionaryIndexOutOfRange` when an artifact is
    /// corrupt, and then returns no column at all.
    pub fn decompress(&self) -> (r: Result<TransferTable, CodecError>)
        ensures
            match r {
                Ok(t) => decodable(*self) && restores(*self, t),
                Err(e) => !decodable(*self) && (e is MalformedArtifact || e is DictionaryIndexOutOfRange),
            },
    {
        let block_number = restore_runs(&self.block_number)?;
        let transaction_index = restore_runs(&self.transaction_index)?;
        let log_index = restore_runs(&self.log_index)?;
        let transaction_hash = match &self.transaction_hash {
            Some(d) => Some(restore_hex(d)?),
            None => None,
        };
        let erc20 = restore_runs(&self.erc20)?;
        let (from_address, to_address) = match &self.addresses {
            Some(AddressArtifact::Pairs(d)) => {
                let pairs = d.decode()?;
                let (f, g) = hex_pair_columns(&pairs);
                (Some(f), Some(g))
            },
            Some(AddressArtifact::From(d)) => (Some(restore_hex(d)?), None),
            Some(AddressArtifact::To(d)) => (None, Some(restore_hex(d)?)),
            Some(AddressArtifact::Plain { from, to }) => (copy_optional_texts(from), copy_optional_texts(to)),
            None => (None, None),
        };
        let chain_id = restore_runs(&self.chain_id)?;
        Ok(
            TransferTable {
                block_number,
                transaction_index,
                log_index,
                transaction_hash,
                erc20,
                from_address,
                to_address,
                value_string: None,
                chain_id,
            },
        )
    }

    /// Whether no column produced an artifact.
    pub open spec fn holds_nothing(&self) -> bool {
        &&& self.block_number is None
        &&& self.transaction_index is None
        &&& self.log_index is None
        &&& self.transaction_hash is None
        &&& self.erc20 is None
        &&& self.addresses is None
        &&& self.value_string is None
        &&& self.chain_id is None
    }

    /// A merge needs at least one artifact: fails with `EmptyArtifactSet`
    /// exactly when there is none.
    pub fn check_mergeable(&self) -> (r: Result<(), CodecError>)
        ensures
            r is Err <==> self.holds_nothing(),
            r is Err ==> r == Err::<(), CodecError>(CodecError::EmptyArtifactSet),
    {
        if self.block_number.is_none() && self.transaction_index.is_none() && self.log_index.is_none()
            && self.transaction_hash.is_none() && self.erc20.is_none() && self.addresses.is_none()
            && self.value_string.is_none() && self.chain_id.is_none() {
            Err(CodecError::EmptyArtifactSet)
        } else {
            Ok(())
        }
    }
}

} // verus!
