use vstd::prelude::*;

use crate::dictionary::DictionaryArtifact;
use crate::rle::RunLengthArtifact;
use crate::table::AddressArtifact;

verus! {

/// Run-length encoded `block_number` column.
pub type RLECompressedBlockNumberSeries = RunLengthArtifact<u32>;

/// Run-length encoded `log_index` column.
pub type RLECompressedLogIndexSeries = RunLengthArtifact<u32>;

/// Run-length encoded `transaction_index` column.
pub type RLECompressedTransactionIndexSeries = RunLengthArtifact<u32>;

/// Run-length encoded `chain_id` column.
pub type RLECompressedChainIdSeries = RunLengthArtifact<u64>;

/// Run-length encoded `erc20` token column.
pub type RLECompressedErc20Series = RunLengthArtifact<String>;

/// Dictionary of hex-decoded transaction hashes.
pub type DictionaryCompressedTransactionHashSeries = DictionaryArtifact<Vec<u8>>;

/// Dictionary of hex-decoded `from_address` values.
pub type DictionaryCompressedFromAddressSeries = DictionaryArtifact<Vec<u8>>;

/// Dictionary of hex-decoded `to_address` values.
pub type DictionaryCompressedToAddressSeries = DictionaryArtifact<Vec<u8>>;

/// Dictionary of hex-decoded (from, to) address pairs.
pub type DictionaryCompressedAddressSeries = DictionaryArtifact<(Vec<u8>, Vec<u8>)>;

/// What the address columns became: a dictionary, or the text kept as it is.
pub type CompressResult = AddressArtifact;

} // verus!
