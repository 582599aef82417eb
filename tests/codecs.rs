use blade::address::{address_bytes, address_column_bytes, address_text};
use blade::classify::{classify, codec_for, Codec, ColumnStatistics, Field, UniquenessThreshold};
use blade::address::{join_pairs, split_pairs};
use blade::decimal::{positions, rescale_decimals, ScaledDecimal};
use blade::layout::{field_name, sub_column_name, Part};
use blade::dictionary::DictionaryArtifact;
use blade::error::CodecError;
use blade::rle::RunLengthArtifact;

#[test]
fn block_number_runs() {
    let column: Vec<u32> = vec![10, 10, 10, 11, 11, 12];
    let artifact = RunLengthArtifact::encode(&column);
    assert_eq!(artifact.values, vec![10, 11, 12]);
    assert_eq!(artifact.counts, vec![3, 2, 1]);
    assert_eq!(artifact.decode().unwrap(), column);
}

#[test]
fn run_length_round_trip_tokens() {
    let column: Vec<String> = ["USDC", "USDC", "DAI", "USDC", "USDC", "USDC", "WETH"]
        .iter()
        .map(|s| s.to_string())
        .collect();
    let artifact = RunLengthArtifact::encode(&column);
    assert_eq!(artifact.values, vec!["USDC", "DAI", "USDC", "WETH"]);
    assert_eq!(artifact.counts, vec![2, 1, 3, 1]);
    assert_eq!(artifact.decode().unwrap(), column);
}

#[test]
fn run_length_round_trip_chain_ids() {
    let column: Vec<u64> = vec![1, 1, 137, 137, 137, 1, u64::MAX];
    let artifact = RunLengthArtifact::encode(&column);
    assert_eq!(artifact.decode().unwrap(), column);
}

#[test]
fn run_length_adjacent_values_differ() {
    let column: Vec<u32> = vec![5, 5, 6, 5, 5, 5, 7, 7, 6, 6];
    let artifact = RunLengthArtifact::encode(&column);
    for w in artifact.values.windows(2) {
        assert_ne!(w[0], w[1]);
    }
    assert_eq!(artifact.values, vec![5, 6, 5, 7, 6]);
    assert_eq!(artifact.counts, vec![2, 1, 3, 2, 2]);
    assert_eq!(artifact.counts.iter().sum::<u32>(), column.len() as u32);
}

#[test]
fn run_length_empty_column() {
    let column: Vec<u32> = Vec::new();
    let artifact = RunLengthArtifact::encode(&column);
    assert!(artifact.values.is_empty());
    assert!(artifact.counts.is_empty());
    assert_eq!(artifact.decode().unwrap(), column);
}

#[test]
fn run_length_rejects_zero_run() {
    let artifact = RunLengthArtifact::<u32> { values: vec![1, 2], counts: vec![3, 0] };
    assert_eq!(artifact.decode(), Err(CodecError::MalformedArtifact));
}

#[test]
fn run_length_rejects_length_mismatch() {
    let artifact = RunLengthArtifact::<u32> { values: vec![1, 2], counts: vec![3] };
    assert_eq!(artifact.decode(), Err(CodecError::MalformedArtifact));
}

#[test]
fn dictionary_round_trip_and_size() {
    let column: Vec<Vec<u8>> = vec![vec![0xaa], vec![0xbb], vec![0xaa], vec![], vec![0xbb, 1]];
    let artifact = DictionaryArtifact::encode(&column);
    assert_eq!(artifact.values, vec![vec![0xaa], vec![0xbb], vec![], vec![0xbb, 1]]);
    assert_eq!(artifact.index, vec![0, 1, 0, 2, 3]);
    assert_eq!(artifact.values.len(), 4);
    assert_eq!(artifact.decode().unwrap(), column);
}

#[test]
fn dictionary_round_trip_strings() {
    let column: Vec<String> = ["a", "b", "a", "a", "c", "b"].iter().map(|s| s.to_string()).collect();
    let artifact = DictionaryArtifact::encode(&column);
    assert_eq!(artifact.values, vec!["a", "b", "c"]);
    assert_eq!(artifact.index, vec![0, 1, 0, 0, 2, 1]);
    assert_eq!(artifact.decode().unwrap(), column);
}

#[test]
fn dictionary_rejects_index_out_of_range() {
    let artifact = DictionaryArtifact::<u32> { index: vec![0, 1, 2, 5], values: vec![7, 8] };
    assert_eq!(artifact.decode(), Err(CodecError::DictionaryIndexOutOfRange { row: 2 }));
}

#[test]
fn classifier_threshold_boundary() {
    let threshold = UniquenessThreshold::standard();
    let below = ColumnStatistics { row_count: 100, unique_count: 29 };
    let above = ColumnStatistics { row_count: 100, unique_count: 31 };
    let at = ColumnStatistics { row_count: 100, unique_count: 30 };
    assert_eq!(classify(Field::FromAddress, below, threshold), Codec::Dictionary);
    assert_eq!(classify(Field::FromAddress, above, threshold), Codec::PassThrough);
    assert_eq!(classify(Field::ToAddress, at, threshold), Codec::PassThrough);
    assert_eq!(classify(Field::BlockNumber, above, threshold), Codec::RunLength);
    assert_eq!(classify(Field::TransactionHash, above, threshold), Codec::Dictionary);
    assert_eq!(classify(Field::ValueString, below, threshold), Codec::NormalizedVector);
    assert_eq!(codec_for(Field::Erc20, false), Codec::RunLength);
}

#[test]
fn statistics_count_distinct_values() {
    let column: Vec<String> = ["0xAA", "0xBB", "0xAA"].iter().map(|s| s.to_string()).collect();
    let stats = ColumnStatistics::of(&column);
    assert_eq!(stats, ColumnStatistics { row_count: 3, unique_count: 2 });
    assert!(!UniquenessThreshold::standard().admits(stats));
}

#[test]
fn address_hex_decoding() {
    let field = Field::TransactionHash;
    assert_eq!(address_bytes("0xAbcD01", field, 0), Ok(vec![0xab, 0xcd, 0x01]));
    assert_eq!(address_bytes("0x", field, 0), Ok(vec![]));
    assert_eq!(address_bytes("AbcD", field, 4), Err(CodecError::InvalidEncoding { field, row: 4 }));
    assert_eq!(address_bytes("0xabc", field, 1), Err(CodecError::InvalidEncoding { field, row: 1 }));
    assert_eq!(address_bytes("0xzz", field, 2), Err(CodecError::InvalidEncoding { field, row: 2 }));
}

#[test]
fn address_column_reports_first_bad_row() {
    let column: Vec<String> = ["0x01", "0x02", "0xg1", "nope"].iter().map(|s| s.to_string()).collect();
    assert_eq!(
        address_column_bytes(&column, Field::ToAddress),
        Err(CodecError::InvalidEncoding { field: Field::ToAddress, row: 2 })
    );
}

#[test]
fn address_text_is_lower_case_hex() {
    assert_eq!(address_text(&vec![0xab, 0x0c, 0xff]), "0xab0cff");
    assert_eq!(address_text(&vec![]), "0x");
}

#[test]
fn decimals_are_rescaled() {
    let column: Vec<String> = ["125", "0.5", "1e3"].iter().map(|s| s.to_string()).collect();
    let out = rescale_decimals(&column).unwrap();
    // 125 / 10 = 125e-1; 0.5 / 10 = 5e-2; 1e3 / 10 = 1e2.
    assert_eq!(out[0], ScaledDecimal { digits: "125".to_string(), scale: 1 });
    assert_eq!(out[1], ScaledDecimal { digits: "5".to_string(), scale: 2 });
    assert_eq!(out[2], ScaledDecimal { digits: "1".to_string(), scale: -2 });
}

#[test]
fn decimals_reject_bad_text() {
    let column: Vec<String> = ["1", "2", "abc"].iter().map(|s| s.to_string()).collect();
    assert!(matches!(
        rescale_decimals(&column),
        Err(CodecError::InvalidEncoding { field: Field::ValueString, row: 2 })
    ));
}

#[test]
fn normalized_positions_are_one_based() {
    assert_eq!(positions(3), vec![1, 2, 3]);
    assert!(positions(0).is_empty());
}

#[test]
fn dictionary_handles_many_distinct_values() {
    let column: Vec<u64> = (0..200_000u64).map(|k| k / 2).collect();
    let artifact = DictionaryArtifact::encode(&column);
    assert_eq!(artifact.values.len(), 100_000);
    assert_eq!(artifact.index[199_999], 99_999);
    assert_eq!(artifact.decode().unwrap(), column);
}

#[test]
fn dictionary_of_byte_strings_with_equal_keys() {
    // Distinct byte strings that share a bucket key must stay distinct.
    let column: Vec<Vec<u8>> = vec![vec![0, 31], vec![1, 0], vec![0, 31], vec![1, 0], vec![2]];
    let artifact = DictionaryArtifact::encode(&column);
    assert_eq!(artifact.values, vec![vec![0, 31], vec![1, 0], vec![2]]);
    assert_eq!(artifact.index, vec![0, 1, 0, 1, 2]);
}

#[test]
fn decimal_without_room_to_rescale_is_rejected() {
    // Its scale is already i64::MAX, so dividing by ten would overflow it.
    let column: Vec<String> = ["7", "5e-9223372036854775807"].iter().map(|s| s.to_string()).collect();
    assert!(matches!(
        rescale_decimals(&column),
        Err(CodecError::InvalidEncoding { field: Field::ValueString, row: 1 })
    ));
    let column: Vec<String> = vec!["5e-9223372036854775806".to_string()];
    let out = rescale_decimals(&column).unwrap();
    assert_eq!(out[0], ScaledDecimal { digits: "5".to_string(), scale: i64::MAX });
}

#[test]
fn address_pairs_join_and_split() {
    let pairs: Vec<(Vec<u8>, Vec<u8>)> = vec![(vec![0xaa, 0xbb], vec![0xcc]), (vec![], vec![1, 2])];
    let (joined, widths) = join_pairs(&pairs);
    assert_eq!(joined, vec![vec![0xaa, 0xbb, 0xcc], vec![1, 2]]);
    assert_eq!(widths, vec![2, 0]);
    assert_eq!(split_pairs(&joined, &widths), Ok(pairs));
    assert_eq!(split_pairs(&joined, &vec![4, 0]), Err(CodecError::MalformedArtifact));
    assert_eq!(split_pairs(&joined, &vec![1]), Err(CodecError::MalformedArtifact));
}

#[test]
fn sub_column_names() {
    assert_eq!(sub_column_name(Field::BlockNumber, Part::Values), "block_number_values");
    assert_eq!(sub_column_name(Field::BlockNumber, Part::Counts), "block_number_counts");
    assert_eq!(sub_column_name(Field::TransactionHash, Part::Index), "transaction_hash_index");
    assert_eq!(sub_column_name(Field::ValueString, Part::Normalized), "value_string_normalized");
    assert_eq!(sub_column_name(Field::Address, Part::FromWidth), "address_from_width");
    assert_eq!(field_name(Field::ChainId), "chain_id");
}
