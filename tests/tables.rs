use blade::classify::{Field, UniquenessThreshold};
use blade::error::CodecError;
use blade::report::CompressionReport;
use blade::table::{AddressArtifact, TransferTable};

fn texts(items: &[&str]) -> Vec<String> {
    items.iter().map(|s| s.to_string()).collect()
}

fn empty_table() -> TransferTable {
    TransferTable {
        block_number: None,
        transaction_index: None,
        log_index: None,
        transaction_hash: None,
        erc20: None,
        from_address: None,
        to_address: None,
        value_string: None,
        chain_id: None,
    }
}

#[test]
fn block_number_table() {
    let mut table = empty_table();
    table.block_number = Some(vec![10, 10, 10, 11, 11, 12]);
    let (compressed, reports) = table.compress(UniquenessThreshold::standard()).unwrap();
    let runs = compressed.block_number.as_ref().unwrap();
    assert_eq!(runs.values, vec![10, 11, 12]);
    assert_eq!(runs.counts, vec![3, 2, 1]);
    assert_eq!(
        reports,
        vec![CompressionReport { field: Field::BlockNumber, original_size_bytes: 24, encoded_size_bytes: 24 }]
    );
    let restored = compressed.decompress().unwrap();
    assert_eq!(restored.block_number, Some(vec![10, 10, 10, 11, 11, 12]));
}

#[test]
fn from_address_pass_through() {
    let mut table = empty_table();
    table.from_address = Some(texts(&["0xAA", "0xBB", "0xAA"]));
    let (compressed, reports) = table.compress(UniquenessThreshold::standard()).unwrap();
    match compressed.addresses {
        Some(AddressArtifact::Plain { ref from, ref to }) => {
            assert_eq!(from.as_ref().unwrap(), &texts(&["0xAA", "0xBB", "0xAA"]));
            assert!(to.is_none());
        }
        _ => panic!("expected the text to pass through"),
    }
    assert_eq!(reports.len(), 1);
    assert_eq!(reports[0].original_size_bytes, reports[0].encoded_size_bytes);
}

#[test]
fn empty_column_gives_empty_artifact() {
    let mut table = empty_table();
    table.block_number = Some(Vec::new());
    let (compressed, reports) = table.compress(UniquenessThreshold::standard()).unwrap();
    let runs = compressed.block_number.as_ref().unwrap();
    assert!(runs.values.is_empty());
    assert!(runs.counts.is_empty());
    assert_eq!(reports.len(), 1);
    assert_eq!(reports[0].original_size_bytes, 0);
    assert_eq!(reports[0].encoded_size_bytes, 0);
    assert_eq!(reports[0].ratio(), (1, 1));
}

#[test]
fn redundant_addresses_share_a_pair_dictionary() {
    let mut from = Vec::new();
    let mut to = Vec::new();
    for k in 0..10 {
        from.push(if k % 2 == 0 { "0x0A".to_string() } else { "0x0b".to_string() });
        to.push("0xFF".to_string());
    }
    let mut table = empty_table();
    table.from_address = Some(from);
    table.to_address = Some(to);
    let (compressed, reports) = table.compress(UniquenessThreshold::standard()).unwrap();
    match compressed.addresses {
        Some(AddressArtifact::Pairs(ref d)) => {
            assert_eq!(d.values, vec![(vec![0x0a], vec![0xff]), (vec![0x0b], vec![0xff])]);
            assert_eq!(d.index, vec![0, 1, 0, 1, 0, 1, 0, 1, 0, 1]);
        }
        _ => panic!("expected a pair dictionary"),
    }
    assert_eq!(reports[0].field, Field::Address);
    let restored = compressed.decompress().unwrap();
    let from_back = restored.from_address.unwrap();
    assert_eq!(from_back[0], "0x0a");
    assert_eq!(from_back[1], "0x0b");
    assert_eq!(restored.to_address.unwrap()[3], "0xff");
}

#[test]
fn uniqueness_threshold_selects_codec() {
    // 29 distinct values in 100 rows selects a dictionary; 31 keeps the text.
    let column = |distinct: usize| -> Vec<String> {
        (0..100).map(|k| format!("0x{:02x}", k % distinct)).collect()
    };
    let mut table = empty_table();
    table.from_address = Some(column(29));
    let (compressed, _) = table.compress(UniquenessThreshold::standard()).unwrap();
    match compressed.addresses {
        Some(AddressArtifact::From(ref d)) => assert_eq!(d.values.len(), 29),
        _ => panic!("expected a dictionary"),
    }
    table.from_address = Some(column(31));
    let (compressed, _) = table.compress(UniquenessThreshold::standard()).unwrap();
    assert!(matches!(compressed.addresses, Some(AddressArtifact::Plain { .. })));
}

#[test]
fn transaction_hashes_round_trip() {
    let mut table = empty_table();
    table.transaction_hash = Some(texts(&["0x01ab", "0x01ab", "0xff00"]));
    let (compressed, _) = table.compress(UniquenessThreshold::standard()).unwrap();
    let d = compressed.transaction_hash.as_ref().unwrap();
    assert_eq!(d.values, vec![vec![0x01, 0xab], vec![0xff, 0x00]]);
    assert_eq!(d.index, vec![0, 0, 1]);
    let restored = compressed.decompress().unwrap();
    assert_eq!(restored.transaction_hash, Some(texts(&["0x01ab", "0x01ab", "0xff00"])));
}

#[test]
fn bad_hash_fails_the_whole_run() {
    let mut table = empty_table();
    table.block_number = Some(vec![1, 2]);
    table.transaction_hash = Some(texts(&["0x01", "xyz"]));
    assert!(matches!(
        table.compress(UniquenessThreshold::standard()),
        Err(CodecError::InvalidEncoding { field: Field::TransactionHash, row: 1 })
    ));
}

#[test]
fn bad_value_string_fails_the_whole_run() {
    let mut table = empty_table();
    table.value_string = Some(texts(&["10", "not a number"]));
    assert!(matches!(
        table.compress(UniquenessThreshold::standard()),
        Err(CodecError::InvalidEncoding { field: Field::ValueString, row: 1 })
    ));
}

#[test]
fn all_columns_round_trip() {
    let table = TransferTable {
        block_number: Some(vec![7, 7, 8]),
        transaction_index: Some(vec![0, 1, 2]),
        log_index: Some(vec![3, 3, 3]),
        transaction_hash: Some(texts(&["0xaa", "0xbb", "0xaa"])),
        erc20: Some(texts(&["USDC", "USDC", "DAI"])),
        from_address: Some(texts(&["0x01", "0x02", "0x03"])),
        to_address: Some(texts(&["0x04", "0x05", "0x06"])),
        value_string: Some(texts(&["100", "250", "1"])),
        chain_id: Some(vec![1, 1, 1]),
    };
    let (compressed, reports) = table.compress(UniquenessThreshold::standard()).unwrap();
    let fields: Vec<Field> = reports.iter().map(|r| r.field).collect();
    assert_eq!(
        fields,
        vec![
            Field::BlockNumber,
            Field::TransactionIndex,
            Field::LogIndex,
            Field::TransactionHash,
            Field::Erc20,
            Field::FromAddress,
            Field::ToAddress,
            Field::ValueString,
            Field::ChainId,
        ]
    );
    assert_eq!(compressed.value_string.as_ref().unwrap().len(), 3);
    let restored = compressed.decompress().unwrap();
    assert_eq!(restored.block_number, table.block_number);
    assert_eq!(restored.transaction_index, table.transaction_index);
    assert_eq!(restored.log_index, table.log_index);
    assert_eq!(restored.transaction_hash, table.transaction_hash);
    assert_eq!(restored.erc20, table.erc20);
    assert_eq!(restored.from_address, table.from_address);
    assert_eq!(restored.to_address, table.to_address);
    assert_eq!(restored.chain_id, table.chain_id);
    assert!(restored.value_string.is_none());
}

#[test]
fn nothing_to_merge() {
    let table = empty_table();
    let (compressed, reports) = table.compress(UniquenessThreshold::standard()).unwrap();
    assert!(reports.is_empty());
    assert_eq!(compressed.check_mergeable(), Err(CodecError::EmptyArtifactSet));
}

#[test]
fn corrupt_artifact_fails_decompression() {
    let mut table = empty_table();
    table.chain_id = Some(vec![5, 5]);
    table.erc20 = Some(texts(&["A"]));
    let (mut compressed, _) = table.compress(UniquenessThreshold::standard()).unwrap();
    assert_eq!(compressed.check_mergeable(), Ok(()));
    compressed.chain_id.as_mut().unwrap().counts[0] = 0;
    assert!(matches!(compressed.decompress(), Err(CodecError::MalformedArtifact)));
}

#[test]
fn bad_redundant_address_names_its_column() {
    let mut table = empty_table();
    let mut to = vec!["0x01".to_string(); 9];
    to.push("0xnothex".to_string());
    table.from_address = Some(vec!["0x02".to_string(); 10]);
    table.to_address = Some(to);
    assert!(matches!(
        table.compress(UniquenessThreshold::standard()),
        Err(CodecError::InvalidEncoding { field: Field::ToAddress, row: 9 })
    ));
}

#[test]
fn tables_without_addresses_fit() {
    let mut table = empty_table();
    assert!(table.fits());
    table.block_number = Some(vec![1]);
    table.to_address = Some(texts(&["0x01"]));
    assert!(table.fits());
    table.from_address = Some(texts(&["0x01", "0x02"]));
    assert!(!table.fits());
}

#[test]
fn value_strings_are_rescaled_in_the_table() {
    let mut table = empty_table();
    table.value_string = Some(texts(&["250", "3.5"]));
    let (compressed, reports) = table.compress(UniquenessThreshold::standard()).unwrap();
    let values = compressed.value_string.unwrap();
    assert_eq!(values[0].digits, "250");
    assert_eq!(values[0].scale, 1);
    assert_eq!(values[1].digits, "35");
    assert_eq!(values[1].scale, 2);
    assert_eq!(reports[0].field, Field::ValueString);
}

#[test]
fn requested_column_must_be_present() {
    let mut table = empty_table();
    table.erc20 = Some(texts(&["A", "A"]));
    assert_eq!(table.require_columns(&vec![Field::Erc20]), Ok(()));
    assert_eq!(table.require_columns(&vec![Field::Erc20, Field::ChainId]), Err(CodecError::MissingColumn));
    assert_eq!(table.require_columns(&vec![]), Ok(()));
}
