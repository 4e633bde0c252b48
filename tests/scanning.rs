use checkcoinbase::block::{get_block_data, get_block_hash, process_block, BlockError};
use checkcoinbase::coinbase::{decode_coinbase, get_coinbase_data};
use checkcoinbase::json::{field, first, parse_json, Json};
use checkcoinbase::range::{next_block, parse_block_number, parse_range, BlockRange, UsageError};

fn args(items: &[&str]) -> Vec<String> {
    items.iter().map(|s| s.to_string()).collect()
}

fn doc(text: &str) -> Json {
    parse_json(text.as_bytes()).expect("test document is JSON")
}

#[test]
fn single_argument_is_one_block() {
    assert_eq!(parse_range(&args(&["5"])), Ok(BlockRange { start: 5, end: 5 }));
    assert_eq!(parse_range(&args(&["0"])), Ok(BlockRange { start: 0, end: 0 }));
}

#[test]
fn two_arguments_in_order() {
    assert_eq!(parse_range(&args(&["3", "9"])), Ok(BlockRange { start: 3, end: 9 }));
    assert_eq!(parse_range(&args(&["7", "7"])), Ok(BlockRange { start: 7, end: 7 }));
}

#[test]
fn two_arguments_reversed_are_refused() {
    assert_eq!(parse_range(&args(&["9", "3"])), Err(UsageError::StartAfterEnd));
}

#[test]
fn non_numeric_argument_is_refused() {
    assert_eq!(parse_range(&args(&["x"])), Err(UsageError::NotANumber));
    assert_eq!(parse_range(&args(&["1", "y"])), Err(UsageError::NotANumber));
    assert_eq!(parse_range(&args(&["-1"])), Err(UsageError::NotANumber));
}

#[test]
fn wrong_argument_count_is_refused() {
    assert_eq!(parse_range(&args(&[])), Err(UsageError::ArgumentCount));
    assert_eq!(parse_range(&args(&["1", "2", "3"])), Err(UsageError::ArgumentCount));
}

#[test]
fn block_numbers_follow_integer_parsing() {
    assert_eq!(parse_block_number(&"123".to_string()), Some(123));
    assert_eq!(parse_block_number(&"+42".to_string()), Some(42));
    assert_eq!(parse_block_number(&"007".to_string()), Some(7));
    assert_eq!(parse_block_number(&"18446744073709551615".to_string()), Some(u64::MAX));
    assert_eq!(parse_block_number(&"18446744073709551616".to_string()), None);
    assert_eq!(parse_block_number(&"".to_string()), None);
    assert_eq!(parse_block_number(&"+".to_string()), None);
    assert_eq!(parse_block_number(&"1 ".to_string()), None);
    assert_eq!(parse_block_number(&"١".to_string()), None);
}

#[test]
fn range_is_walked_to_its_end() {
    let range = BlockRange { start: u64::MAX - 1, end: u64::MAX };
    assert_eq!(next_block(&range, u64::MAX - 1), Some(u64::MAX));
    assert_eq!(next_block(&range, u64::MAX), None);
}

#[test]
fn coinbase_is_extracted_and_decoded() {
    let block = doc(r#"{"tx":[{"vin":[{"coinbase":"48656c6c6f"}]}]}"#);
    assert_eq!(get_coinbase_data(&block), Some("48656c6c6f".to_string()));
    assert_eq!(decode_coinbase(&"48656c6c6f".to_string()), Ok("Hello".to_string()));
    assert_eq!(process_block(&block), Ok(Some("Hello".to_string())));
}

#[test]
fn empty_transaction_list_has_no_coinbase() {
    let block = doc(r#"{"tx":[]}"#);
    assert_eq!(get_coinbase_data(&block), None);
    assert_eq!(process_block(&block), Ok(None));
}

#[test]
fn missing_or_mistyped_fields_have_no_coinbase() {
    for text in [
        r#"{}"#,
        r#"{"tx":{}}"#,
        r#"{"tx":[{}]}"#,
        r#"{"tx":[{"vin":[]}]}"#,
        r#"{"tx":[{"vin":[{"txid":"ab"}]}]}"#,
        r#"{"tx":[{"vin":[{"coinbase":5}]}]}"#,
        r#"[1,2]"#,
        r#""tx""#,
    ] {
        assert_eq!(get_coinbase_data(&doc(text)), None, "{}", text);
        assert_eq!(process_block(&doc(text)), Ok(None), "{}", text);
    }
}

#[test]
fn only_first_transaction_and_input_count() {
    let block = doc(r#"{"tx":[{"vin":[{"txid":"00"},{"coinbase":"41"}]},{"vin":[{"coinbase":"42"}]}]}"#);
    assert_eq!(get_coinbase_data(&block), None);
    let block = doc(r#"{"hash":"x","tx":[{"vin":[{"coinbase":"41","sequence":1}]},{"vin":[]}]}"#);
    assert_eq!(get_coinbase_data(&block), Some("41".to_string()));
}

#[test]
fn extraction_gives_the_same_result_twice() {
    let block = doc(r#"{"tx":[{"vin":[{"coinbase":"00ff"}]}]}"#);
    let first_result = get_coinbase_data(&block);
    assert_eq!(get_coinbase_data(&block), first_result);
    assert_eq!(process_block(&block), process_block(&block));
}

#[test]
fn hex_round_trip_reads_bytes_as_lossy_text() {
    let samples: Vec<Vec<u8>> = vec![
        vec![],
        b"Hello".to_vec(),
        vec![0xff, 0x41],
        vec![0xe2, 0x82, 0xac],
        (0u8..=255).collect(),
    ];
    for bytes in samples {
        let text = hex::encode(&bytes);
        let expected = String::from_utf8_lossy(&bytes).to_string();
        assert_eq!(decode_coinbase(&text), Ok(expected));
    }
    assert_eq!(decode_coinbase(&"ff41".to_string()), Ok("\u{FFFD}A".to_string()));
    assert_eq!(decode_coinbase(&"E282AC".to_string()), Ok("€".to_string()));
}

#[test]
fn malformed_hex_is_refused() {
    assert!(decode_coinbase(&"zz".to_string()).is_err());
    assert!(decode_coinbase(&"abc".to_string()).is_err());
    let block = doc(r#"{"tx":[{"vin":[{"coinbase":"zz"}]}]}"#);
    assert!(matches!(process_block(&block), Err(BlockError::HexDecode(_))));
}

#[test]
fn hash_lookup_output_is_trimmed() {
    assert_eq!(get_block_hash(true, b"  00ab\n", b""), Ok("00ab".to_string()));
    assert_eq!(
        get_block_hash(false, b"", b"error code: -8"),
        Err(BlockError::Resolution("error code: -8".to_string()))
    );
}

#[test]
fn block_fetch_outcomes() {
    assert!(matches!(
        get_block_data(false, b"", b"Block not found"),
        Err(BlockError::Fetch(m)) if m == "Block not found"
    ));
    assert!(matches!(get_block_data(true, b"not json", b""), Err(BlockError::Parse(_))));
    let block = get_block_data(true, br#"{"tx":[{"vin":[{"coinbase":"4869"}]}]}"#, b"").unwrap();
    assert_eq!(process_block(&block), Ok(Some("Hi".to_string())));
}

#[test]
fn failed_fetch_does_not_stop_the_range() {
    let range = parse_range(&args(&["100", "102"])).unwrap();
    let good = br#"{"tx":[{"vin":[{"coinbase":"6f6b"}]}]}"#;
    let mut lines = Vec::new();
    let mut current = Some(range.start);
    while let Some(n) = current {
        let hash = get_block_hash(true, format!("hash{}\n", n).as_bytes(), b"").unwrap();
        assert_eq!(hash, format!("hash{}", n));
        let fetched = if n == 101 {
            get_block_data(false, b"", b"boom")
        } else {
            get_block_data(true, good, b"")
        };
        let line = match fetched.and_then(|b| process_block(&b)) {
            Ok(Some(text)) => format!("{}: {}", n, text),
            Ok(None) => format!("{}: none", n),
            Err(e) => format!("{}: error {:?}", n, e),
        };
        lines.push(line);
        current = next_block(&range, n);
    }
    assert_eq!(
        lines,
        vec![
            "100: ok".to_string(),
            "101: error Fetch(\"boom\")".to_string(),
            "102: ok".to_string(),
        ]
    );
}

#[test]
fn json_tree_keeps_values() {
    let value = doc(r#"{"a":[1.5,true,null,"s"]}"#);
    let items = field(&value, &"a".to_string()).unwrap();
    assert!(matches!(first(items), Some(Json::Number(n)) if n == "1.5"));
    assert!(field(&value, &"b".to_string()).is_none());
    assert!(parse_json(b"{").is_err());
}
