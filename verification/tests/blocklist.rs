use ipblocklist::addr::parse_quad;
use ipblocklist::checker::{BlocklistChecker, BlocklistCheckerStore, BlocklistStore, SharedBlocklist};
use ipblocklist::codec::{decode_address, encode_address};
use ipblocklist::downloader::{parse, parse_line, Downloader, FetchOutcome, NOT_MODIFIED};
use ipblocklist::persister::BlocklistPersister;

#[test]
fn test_roundtrip() {
    let persister = BlocklistPersister {};
    let addresses = vec![0u32, 1u32];
    let bytes = persister.persist(&addresses);
    let loaded = persister.load(&bytes);
    let it = addresses.into_iter();
    assert!(it.eq(loaded.into_iter()));
}

#[test]
fn roundtrip_many_addresses() {
    let persister = BlocklistPersister {};
    let addresses = vec![0u32, 0x01020304, 0xffffffff, 0x7f000001, 42];
    let bytes = persister.persist(&addresses);
    assert_eq!(bytes.len(), 4 * addresses.len());
    let loaded = persister.load(&bytes);
    assert_eq!(loaded, addresses);
}

#[test]
fn truncated_file_keeps_complete_records() {
    let persister = BlocklistPersister {};
    let addresses = vec![0x01020304u32, 0x05060708u32];
    let mut bytes = persister.persist(&addresses);
    bytes.push(0xde);
    bytes.push(0xad);
    bytes.push(0xbe);
    let loaded = persister.load(&bytes);
    assert_eq!(loaded, addresses);
}

#[test]
fn empty_file_loads_nothing() {
    let persister = BlocklistPersister {};
    let loaded = persister.load(&[]);
    assert!(loaded.is_empty());
}

#[test]
fn codec_is_big_endian() {
    assert_eq!(encode_address(0x01020304), [1, 2, 3, 4]);
    assert_eq!(encode_address(0), [0, 0, 0, 0]);
    assert_eq!(encode_address(0xffffffff), [255, 255, 255, 255]);
    assert_eq!(decode_address(1, 2, 3, 4), 0x01020304);
    assert_eq!(decode_address(255, 0, 0, 1), 0xff000001);
}

#[test]
fn quad_accepts_well_formed_addresses() {
    assert_eq!(parse_quad(b"1.2.3.4"), Some(0x01020304));
    assert_eq!(parse_quad(b"0.0.0.0"), Some(0));
    assert_eq!(parse_quad(b"255.255.255.255"), Some(0xffffffff));
    assert_eq!(parse_quad(b"127.0.0.1"), Some(0x7f000001));
}

#[test]
fn quad_rejects_malformed_addresses() {
    assert_eq!(parse_quad(b""), None);
    assert_eq!(parse_quad(b"not-an-ip"), None);
    assert_eq!(parse_quad(b"1.2.3"), None);
    assert_eq!(parse_quad(b"1.2.3.4.5"), None);
    assert_eq!(parse_quad(b"256.1.1.1"), None);
    assert_eq!(parse_quad(b"1.2.3.999"), None);
    assert_eq!(parse_quad(b"01.2.3.4"), None);
    assert_eq!(parse_quad(b"1..2.3"), None);
    assert_eq!(parse_quad(b"1.2.3.4 "), None);
    assert_eq!(parse_quad(b"-1.2.3.4"), None);
}

#[test]
fn line_filtering() {
    let body = b"# comment\n1.2.3.4 extra-ignored-field\n\nnot-an-ip\n5.6.7.8\n";
    let parsed = parse(body);
    assert_eq!(parsed, vec![0x01020304, 0x05060708]);
}

#[test]
fn line_rules() {
    assert_eq!(parse_line(b"# 1.2.3.4"), None);
    assert_eq!(parse_line(b"#1.2.3.4"), None);
    assert_eq!(parse_line(b""), None);
    assert_eq!(parse_line(b"   "), None);
    assert_eq!(parse_line(b"  1.2.3.4 trailing"), Some(0x01020304));
    assert_eq!(parse_line(b"1.2.3.4\n"), Some(0x01020304));
    assert_eq!(parse_line(b"9.9.9.9\r\n"), Some(0x09090909));
}

#[test]
fn body_with_duplicates_keeps_order() {
    let body = b"1.1.1.1\n2.2.2.2\n1.1.1.1\n";
    let parsed = parse(body);
    assert_eq!(parsed, vec![0x01010101, 0x02020202, 0x01010101]);
}

#[test]
fn store_starts_empty_without_db() {
    let store = BlocklistCheckerStore::new(None);
    assert!(!store.contains(0));
    assert!(!store.contains(0x01020304));
    assert!(!store.contains(0xffffffff));
}

#[test]
fn store_loads_and_deduplicates() {
    let store = BlocklistCheckerStore::new(Some(vec![1, 2, 2, 3, 1]));
    assert!(store.contains(1));
    assert!(store.contains(2));
    assert!(store.contains(3));
    assert!(!store.contains(4));
    let mut snapshot = store.addresses();
    snapshot.sort();
    assert_eq!(snapshot, vec![1, 2, 3]);
}

#[test]
fn set_addresses_replaces_wholesale() {
    let mut store = BlocklistCheckerStore::new(Some(vec![10, 20]));
    store.set_addresses(&vec![30, 40]);
    assert!(!store.contains(10));
    assert!(!store.contains(20));
    assert!(store.contains(30));
    assert!(store.contains(40));
}

#[test]
fn empty_feed_clears_store() {
    let mut store = BlocklistCheckerStore::new(Some(vec![0x01020304, 0x05060708]));
    let mut downloader = Downloader::new();
    let action = downloader.refresh(FetchOutcome::Received {
        status: 200,
        e_tag: None,
        body: b"# nothing today\n".to_vec(),
    });
    let installed = action.expect("a success response installs its parsed body");
    assert!(installed.is_empty());
    store.set_addresses(&installed);
    assert!(!store.contains(0x01020304));
    assert!(!store.contains(0x05060708));
}

#[test]
fn not_modified_is_a_no_op() {
    let mut downloader = Downloader::new();
    let action = downloader.refresh(FetchOutcome::Received {
        status: 200,
        e_tag: Some(String::from("\"v1\"")),
        body: b"1.2.3.4\n".to_vec(),
    });
    assert_eq!(action, Some(vec![0x01020304]));
    assert_eq!(downloader.e_tag, "\"v1\"");

    let action = downloader.refresh(FetchOutcome::Received {
        status: NOT_MODIFIED,
        e_tag: Some(String::from("\"v2\"")),
        body: Vec::new(),
    });
    assert_eq!(action, None);
    assert_eq!(downloader.e_tag, "\"v1\"");
}

#[test]
fn transport_failure_changes_nothing() {
    let mut downloader = Downloader::new();
    let action = downloader.refresh(FetchOutcome::Failed);
    assert_eq!(action, None);
    assert_eq!(downloader.e_tag, "");
}

#[test]
fn non_success_status_changes_nothing() {
    let mut downloader = Downloader::new();
    let action = downloader.refresh(FetchOutcome::Received {
        status: 500,
        e_tag: Some(String::from("\"v9\"")),
        body: b"1.2.3.4\n".to_vec(),
    });
    assert_eq!(action, None);
    assert_eq!(downloader.e_tag, "");
}

#[test]
fn success_without_validator_keeps_previous_e_tag() {
    let mut downloader = Downloader::new();
    downloader.refresh(FetchOutcome::Received {
        status: 200,
        e_tag: Some(String::from("\"v1\"")),
        body: Vec::new(),
    });
    assert_eq!(downloader.e_tag, "\"v1\"");

    let action = downloader.refresh(FetchOutcome::Received {
        status: 204,
        e_tag: None,
        body: b"8.8.8.8\n".to_vec(),
    });
    assert_eq!(action, Some(vec![0x08080808]));
    assert_eq!(downloader.e_tag, "\"v1\"");

    let action = downloader.refresh(FetchOutcome::Received {
        status: 200,
        e_tag: Some(String::new()),
        body: Vec::new(),
    });
    assert_eq!(action, Some(Vec::new()));
    assert_eq!(downloader.e_tag, "\"v1\"");
}

#[test]
fn shared_store_replaces_wholesale() {
    let shared = SharedBlocklist::new(Some(vec![10, 20]));
    assert!(shared.contains(10));
    assert!(shared.contains(20));
    assert!(!shared.contains(30));
    let mut snapshot = shared.set_addresses(&vec![30, 40, 30]);
    snapshot.sort();
    assert_eq!(snapshot, vec![30, 40]);
    assert!(!shared.contains(10));
    assert!(!shared.contains(20));
    assert!(shared.contains(30));
    assert!(shared.contains(40));
}

#[test]
fn shared_store_starts_empty_without_db() {
    let shared = SharedBlocklist::new(None);
    assert!(!shared.contains(0));
    assert!(!shared.contains(0x7f000001));
}

#[test]
fn snapshot_round_trips_through_persistence() {
    let mut store = BlocklistCheckerStore::new(None);
    store.set_addresses(&vec![0x01020304, 0x05060708, 0x01020304]);
    let persister = BlocklistPersister {};
    let bytes = persister.persist(&store.addresses());
    let reloaded = BlocklistCheckerStore::new(Some(persister.load(&bytes)));
    assert!(reloaded.contains(0x01020304));
    assert!(reloaded.contains(0x05060708));
    assert!(!reloaded.contains(0x01020305));
}
