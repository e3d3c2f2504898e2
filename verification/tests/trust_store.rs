use syncer::model::{DeviceId, PeerDevice, TrustStoreError};
use syncer::trust_store::{decode_field, encode_field, split_lines, FileTrustStore};

fn parse_message(result: Result<String, TrustStoreError>) -> String {
    match result {
        Err(TrustStoreError::Parse(m)) => m,
        other => panic!("expected a parse error, got {:?}", other),
    }
}

#[test]
fn trust_store_persists_and_recovers_devices() {
    let mut store = FileTrustStore::new("trust.db".to_string());
    let contents = store.upsert(PeerDevice {
        id: DeviceId("remote-1".into()),
        display_name: "Phone".into(),
    });

    let mut recovered = FileTrustStore::new("trust.db".to_string());
    recovered.load_contents(&contents).expect("load trust store");
    let devices = recovered.devices();
    assert_eq!(devices.len(), 1);
    assert_eq!(devices[0].id.0, "remote-1");
}

#[test]
fn trust_store_remove_device() {
    let mut store = FileTrustStore::new("trust.db".to_string());
    store.upsert(PeerDevice {
        id: DeviceId("remote-2".into()),
        display_name: "Tablet".into(),
    });
    let (removed, contents) = store.remove(&DeviceId("remote-2".into()));
    assert!(removed);
    assert!(store.devices().is_empty());
    assert_eq!(contents, "");
    let (again, _) = store.remove(&DeviceId("remote-2".into()));
    assert!(!again);
}

#[test]
fn file_format_is_escaped_tab_separated_lines() {
    let mut store = FileTrustStore::new("p".to_string());
    let contents = store.upsert(PeerDevice {
        id: DeviceId("a\tb".into()),
        display_name: "100%\nsure\r".into(),
    });
    assert_eq!(contents, "a%09b\t100%25%0Asure%0D");
}

#[test]
fn awkward_names_survive_a_round_trip() {
    let mut store = FileTrustStore::new("p".to_string());
    store.upsert(PeerDevice { id: DeviceId("x%y".into()), display_name: "tab\there".into() });
    let contents = store.upsert(PeerDevice { id: DeviceId("line\nbreak".into()), display_name: "".into() });
    let mut recovered = FileTrustStore::new("p".to_string());
    recovered.load_contents(&contents).expect("load");
    let mut devices = recovered.devices();
    devices.sort_by(|a, b| a.id.0.cmp(&b.id.0));
    assert_eq!(devices.len(), 2);
    assert_eq!(devices[0].id.0, "line\nbreak");
    assert_eq!(devices[0].display_name, "");
    assert_eq!(devices[1].id.0, "x%y");
    assert_eq!(devices[1].display_name, "tab\there");
}

#[test]
fn encode_and_decode_fields() {
    assert_eq!(encode_field("plain"), "plain");
    assert_eq!(encode_field("%\t\n\r"), "%25%09%0A%0D");
    assert_eq!(decode_field("%25%09%0A%0D").unwrap(), "%\t\n\r");
    assert_eq!(decode_field("héllo").unwrap(), "héllo");
}

#[test]
fn decode_field_rejects_bad_escapes() {
    assert_eq!(parse_message(decode_field("abc%")), "invalid escape");
    assert_eq!(parse_message(decode_field("%2")), "invalid escape");
    assert_eq!(parse_message(decode_field("%41")), "unsupported escape");
    assert_eq!(parse_message(decode_field("%0a")), "unsupported escape");
}

#[test]
fn line_without_tab_is_reported_with_its_number() {
    let mut store = FileTrustStore::new("p".to_string());
    let result = store.load_contents("a\tA\n\nbroken\nc\tC");
    match result {
        Err(TrustStoreError::Parse(m)) => assert_eq!(m, "invalid trust store line 3"),
        other => panic!("unexpected {:?}", other),
    }
    let devices = store.devices();
    assert_eq!(devices.len(), 1);
    assert_eq!(devices[0].id.0, "a");
}

#[test]
fn load_replaces_previous_devices_and_skips_empty_lines() {
    let mut store = FileTrustStore::new("p".to_string());
    store.upsert(PeerDevice { id: DeviceId("old".into()), display_name: "Old".into() });
    store.load_contents("\n\nnew\tNew\r\n").expect("load");
    let devices = store.devices();
    assert_eq!(devices.len(), 1);
    assert_eq!(devices[0].id.0, "new");
    assert_eq!(devices[0].display_name, "New");
}

#[test]
fn name_keeps_tabs_after_the_first() {
    let mut store = FileTrustStore::new("p".to_string());
    store.load_contents("id\tname\twith\ttabs").expect("load");
    assert_eq!(store.devices()[0].display_name, "name\twith\ttabs");
}

#[test]
fn lines_split_like_str_lines() {
    let text = "foo\nbar\n\r\nbaz\r";
    let expected: Vec<&str> = text.lines().collect();
    let got = split_lines(text);
    assert_eq!(got, expected);
    assert!(split_lines("").is_empty());
    assert_eq!(split_lines("\n"), vec![String::new()]);
    assert_eq!(split_lines("a\n"), vec!["a".to_string()]);
}

#[test]
fn store_keeps_its_path() {
    let store = FileTrustStore::new(".syncer/trust-store.db".to_string());
    assert_eq!(store.path(), ".syncer/trust-store.db");
}
