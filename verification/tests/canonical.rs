use nautilus_agents::protocol::canonical::{observation_content_bytes, sha256_bytes};
use nautilus_agents::testing::valid_observation;

#[test]
fn test_sha256_of_known_bytes() {
    assert_eq!(
        sha256_bytes(b"abc").as_str(),
        "sha256:ba7816bf8f01cfea414140de5dae2223b00361a396177a9cb410ff61f20015ad"
    );
    assert_eq!(
        sha256_bytes(b"").as_str(),
        "sha256:e3b0c44298fc1c149afbf4c8996fb92427ae41e4649b934ca495991b7852b855"
    );
}

#[test]
fn test_observation_content_is_canonical_json_without_digest() {
    let observation = valid_observation();
    let expected = [
        r#"{"created_at":"1712400000000000101","expires_at":"1712400030000000202","#,
        r#""grant":{"expires_at":"1712400060000000303","instruments":["BTCUSDT.BINANCE"],"#,
        r#""observations":["position_summary","instrument_summary"],"#,
        r#""proposals":["reduce_position"]},"#,
        r#""id":"10000000-0000-4000-8000-000000000011","omissions":[],"#,
        r#""payload":{"live":{"instruments":[{"instrument_id":"BTCUSDT.BINANCE","quantity_increment":"0.25"}],"#,
        r#""positions":[{"instrument_id":"BTCUSDT.BINANCE","position_id":"P-197","quantity":"2.75","side":"long","updated_at":"1712399997000000606"}]}},"#,
        r#""provenance":[{"field":"/payload/live/positions","observed_at":"1712399999000000404","source":"position_state","version":"position-revision-17"},"#,
        r#"{"field":"/payload/live/instruments","observed_at":"1712399998000000505","source":"instrument_definition","version":"instrument-revision-23"}],"#,
        r#""retention":"derived","version":{"major":1,"minor":0}}"#,
    ]
    .join("");
    let bytes = observation_content_bytes(&observation);
    assert_eq!(String::from_utf8(bytes.clone()).unwrap(), expected);
    assert_eq!(
        observation.digest.as_str(),
        sha256_bytes(&bytes).as_str()
    );
}

#[test]
fn test_observation_content_matches_json_canonicalization() {
    let mut observation = valid_observation();
    observation.provenance[0].version = Some("rev \"7\" \\ tab\t nl\n bell\u{7} caf\u{e9} \u{2713} \u{1f600}".to_owned());
    observation.provenance[1].version = None;
    observation.refresh_digest().unwrap();
    let bytes = observation_content_bytes(&observation);
    let value: serde_json::Value = serde_json::from_slice(&bytes).unwrap();
    assert_eq!(serde_json_canonicalizer::to_vec(&value).unwrap(), bytes);
    assert_eq!(
        observation.digest.as_str(),
        sha256_bytes(&serde_json_canonicalizer::to_vec(&value).unwrap()).as_str()
    );
}
