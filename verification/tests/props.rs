//! Scenario tests: scalar and binary secrets in every format, CSV escaping,
//! the extraction round trip, the listing formatter, and the documented
//! Preview and passthrough quirks.

use base64::Engine;

use sm2env::bytes::to_decimal;
use sm2env::classify::{classify, classify_response};
use sm2env::extract::extract;
use sm2env::listing::{format_listing, listing_report};
use sm2env::model::{RawPayload, RenderOutcome, RenderTarget};
use sm2env::render::{csv_unescape_field, default_filename, render};

fn write_outcome(payload: &RawPayload, target: RenderTarget, file: Option<&str>) -> (String, Vec<u8>) {
    match render(payload, target, file.map(|f| f.to_string())) {
        Ok(RenderOutcome::WriteFile { path, content }) => (path, content),
        Ok(_) => panic!("expected a file write"),
        Err(e) => panic!("render failed: {:?}", e),
    }
}

fn printed_outcome(payload: &RawPayload, target: RenderTarget) -> Vec<u8> {
    match render(payload, target, None) {
        Ok(RenderOutcome::PrintText { content }) => content,
        Ok(_) => panic!("expected printed output"),
        Err(e) => panic!("render failed: {:?}", e),
    }
}

#[test]
fn scalar_text_to_env_json_csv() {
    let payload = classify(b"mysecretvalue".to_vec()).unwrap();

    let (path, content) = write_outcome(&payload, RenderTarget::EnvFile, None);
    assert_eq!(path, ".env");
    assert_eq!(String::from_utf8(content).unwrap(), "SECRET_VALUE=mysecretvalue\n");

    let (path, content) = write_outcome(&payload, RenderTarget::Json, None);
    assert_eq!(path, "secret.json");
    assert_eq!(String::from_utf8(content).unwrap(), "{\n  \"value\": \"mysecretvalue\"\n}");

    let (path, content) = write_outcome(&payload, RenderTarget::Csv, None);
    assert_eq!(path, "secret.csv");
    assert_eq!(String::from_utf8(content).unwrap(), "key,value\nvalue,mysecretvalue\n");

    let (path, content) = write_outcome(&payload, RenderTarget::Yaml, None);
    assert_eq!(path, "secret.yaml");
    assert_eq!(String::from_utf8(content).unwrap(), "value: mysecretvalue\n");
}

#[test]
fn scalar_with_one_equals_passes_through_env() {
    // A plain-text scalar holding `=` with no newline is already a valid
    // `.env` line: it is written unmodified, with no default key and no
    // added newline.
    let payload = classify(b"abc=def".to_vec()).unwrap();
    let (_, content) = write_outcome(&payload, RenderTarget::EnvFile, None);
    assert_eq!(content, b"abc=def".to_vec());

    // With two `=` and no newline, extraction does find a pair.
    let payload = classify(b"a=b=c".to_vec()).unwrap();
    let (_, content) = write_outcome(&payload, RenderTarget::EnvFile, None);
    assert_eq!(content, b"a=b=c\n".to_vec());
}

#[test]
fn comments_and_blank_lines_are_dropped() {
    let text = b"# comment\n\nA=1\n   \nB=2".to_vec();
    let payload = classify(text).unwrap();
    let (_, content) = write_outcome(&payload, RenderTarget::EnvFile, None);
    assert_eq!(String::from_utf8(content).unwrap(), "A=1\nB=2\n");
}

#[test]
fn empty_object_renders_empty() {
    let payload = classify(b"{}".to_vec()).unwrap();
    let (_, content) = write_outcome(&payload, RenderTarget::EnvFile, None);
    assert_eq!(content, Vec::<u8>::new());
    let (_, content) = write_outcome(&payload, RenderTarget::Csv, None);
    assert_eq!(content, b"key,value\n".to_vec());
}

#[test]
fn non_string_members_use_canonical_text() {
    let json = br#"{"A": 1, "B": true, "C": null, "D": {"x": "y"}}"#;
    let payload = classify(json.to_vec()).unwrap();
    let (_, content) = write_outcome(&payload, RenderTarget::EnvFile, None);
    assert_eq!(
        String::from_utf8(content).unwrap(),
        "A=1\nB=true\nC=null\nD={\"x\":\"y\"}\n"
    );
}

#[test]
fn non_object_document_is_rejected_for_env_and_csv() {
    let payload = classify(b"[1, 2]".to_vec()).unwrap();
    match render(&payload, RenderTarget::EnvFile, None).unwrap() {
        RenderOutcome::NotAnObject => {},
        _ => panic!("expected the not-an-object outcome"),
    }
    match render(&payload, RenderTarget::Csv, None).unwrap() {
        RenderOutcome::NotAnObject => {},
        _ => panic!("expected the not-an-object outcome"),
    }
    match render(&payload, RenderTarget::Preview, None).unwrap() {
        RenderOutcome::NotAnObject => {},
        _ => panic!("expected the not-an-object outcome"),
    }
    // JSON and YAML still render the document itself.
    let (path, content) = write_outcome(&payload, RenderTarget::Json, None);
    assert_eq!(path, "secret.json");
    assert_eq!(String::from_utf8(content).unwrap(), "[\n  1,\n  2\n]");
    // Preview combined with an explicit path writes the raw compact text.
    let (path, content) = write_outcome(&payload, RenderTarget::Preview, Some("raw.txt"));
    assert_eq!(path, "raw.txt");
    assert_eq!(content, b"[1,2]".to_vec());
}

#[test]
fn env_text_json_conversion() {
    let payload = classify(b"A=1\nB=2".to_vec()).unwrap();
    let (_, content) = write_outcome(&payload, RenderTarget::Json, None);
    assert_eq!(
        String::from_utf8(content).unwrap(),
        "{\n  \"A\": \"1\",\n  \"B\": \"2\"\n}"
    );
    let payload = classify(b"A=x\nB=y".to_vec()).unwrap();
    let (_, content) = write_outcome(&payload, RenderTarget::Yaml, None);
    assert_eq!(String::from_utf8(content).unwrap(), "A: x\nB: y\n");
}

#[test]
fn preview_of_text_prints_or_writes_verbatim() {
    let payload = classify(b"hello world".to_vec()).unwrap();
    let content = printed_outcome(&payload, RenderTarget::Preview);
    assert_eq!(content, b"hello world\n".to_vec());
    let (path, content) = write_outcome(&payload, RenderTarget::Preview, Some("raw.txt"));
    assert_eq!(path, "raw.txt");
    assert_eq!(content, b"hello world".to_vec());
}

#[test]
fn csv_quotes_delimiters_quotes_and_newlines() {
    let payload = classify(b"K=a,b\nJ=c\"d".to_vec()).unwrap();
    let (_, content) = write_outcome(&payload, RenderTarget::Csv, None);
    assert_eq!(
        String::from_utf8(content).unwrap(),
        "key,value\nK,\"a,b\"\nJ,\"c\"\"d\"\n"
    );
    // Unescaping each rendered field recovers the raw value.
    assert_eq!(csv_unescape_field(&b"\"a,b\"".to_vec()), b"a,b".to_vec());
    assert_eq!(csv_unescape_field(&b"\"c\"\"d\"".to_vec()), b"c\"d".to_vec());
    assert_eq!(csv_unescape_field(&b"plain".to_vec()), b"plain".to_vec());
}

#[test]
fn env_round_trip_recovers_entries() {
    let payload = classify(b"X=1\nY=2".to_vec()).unwrap();
    let (_, content) = write_outcome(&payload, RenderTarget::EnvFile, None);
    assert_eq!(content, b"X=1\nY=2\n".to_vec());
    // Extracting the rendered text yields the same pairs again.
    let reparsed = classify(content).unwrap();
    let entries = extract(&reparsed).unwrap();
    assert_eq!(entries.len(), 2);
    assert_eq!(entries[0].key, b"X".to_vec());
    assert_eq!(entries[0].value, b"1".to_vec());
    assert_eq!(entries[1].key, b"Y".to_vec());
    assert_eq!(entries[1].value, b"2".to_vec());
}

#[test]
fn binary_secret_base64_round_trip() {
    let bytes: Vec<u8> = vec![0, 1, 2, 255, 254, 100, 42];
    let payload = classify_response(None, Some(bytes.clone())).unwrap().unwrap();
    match &payload {
        RawPayload::Binary(b) => assert_eq!(*b, bytes),
        _ => panic!("expected a binary payload"),
    }
    let (path, content) = write_outcome(&payload, RenderTarget::EnvFile, None);
    assert_eq!(path, ".env");
    let text = String::from_utf8(content).unwrap();
    assert!(text.starts_with("BINARY_SECRET="));
    assert!(text.ends_with('\n'));
    let encoded = &text["BINARY_SECRET=".len()..text.len() - 1];
    // Four output characters for every started group of three input bytes.
    assert_eq!(encoded.len(), 4 * ((bytes.len() + 2) / 3));
    let decoded = base64::engine::general_purpose::STANDARD.decode(encoded).unwrap();
    assert_eq!(decoded, bytes);
}

#[test]
fn binary_secret_other_formats() {
    let payload = classify_response(None, Some(vec![0u8, 1, 2])).unwrap().unwrap();
    let (_, content) = write_outcome(&payload, RenderTarget::EnvFile, None);
    assert_eq!(String::from_utf8(content).unwrap(), "BINARY_SECRET=AAEC\n");
    let (_, content) = write_outcome(&payload, RenderTarget::Json, None);
    assert_eq!(
        String::from_utf8(content).unwrap(),
        "{\n  \"binary_data\": \"AAEC\"\n}"
    );
    let (_, content) = write_outcome(&payload, RenderTarget::Csv, None);
    assert_eq!(String::from_utf8(content).unwrap(), "key,value\nbinary_data,AAEC\n");
    let printed = printed_outcome(&payload, RenderTarget::Preview);
    assert_eq!(String::from_utf8(printed).unwrap(), "Binary secret data (3 bytes)\n");
    let (path, content) = write_outcome(&payload, RenderTarget::Preview, Some("raw.bin"));
    assert_eq!(path, "raw.bin");
    assert_eq!(content, vec![0u8, 1, 2]);
}

#[test]
fn string_payload_wins_over_binary() {
    let payload = classify_response(Some(b"plain".to_vec()), Some(vec![1u8, 2])).unwrap().unwrap();
    match payload {
        RawPayload::PlainText(t) => assert_eq!(t, b"plain".to_vec()),
        _ => panic!("expected the string payload to win"),
    }
    assert!(classify_response(None, None).unwrap().is_none());
}

#[test]
fn listing_filters_and_sorts() {
    let names: Vec<Vec<u8>> = vec![b"db-prod".to_vec(), b"cache".to_vec(), b"db-staging".to_vec()];
    let filtered = format_listing(&names, &Some(b"db".to_vec()));
    assert_eq!(filtered, vec![b"db-prod".to_vec(), b"db-staging".to_vec()]);
    let all = format_listing(&names, &None);
    assert_eq!(all, vec![b"cache".to_vec(), b"db-prod".to_vec(), b"db-staging".to_vec()]);
    let report = listing_report(&all);
    assert_eq!(
        String::from_utf8(report).unwrap(),
        "Available secrets:\n- cache\n- db-prod\n- db-staging\n\nTotal: 3 secrets\n"
    );
    let empty = format_listing(&names, &Some(b"zzz".to_vec()));
    assert_eq!(empty, Vec::<Vec<u8>>::new());
    assert_eq!(String::from_utf8(listing_report(&empty)).unwrap(), "No secrets found.\n");
}

#[test]
fn duplicate_keys_last_write_wins_in_mappings() {
    // In line-oriented text, duplicate keys stay as separate entries in
    // order; only the mapping renderers collapse them, last write winning.
    let payload = classify(b"A=1\nA=2".to_vec()).unwrap();
    let (_, content) = write_outcome(&payload, RenderTarget::EnvFile, None);
    assert_eq!(String::from_utf8(content).unwrap(), "A=1\nA=2\n");
    let (_, content) = write_outcome(&payload, RenderTarget::Csv, None);
    assert_eq!(String::from_utf8(content).unwrap(), "key,value\nA,1\nA,2\n");
    let (_, content) = write_outcome(&payload, RenderTarget::Json, None);
    assert_eq!(String::from_utf8(content).unwrap(), "{\n  \"A\": \"2\"\n}");
}

#[test]
fn default_filenames_match_contract() {
    assert_eq!(default_filename(RenderTarget::Preview), None);
    assert_eq!(default_filename(RenderTarget::EnvFile), Some(".env".to_string()));
    assert_eq!(default_filename(RenderTarget::Json), Some("secret.json".to_string()));
    assert_eq!(default_filename(RenderTarget::Yaml), Some("secret.yaml".to_string()));
    assert_eq!(default_filename(RenderTarget::Csv), Some("secret.csv".to_string()));
}

#[test]
fn decimal_formatting() {
    assert_eq!(to_decimal(0), b"0".to_vec());
    assert_eq!(to_decimal(7), b"7".to_vec());
    assert_eq!(to_decimal(907), b"907".to_vec());
    assert_eq!(to_decimal(1000), b"1000".to_vec());
}
