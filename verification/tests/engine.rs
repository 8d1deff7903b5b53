//! The engine's behavior on structured and plain-text secrets, rendered to
//! the Env and CSV formats.

use sm2env::classify::classify;
use sm2env::model::{RenderOutcome, RenderTarget};
use sm2env::render::render;

fn rendered_to_file(payload: &sm2env::model::RawPayload, target: RenderTarget, path: &str) -> Vec<u8> {
    match render(payload, target, Some(path.to_string())) {
        Ok(RenderOutcome::WriteFile { path: p, content }) => {
            assert_eq!(p, path);
            content
        },
        Ok(_) => panic!("expected a file write"),
        Err(e) => panic!("render failed: {:?}", e),
    }
}

#[test]
fn test_json_secret_to_env_format() {
    let file_path = "out.env".to_string();

    let json = br#"{
        "KEY1": "value1",
        "KEY2": "value2",
        "KEY3": "value with spaces"
    }"#;
    let payload = classify(json.to_vec()).unwrap();
    let content = rendered_to_file(&payload, RenderTarget::EnvFile, &file_path);
    let expected = "KEY1=value1\nKEY2=value2\nKEY3=value with spaces\n";
    assert_eq!(String::from_utf8(content).unwrap(), expected);

    let json = br#"{
        "KEY1": "\"quoted value\"",
        "KEY2": "\"another quoted value\""
    }"#;
    let payload = classify(json.to_vec()).unwrap();
    let content = rendered_to_file(&payload, RenderTarget::EnvFile, &file_path);
    let expected = "KEY1=quoted value\nKEY2=another quoted value\n";
    assert_eq!(String::from_utf8(content).unwrap(), expected);
}

#[test]
fn test_plain_text_secret_to_env_format() {
    let file_path = "out.env".to_string();

    let text = "KEY1=value1\nKEY2=value2\nKEY3=value with spaces".to_string();
    let payload = classify(text.into_bytes()).unwrap();
    let content = rendered_to_file(&payload, RenderTarget::EnvFile, &file_path);
    let expected = "KEY1=value1\nKEY2=value2\nKEY3=value with spaces\n";
    assert_eq!(String::from_utf8(content).unwrap(), expected);

    let text = "KEY1=\"quoted value\"\nKEY2=\"another quoted value\"".to_string();
    let payload = classify(text.into_bytes()).unwrap();
    let content = rendered_to_file(&payload, RenderTarget::EnvFile, &file_path);
    let expected = "KEY1=quoted value\nKEY2=another quoted value\n";
    assert_eq!(String::from_utf8(content).unwrap(), expected);
}

#[test]
fn test_json_secret_to_csv_format() {
    let file_path = "out.csv".to_string();

    let json = br#"{
        "KEY1": "value1",
        "KEY2": "value2",
        "KEY3": "value with spaces"
    }"#;
    let payload = classify(json.to_vec()).unwrap();
    let content = String::from_utf8(rendered_to_file(&payload, RenderTarget::Csv, &file_path))
        .unwrap();
    assert!(content.contains("key,value"));
    assert!(content.contains("KEY1,value1"));
    assert!(content.contains("KEY2,value2"));
    assert!(content.contains("KEY3,value with spaces"));

    let json = br#"{
        "KEY1": "\"quoted value\"",
        "KEY2": "\"another quoted value\""
    }"#;
    let payload = classify(json.to_vec()).unwrap();
    let content = String::from_utf8(rendered_to_file(&payload, RenderTarget::Csv, &file_path))
        .unwrap();
    assert!(content.contains("key,value"));
    assert!(content.contains("KEY1,quoted value"));
    assert!(content.contains("KEY2,another quoted value"));
}

#[test]
fn test_plain_text_secret_to_csv_format() {
    let file_path = "out.csv".to_string();

    let text = "KEY1=value1\nKEY2=value2\nKEY3=value with spaces".to_string();
    let payload = classify(text.into_bytes()).unwrap();
    let content = String::from_utf8(rendered_to_file(&payload, RenderTarget::Csv, &file_path))
        .unwrap();
    assert!(content.contains("key,value"));
    assert!(content.contains("KEY1,value1"));
    assert!(content.contains("KEY2,value2"));
    assert!(content.contains("KEY3,value with spaces"));

    let text = "KEY1=\"quoted value\"\nKEY2=\"another quoted value\"".to_string();
    let payload = classify(text.into_bytes()).unwrap();
    let content = String::from_utf8(rendered_to_file(&payload, RenderTarget::Csv, &file_path))
        .unwrap();
    assert!(content.contains("key,value"));
    assert!(content.contains("KEY1,quoted value"));
    assert!(content.contains("KEY2,another quoted value"));
}
