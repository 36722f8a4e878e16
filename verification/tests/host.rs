use reflexer::cli::flag_value;
use reflexer::proto::{codes, GENOME_ID, PROTO};
use reflexer::serve::{error_envelope, LineError};
use reflexer::wasm::info;

#[test]
fn info_names_the_genome() {
    assert!(info().contains(GENOME_ID));
}

#[test]
fn info_is_one_json_object() {
    assert_eq!(
        info(),
        format!(r#"{{"name":"reflexer","version":"0.1.0","proto":{PROTO},"genome":"{GENOME_ID}"}}"#)
    );
    let v: serde_json::Value = serde_json::from_str(&info()).unwrap();
    assert_eq!(v["genome"], GENOME_ID);
}

#[test]
fn flag_value_takes_the_next_argument() {
    let args: Vec<String> = ["reflexer", "--record", "rows.jsonl", "--record", "b"]
        .iter()
        .map(|s| s.to_string())
        .collect();
    assert_eq!(flag_value(&args, "--record"), Some("rows.jsonl".to_string()));
    assert_eq!(flag_value(&args[..2], "--record"), None);
    assert_eq!(flag_value(&args, "--version"), None);
}

#[test]
fn error_codes_vocabulary() {
    assert_eq!(
        [codes::BAD_JSON, codes::BAD_REQUEST, codes::BAD_STATE, codes::QUESTION_KIND, codes::OPTIONS_COUNT, codes::INTERNAL],
        ["bad_json", "bad_request", "bad_state", "question_kind", "options_count", "internal"]
    );
}

#[test]
fn failed_line_answers_its_typed_envelope() {
    let err = LineError { code: codes::BAD_JSON, message: "key must be a string at line 1 column 2".to_string() };
    let env = error_envelope(err, 7);
    assert_eq!(env.proto, PROTO);
    assert_eq!(env.error.code, "bad_json");
    assert_eq!(env.error.message, "key must be a string at line 1 column 2");
    assert_eq!(env.error.request_index, 7);
}
