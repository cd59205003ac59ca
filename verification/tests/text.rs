use milestone_escrow::config::{
    compiled_code_for, missing_param, read_deployment, Config, ConfigError, Deployment, Environment, Validator, ESCROW_VALIDATOR, RECEIPT_VALIDATOR,
};
use milestone_escrow::text::{is_white_space, parse_number, split_list, trim};

#[test]
fn numbers_are_read_as_the_standard_library_reads_them() {
    for text in [
        "0", "7", "00012", "+5", "18446744073709551615", "18446744073709551616", "99999999999999999999999", "", "+",
        "-1", "-0", "1_000", " 1", "1 ", "0x10", "++1", "12a", "\u{661}",
    ] {
        assert_eq!(parse_number(text), text.parse::<u64>().ok(), "{text:?}");
    }
}

#[test]
fn white_space_is_what_unicode_says() {
    for code in 0..=0x10ffffu32 {
        if let Some(c) = char::from_u32(code) {
            assert_eq!(is_white_space(c), c.is_whitespace(), "{code:x}");
        }
    }
}

#[test]
fn trimming_takes_white_space_from_both_ends() {
    for text in ["", " ", " a b ", "a", "\t\u{3000}x\u{a0}\n", "  a"] {
        assert_eq!(trim(text), text.trim(), "{text:?}");
    }
}

#[test]
fn lists_are_split_at_commas() {
    for text in ["", ",", "a", "a,b", " a , ,b,, c d ,", ",,x"] {
        let expected: Vec<String> =
            text.split(',').map(str::trim).filter(|s| !s.is_empty()).map(str::to_string).collect();
        assert_eq!(split_list(text), expected, "{text:?}");
    }
    assert_eq!(split_list(" a , ,b"), vec!["a".to_string(), "b".to_string()]);
}

fn text(text: &str) -> Option<String> {
    Some(text.to_string())
}

fn validator(title: Option<&str>, code: Option<&str>) -> Validator {
    Validator { title: title.map(str::to_string), compiled_code: code.map(str::to_string) }
}

fn environment() -> Environment {
    Environment {
        blockfrost_project_id: text("previewABC"),
        bind_addr: None,
        frontend_origin: None,
        deploy_dir: None,
        grants_meta_path: None,
        ignored_grant_ids: None,
    }
}

fn deployment() -> Deployment {
    Deployment {
        escrow_address: text("addr_test1"),
        receipt_policy_id: text("33"),
        validators: vec![
            validator(None, Some("no title")),
            validator(Some("other"), Some("ff")),
            validator(Some(ESCROW_VALIDATOR), Some("aa")),
            validator(Some(RECEIPT_VALIDATOR), Some("bb")),
            validator(Some(ESCROW_VALIDATOR), Some("cc")),
        ],
    }
}

#[test]
fn unset_variables_have_defaults() {
    let config = Config::from_parts(&environment(), &deployment()).unwrap();
    assert_eq!(config.blockfrost_project_id, "previewABC");
    assert_eq!(config.bind_addr, "127.0.0.1:3000");
    assert_eq!(config.frontend_origin, "http://localhost:4321");
    assert_eq!(config.escrow_address, "addr_test1");
    assert_eq!(config.receipt_policy_id, "33");
    assert_eq!(config.escrow_compiled_code, "aa");
    assert_eq!(config.receipt_compiled_code, "bb");
    assert_eq!(config.grants_meta_path, "grants_meta.json");
    assert!(config.ignored_grant_ids.is_empty());
    assert_eq!(environment().deploy_directory(), "../onchain/deploy/testnet-v4");
}

#[test]
fn set_variables_count() {
    let environment = Environment {
        bind_addr: text("0.0.0.0:1"),
        frontend_origin: text("http://x"),
        deploy_dir: text("/deploy"),
        grants_meta_path: text("/meta.json"),
        ignored_grant_ids: text("one, two ,,"),
        ..environment()
    };
    let config = Config::from_parts(&environment, &deployment()).unwrap();
    assert_eq!(config.bind_addr, "0.0.0.0:1");
    assert_eq!(config.frontend_origin, "http://x");
    assert_eq!(config.grants_meta_path, "/meta.json");
    assert!(config.ignores("one") && config.ignores("two"));
    assert!(!config.ignores("") && !config.ignores("three") && !config.ignores(" two"));
    assert_eq!(environment.deploy_directory(), "/deploy");
}

#[test]
fn the_first_missing_setting_is_named() {
    let missing = |environment: &Environment, deployment: &Deployment| {
        Config::from_parts(environment, deployment).unwrap_err()
    };
    let mut files = deployment();
    files.validators.remove(3);
    assert_eq!(missing(&environment(), &files), ConfigError::ReceiptCode);
    files.validators.clear();
    assert_eq!(missing(&environment(), &files), ConfigError::EscrowCode);
    files.receipt_policy_id = None;
    assert_eq!(missing(&environment(), &files), ConfigError::ReceiptPolicyId);
    files.escrow_address = None;
    assert_eq!(missing(&environment(), &files), ConfigError::EscrowAddress);
    let unset = Environment { blockfrost_project_id: None, ..environment() };
    assert_eq!(missing(&unset, &files), ConfigError::BlockfrostProjectId);
}

#[test]
fn the_first_validator_with_a_title_decides() {
    let validators = vec![validator(Some("t"), None), validator(Some("t"), Some("aa"))];
    assert_eq!(compiled_code_for(&validators, "t"), None);
    assert_eq!(compiled_code_for(&validators[1..], "t"), text("aa"));
    assert_eq!(compiled_code_for(&validators, "u"), None);
}

const PARAMS: &str = r#"{"other": 1, "receipt_policy_id": "33", "escrow_address": "addr_test1"}"#;

#[test]
fn a_deployment_is_read_from_its_files() {
    let blueprint = r#"{"preamble": {}, "validators": [
        {"compiledCode": "no title"},
        {"title": "other", "compiledCode": "ff"},
        {"title": "milestone_escrow.milestone_escrow.spend", "compiledCode": "aa", "hash": "x"},
        {"title": "milestone_receipt.milestone_receipt.mint", "compiledCode": "bb"},
        {"compiledCode": "cc", "title": "milestone_escrow.milestone_escrow.spend"}
    ]}"#;
    let read = read_deployment(PARAMS.as_bytes(), blueprint.as_bytes()).unwrap();
    assert_eq!(read, deployment());
    assert_eq!(missing_param(PARAMS.as_bytes()).unwrap(), None);
}

#[test]
fn what_is_no_text_counts_as_missing() {
    let blueprint = r#"{"validators": [{"title": 1, "compiledCode": ["aa"]}, "text", null]}"#;
    let read = read_deployment(br#"{"escrow_address": null}"#, blueprint.as_bytes()).unwrap();
    assert_eq!((read.escrow_address, read.receipt_policy_id), (None, None));
    assert_eq!(read.validators, vec![validator(None, None), validator(None, None), validator(None, None)]);
    for blueprint in ["{}", "[]", "7", r#"{"validators": {}}"#] {
        let read = read_deployment(PARAMS.as_bytes(), blueprint.as_bytes()).unwrap();
        assert!(read.validators.is_empty());
    }
}

#[test]
fn the_first_missing_param_is_named() {
    assert_eq!(missing_param(b"{}").unwrap(), Some(ConfigError::EscrowAddress));
    assert_eq!(missing_param(b"[]").unwrap(), Some(ConfigError::EscrowAddress));
    let params = br#"{"escrow_address": "a", "receipt_policy_id": 3}"#;
    assert_eq!(missing_param(params).unwrap(), Some(ConfigError::ReceiptPolicyId));
    assert!(missing_param(b"{").is_err());
}

#[test]
fn files_that_are_no_json_are_refused() {
    assert!(read_deployment(b"{", b"{}").is_err());
    assert!(read_deployment(b"{}", b"{} x").is_err());
    assert!(read_deployment(b"", b"{}").is_err());
    assert!(read_deployment(b"{}", b"{}").is_ok());
}
