use fundi::config::{
    abi_missing, model_missing, model_path, parse_bool_env, require_env, Config, ConfigError, Environment,
};

fn set(s: &str) -> Option<String> {
    Some(s.to_string())
}

fn mocked() -> Environment {
    Environment {
        mock_vision: set("1"),
        mock_attestation: set("true"),
        database_url: set("postgres://db"),
        server_port: None,
        onnx_model_path: None,
        base_sepolia_rpc_url: None,
        attestation_signer_private_key: None,
        attestation_contract_address: None,
        attestation_contract_abi_path: None,
        minter_poll_interval_seconds: None,
    }
}

fn live() -> Environment {
    Environment {
        mock_vision: None,
        mock_attestation: set("0"),
        server_port: set("+9000"),
        onnx_model_path: set("m.onnx"),
        base_sepolia_rpc_url: set("http://rpc"),
        attestation_signer_private_key: set("key"),
        attestation_contract_address: set("0x0"),
        attestation_contract_abi_path: set("abi.json"),
        minter_poll_interval_seconds: set("0015"),
        ..mocked()
    }
}

fn fault(env: Environment, model: bool, abi: bool) -> String {
    match Config::load(&env, model, abi) {
        Ok(_) => panic!("no fault"),
        Err(e) => e.message(),
    }
}

#[test]
fn mocked_settings_need_little() {
    let config = Config::load(&mocked(), false, false).unwrap_or_else(|e| panic!("{:?}", e));
    assert_eq!(config.database_url, "postgres://db");
    assert_eq!(config.server_port, 8080);
    assert!(config.mock_vision);
    assert!(config.mock_attestation);
    assert_eq!(config.onnx_model_path, "models/fundi_detector.onnx");
    assert_eq!(config.base_sepolia_rpc_url, "");
    assert_eq!(config.attestation_signer_private_key, "");
    assert_eq!(config.attestation_contract_address, "");
    assert_eq!(config.attestation_contract_abi_path, "");
    assert_eq!(config.minter_poll_interval_seconds, 5);
    assert_eq!(config.vision_model_path(), "");
}

#[test]
fn live_settings_are_taken_over() {
    let config = Config::load(&live(), true, true).unwrap_or_else(|e| panic!("{:?}", e));
    assert_eq!(config.server_port, 9000);
    assert!(!config.mock_vision);
    assert!(!config.mock_attestation);
    assert_eq!(config.onnx_model_path, "m.onnx");
    assert_eq!(config.base_sepolia_rpc_url, "http://rpc");
    assert_eq!(config.attestation_signer_private_key, "key");
    assert_eq!(config.attestation_contract_address, "0x0");
    assert_eq!(config.attestation_contract_abi_path, "abi.json");
    assert_eq!(config.minter_poll_interval_seconds, 15);
    assert_eq!(config.vision_model_path(), "m.onnx");
    assert_eq!(model_path(&live()), "m.onnx");
}

#[test]
fn each_fault_is_found_in_turn() {
    assert_eq!(
        fault(Environment { mock_vision: set("yes"), mock_attestation: set("no"), ..live() }, true, true),
        "invalid value for FUNDI_MOCK_VISION: expected 1/0/true/false, got 'yes'"
    );
    assert_eq!(
        fault(Environment { mock_attestation: set(""), database_url: None, ..live() }, true, true),
        "invalid value for FUNDI_MOCK_ATTESTATION: expected 1/0/true/false, got ''"
    );
    assert_eq!(
        fault(Environment { database_url: None, server_port: set("x"), ..live() }, true, true),
        "missing required env var: DATABASE_URL"
    );
    assert_eq!(
        fault(live(), false, false),
        "invalid value for ONNX_MODEL_PATH: file does not exist at \"m.onnx\" and FUNDI_MOCK_VISION is not set — set FUNDI_MOCK_VISION=1 for local dev without a trained model, or fix the path"
    );
    assert_eq!(
        fault(Environment { base_sepolia_rpc_url: None, attestation_signer_private_key: None, ..live() }, true, false),
        "missing required env var: BASE_SEPOLIA_RPC_URL"
    );
    assert_eq!(
        fault(Environment { attestation_signer_private_key: None, ..live() }, true, false),
        "missing required env var: ATTESTATION_SIGNER_PRIVATE_KEY"
    );
    assert_eq!(
        fault(Environment { attestation_contract_address: None, ..live() }, true, false),
        "missing required env var: ATTESTATION_CONTRACT_ADDRESS"
    );
    assert_eq!(
        fault(Environment { attestation_contract_abi_path: None, ..live() }, true, false),
        "missing required env var: ATTESTATION_CONTRACT_ABI_PATH"
    );
    assert_eq!(
        fault(live(), true, false),
        "invalid value for ATTESTATION_CONTRACT_ABI_PATH: ABI file does not exist at \"abi.json\""
    );
}

#[test]
fn numbers_are_read_as_rust_reads_them() {
    for text in ["", "+", "-1", "x", "80x", "65536", "99999x", " 80", "8_0", "१"] {
        let reason = text.parse::<u16>().unwrap_err().to_string();
        assert_eq!(
            fault(Environment { server_port: set(text), ..mocked() }, true, true),
            format!("invalid value for SERVER_PORT: {}", reason)
        );
    }
    for text in ["", "+", "-1", "5s", "18446744073709551616"] {
        let reason = text.parse::<u64>().unwrap_err().to_string();
        assert_eq!(
            fault(Environment { minter_poll_interval_seconds: set(text), ..mocked() }, true, true),
            format!("invalid value for MINTER_POLL_INTERVAL_SECONDS: {}", reason)
        );
    }
    for text in ["0", "65535", "+00080"] {
        let env = Environment { server_port: set(text), ..mocked() };
        let config = Config::load(&env, true, true).unwrap_or_else(|e| panic!("{:?}", e));
        assert_eq!(config.server_port, text.parse::<u16>().unwrap());
    }
}

#[test]
fn switches() {
    for text in ["1", "true", "TRUE"] {
        assert!(matches!(parse_bool_env("V", &set(text), false), Ok(true)));
    }
    for text in ["0", "false", "FALSE"] {
        assert!(matches!(parse_bool_env("V", &set(text), true), Ok(false)));
    }
    assert!(matches!(parse_bool_env("V", &None, true), Ok(true)));
    assert!(matches!(parse_bool_env("V", &None, false), Ok(false)));
    assert!(matches!(parse_bool_env("V", &set("True"), true), Err(ConfigError::InvalidValue { var: "V", .. })));
}

#[test]
fn required_variables() {
    assert_eq!(require_env("V", &set("x")).unwrap_or_else(|e| panic!("{:?}", e)), "x");
    assert!(matches!(require_env("V", &None), Err(ConfigError::MissingEnvVar("V"))));
}

#[test]
fn missing_files_are_shown_by_their_paths() {
    let quoted = Environment { onnx_model_path: set("a\"b\n.onnx"), ..live() };
    assert!(fault(quoted, false, true).contains(&format!("{:?}", std::path::Path::new("a\"b\n.onnx"))));
    let unset = Environment { onnx_model_path: None, ..live() };
    assert!(fault(unset, false, true).contains("file does not exist at \"models/fundi_detector.onnx\" and"));
    assert_eq!(
        abi_missing("<p>").message(),
        "invalid value for ATTESTATION_CONTRACT_ABI_PATH: ABI file does not exist at <p>"
    );
    assert!(model_missing("<p>").message().starts_with("invalid value for ONNX_MODEL_PATH: file does not exist at <p> and"));
}
