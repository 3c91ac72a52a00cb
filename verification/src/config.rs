//! The settings of the service, from its environment.
//!
//! All of them are read and checked before the first request: what is missing or wrong is found at
//! the start, not on the way.

use vstd::prelude::*;

use crate::text::{join2, join3, same_text};

verus! {

/// The values of the environment variables that the service reads, each where it is set.
pub struct Environment {
    pub mock_vision: Option<String>,
    pub mock_attestation: Option<String>,
    pub database_url: Option<String>,
    pub server_port: Option<String>,
    pub onnx_model_path: Option<String>,
    pub base_sepolia_rpc_url: Option<String>,
    pub attestation_signer_private_key: Option<String>,
    pub attestation_contract_address: Option<String>,
    pub attestation_contract_abi_path: Option<String>,
    pub minter_poll_interval_seconds: Option<String>,
}

/// The settings of the service.
pub struct Config {
    pub database_url: String,
    pub server_port: u16,
    /// No model is loaded. Off unless it is asked for.
    pub mock_vision: bool,
    pub onnx_model_path: String,
    /// Nothing goes to the chain; incidents are marked with stand-in hashes. Off unless it is
    /// asked for.
    pub mock_attestation: bool,
    pub base_sepolia_rpc_url: String,
    pub attestation_signer_private_key: String,
    pub attestation_contract_address: String,
    pub attestation_contract_abi_path: String,
    pub minter_poll_interval_seconds: u64,
}

/// What is wrong with the environment.
#[derive(Debug)]
pub enum ConfigError {
    MissingEnvVar(&'static str),
    InvalidValue { var: &'static str, reason: String },
}

impl ConfigError {
    /// The variable that is to blame, and what is wrong with its value where it has one.
    pub open spec fn spec_fault(self) -> (Seq<char>, Option<Seq<char>>) {
        match self {
            ConfigError::MissingEnvVar(name) => (name@, None),
            ConfigError::InvalidValue { var, reason } => (var@, Some(reason@)),
        }
    }

    /// The fault in words.
    pub open spec fn spec_message(self) -> Seq<char> {
        match self {
            ConfigError::MissingEnvVar(name) => "missing required env var: "@ + name@,
            ConfigError::InvalidValue { var, reason } => "invalid value for "@ + var@ + ": "@
                + reason@,
        }
    }

    /// The fault in words.
    pub fn message(&self) -> (message: String)
        ensures
            message@ == self.spec_message(),
    {
        match self {
            ConfigError::MissingEnvVar(name) => join2("missing required env var: ", name),
            ConfigError::InvalidValue { var, reason } => {
                let start = join3("invalid value for ", var, ": ");
                join2(start.as_str(), reason.as_str())
            },
        }
    }
}

/// The value of a variable that must be set.
pub fn require_env(name: &'static str, value: &Option<String>) -> (required: Result<
    String,
    ConfigError,
>)
    ensures
        match *value {
            Some(s) => required == Ok::<String, ConfigError>(s),
            None => required == Err::<String, ConfigError>(ConfigError::MissingEnvVar(name)),
        },
{
    match value {
        Some(s) => Ok(s.clone()),
        None => Err(ConfigError::MissingEnvVar(name)),
    }
}

/// The switch position that a text stands for.
pub open spec fn switch_named(text: Seq<char>) -> Option<bool> {
    if text == "1"@ || text == "true"@ || text == "TRUE"@ {
        Some(true)
    } else if text == "0"@ || text == "false"@ || text == "FALSE"@ {
        Some(false)
    } else {
        None
    }
}

/// The complaint about a text that stands for no switch position.
pub open spec fn no_switch(text: Seq<char>) -> Seq<char> {
    "expected 1/0/true/false, got '"@ + text + "'"@
}

/// The position of a switch: the default where the variable is not set.
pub fn parse_bool_env(name: &'static str, value: &Option<String>, default: bool) -> (parsed: Result<
    bool,
    ConfigError,
>)
    ensures
        match *value {
            None => parsed == Ok::<bool, ConfigError>(default),
            Some(s) => match parsed {
                Ok(on) => switch_named(s@) == Some(on),
                Err(e) => switch_named(s@) is None && e.spec_fault() == (
                    name@,
                    Some(no_switch(s@)),
                ),
            },
        },
{
    match value {
        None => Ok(default),
        Some(s) => {
            let text = s.as_str();
            if same_text(text, "1") || same_text(text, "true") || same_text(text, "TRUE") {
                Ok(true)
            } else if same_text(text, "0") || same_text(text, "false") || same_text(text, "FALSE") {
                Ok(false)
            } else {
                let reason = join3("expected 1/0/true/false, got '", text, "'");
                Err(ConfigError::InvalidValue { var: name, reason })
            }
        },
    }
}

/// The digits of a written number: what follows a plus sign, where it starts with one.
pub open spec fn number_digits(text: Seq<char>) -> Seq<char> {
    if text.len() > 0 && text[0] == '+' {
        text.skip(1)
    } else {
        text
    }
}

/// Whether a text is a written number: digits, at least one, perhaps after a plus sign.
pub open spec fn is_number(text: Seq<char>) -> bool {
    let digits = number_digits(text);
    digits.len() > 0 && forall|i: int|
        0 <= i < digits.len() ==> '0' <= #[trigger] digits[i] <= '9'
}

/// The value of decimal digits.
pub open spec fn digits_value(digits: Seq<char>) -> int
    decreases digits.len(),
{
    if digits.len() == 0 {
        0
    } else {
        10 * digits_value(digits.drop_last()) + (digits.last() as int - '0' as int)
    }
}

/// The number that a text writes, where it writes one that is at most `max`.
pub open spec fn number_up_to(text: Seq<char>, max: int) -> Option<int> {
    if is_number(text) && digits_value(number_digits(text)) <= max {
        Some(digits_value(number_digits(text)))
    } else {
        None
    }
}

/// The text of the error with which `u16::from_str` refuses a text.
pub uninterp spec fn u16_error(text: Seq<char>) -> Seq<char>;

/// `u16::from_str`, the error as its `Display` text. It takes decimal digits, after a plus sign or
/// without one, whose value is in range.
#[verifier::external_body]
fn parse_u16(text: &str) -> (parsed: Result<u16, String>)
    ensures
        match parsed {
            Ok(n) => number_up_to(text@, u16::MAX as int) == Some(n as int),
            Err(e) => number_up_to(text@, u16::MAX as int) is None && e@ == u16_error(text@),
        },
{
    text.parse::<u16>().map_err(|e| e.to_string())
}

/// The text of the error with which `u64::from_str` refuses a text.
pub uninterp spec fn u64_error(text: Seq<char>) -> Seq<char>;

/// `u64::from_str`, the error as its `Display` text. It takes decimal digits, after a plus sign or
/// without one, whose value is in range.
#[verifier::external_body]
fn parse_u64(text: &str) -> (parsed: Result<u64, String>)
    ensures
        match parsed {
            Ok(n) => number_up_to(text@, u64::MAX as int) == Some(n as int),
            Err(e) => number_up_to(text@, u64::MAX as int) is None && e@ == u64_error(text@),
        },
{
    text.parse::<u64>().map_err(|e| e.to_string())
}

/// The number of a variable, once its value has been read as one.
pub fn number_setting<T>(var: &'static str, parsed: Result<T, String>) -> (number: Result<
    T,
    ConfigError,
>)
    ensures
        match parsed {
            Ok(n) => number == Ok::<T, ConfigError>(n),
            Err(e) => number == Err::<T, ConfigError>(
                ConfigError::InvalidValue { var, reason: e },
            ),
        },
{
    match parsed {
        Ok(n) => Ok(n),
        Err(e) => Err(ConfigError::InvalidValue { var, reason: e }),
    }
}

/// The text with which a path is shown to people.
pub uninterp spec fn path_text(path: Seq<char>) -> Seq<char>;

/// The `Debug` text of `std::path::Path` for a path. It depends on the path alone.
#[verifier::external_body]
fn shown_path(path: &str) -> (shown: String)
    ensures
        shown@ == path_text(path@),
{
    format!("{:?}", std::path::Path::new(path))
}

/// The complaint about a model file that is not there, with its path as shown.
pub open spec fn missing_model(shown: Seq<char>) -> Seq<char> {
    "file does not exist at "@ + shown
        + " and FUNDI_MOCK_VISION is not set — set FUNDI_MOCK_VISION=1 for local dev without a trained model, or fix the path"@
}

/// The complaint about an interface file that is not there, with its path as shown.
pub open spec fn missing_abi(shown: Seq<char>) -> Seq<char> {
    "ABI file does not exist at "@ + shown
}

/// The fault of a model file that is not there, with its path as shown.
pub fn model_missing(shown: &str) -> (error: ConfigError)
    ensures
        error.spec_fault() == ("ONNX_MODEL_PATH"@, Some(missing_model(shown@))),
{
    let reason = join3(
        "file does not exist at ",
        shown,
        " and FUNDI_MOCK_VISION is not set — set FUNDI_MOCK_VISION=1 for local dev without a trained model, or fix the path",
    );
    ConfigError::InvalidValue { var: "ONNX_MODEL_PATH", reason }
}

/// The fault of an interface file that is not there, with its path as shown.
pub fn abi_missing(shown: &str) -> (error: ConfigError)
    ensures
        error.spec_fault() == ("ATTESTATION_CONTRACT_ABI_PATH"@, Some(missing_abi(shown@))),
{
    let reason = join2("ABI file does not exist at ", shown);
    ConfigError::InvalidValue { var: "ATTESTATION_CONTRACT_ABI_PATH", reason }
}

/// The text of a variable, or the default where it is not set.
pub open spec fn text_or(value: Option<String>, default: Seq<char>) -> Seq<char> {
    match value {
        Some(s) => s@,
        None => default,
    }
}

fn value_or(value: &Option<String>, default: &str) -> (text: String)
    ensures
        text@ == text_or(*value, default@),
{
    match value {
        Some(s) => s.clone(),
        None => default.to_owned(),
    }
}

/// Where the model is expected.
pub fn model_path(env: &Environment) -> (path: String)
    ensures
        path@ == text_or(env.onnx_model_path, "models/fundi_detector.onnx"@),
{
    value_or(&env.onnx_model_path, "models/fundi_detector.onnx")
}

/// Whether a switch is on: off where it is not set.
pub open spec fn switched_on(value: Option<String>) -> bool {
    value matches Some(s) && switch_named(s@) == Some(true)
}

/// Whether a switch has a value that stands for no position.
pub open spec fn bad_switch(value: Option<String>) -> bool {
    value matches Some(s) && switch_named(s@) is None
}

/// The first fault of the environment: the variable, and what is wrong with its value where it has
/// one. `model_exists` and `abi_exists` tell whether there is a file at the path of the model and at
/// that of the contract's interface.
pub open spec fn first_fault(env: Environment, model_exists: bool, abi_exists: bool) -> Option<
    (Seq<char>, Option<Seq<char>>),
> {
    let model_path = text_or(env.onnx_model_path, "models/fundi_detector.onnx"@);
    let port = text_or(env.server_port, "8080"@);
    let interval = text_or(env.minter_poll_interval_seconds, "5"@);
    let live_chain = !switched_on(env.mock_attestation);
    if bad_switch(env.mock_vision) {
        Some(("FUNDI_MOCK_VISION"@, Some(no_switch(env.mock_vision->0@))))
    } else if bad_switch(env.mock_attestation) {
        Some(("FUNDI_MOCK_ATTESTATION"@, Some(no_switch(env.mock_attestation->0@))))
    } else if env.database_url is None {
        Some(("DATABASE_URL"@, None))
    } else if number_up_to(port, u16::MAX as int) is None {
        Some(("SERVER_PORT"@, Some(u16_error(port))))
    } else if !switched_on(env.mock_vision) && !model_exists {
        Some(("ONNX_MODEL_PATH"@, Some(missing_model(path_text(model_path)))))
    } else if live_chain && env.base_sepolia_rpc_url is None {
        Some(("BASE_SEPOLIA_RPC_URL"@, None))
    } else if live_chain && env.attestation_signer_private_key is None {
        Some(("ATTESTATION_SIGNER_PRIVATE_KEY"@, None))
    } else if live_chain && env.attestation_contract_address is None {
        Some(("ATTESTATION_CONTRACT_ADDRESS"@, None))
    } else if live_chain && env.attestation_contract_abi_path is None {
        Some(("ATTESTATION_CONTRACT_ABI_PATH"@, None))
    } else if live_chain && !abi_exists {
        Some(
            (
                "ATTESTATION_CONTRACT_ABI_PATH"@,
                Some(missing_abi(path_text(env.attestation_contract_abi_path->0@))),
            ),
        )
    } else if number_up_to(interval, u64::MAX as int) is None {
        Some(("MINTER_POLL_INTERVAL_SECONDS"@, Some(u64_error(interval))))
    } else {
        None
    }
}

/// A setting of the chain: empty where nothing goes to the chain.
pub open spec fn chain_setting(env: Environment, value: Option<String>) -> Seq<char> {
    if switched_on(env.mock_attestation) {
        Seq::empty()
    } else {
        value->0@
    }
}

/// Whether `config` holds the settings of an environment without faults.
pub open spec fn configures(env: Environment, config: Config) -> bool {
    &&& env.database_url == Some(config.database_url)
    &&& number_up_to(text_or(env.server_port, "8080"@), u16::MAX as int) == Some(
        config.server_port as int,
    )
    &&& config.mock_vision == switched_on(env.mock_vision)
    &&& config.onnx_model_path@ == text_or(env.onnx_model_path, "models/fundi_detector.onnx"@)
    &&& config.mock_attestation == switched_on(env.mock_attestation)
    &&& config.base_sepolia_rpc_url@ == chain_setting(env, env.base_sepolia_rpc_url)
    &&& config.attestation_signer_private_key@ == chain_setting(
        env,
        env.attestation_signer_private_key,
    )
    &&& config.attestation_contract_address@ == chain_setting(
        env,
        env.attestation_contract_address,
    )
    &&& config.attestation_contract_abi_path@ == chain_setting(
        env,
        env.attestation_contract_abi_path,
    )
    &&& number_up_to(text_or(env.minter_poll_interval_seconds, "5"@), u64::MAX as int) == Some(
        config.minter_poll_interval_seconds as int,
    )
}

impl Config {
    /// The settings that the environment gives, or its first fault. `model_exists` tells whether
    /// there is a file at `model_path`, `abi_exists` whether there is one at the path of the
    /// contract's interface. The model is needed unless vision is mocked; the settings of the chain
    /// are needed unless attestation is.
    pub fn load(env: &Environment, model_exists: bool, abi_exists: bool) -> (config: Result<
        Config,
        ConfigError,
    >)
        ensures
            match config {
                Ok(c) => first_fault(*env, model_exists, abi_exists) is None && configures(*env, c),
                Err(e) => first_fault(*env, model_exists, abi_exists) == Some(e.spec_fault()),
            },
    {
        let mock_vision: bool = parse_bool_env("FUNDI_MOCK_VISION", &env.mock_vision, false)?;
        let mock_attestation: bool = parse_bool_env(
            "FUNDI_MOCK_ATTESTATION",
            &env.mock_attestation,
            false,
        )?;
        let database_url = require_env("DATABASE_URL", &env.database_url)?;
        let port_text = value_or(&env.server_port, "8080");
        let server_port: u16 = number_setting("SERVER_PORT", parse_u16(port_text.as_str()))?;
        let onnx_model_path = model_path(env);
        if !mock_vision && !model_exists {
            let shown = shown_path(onnx_model_path.as_str());
            return Err(model_missing(shown.as_str()));
        }
        let mut base_sepolia_rpc_url = String::new();
        let mut attestation_signer_private_key = String::new();
        let mut attestation_contract_address = String::new();
        let mut attestation_contract_abi_path = String::new();
        if !mock_attestation {
            base_sepolia_rpc_url = require_env("BASE_SEPOLIA_RPC_URL", &env.base_sepolia_rpc_url)?;
            attestation_signer_private_key =
            require_env("ATTESTATION_SIGNER_PRIVATE_KEY", &env.attestation_signer_private_key)?;
            attestation_contract_address =
            require_env("ATTESTATION_CONTRACT_ADDRESS", &env.attestation_contract_address)?;
            attestation_contract_abi_path =
            require_env("ATTESTATION_CONTRACT_ABI_PATH", &env.attestation_contract_abi_path)?;
            if !abi_exists {
                let shown = shown_path(attestation_contract_abi_path.as_str());
                return Err(abi_missing(shown.as_str()));
            }
        }
        let interval_text = value_or(&env.minter_poll_interval_seconds, "5");
        let minter_poll_interval_seconds: u64 = number_setting(
            "MINTER_POLL_INTERVAL_SECONDS",
            parse_u64(interval_text.as_str()),
        )?;
        Ok(
            Config {
                database_url,
                server_port,
                mock_vision,
                onnx_model_path,
                mock_attestation,
                base_sepolia_rpc_url,
                attestation_signer_private_key,
                attestation_contract_address,
                attestation_contract_abi_path,
                minter_poll_interval_seconds,
            },
        )
    }

    /// The path of the model to load: none where vision is mocked.
    pub fn vision_model_path(&self) -> (path: &str)
        ensures
            path@ == (if self.mock_vision {
                Seq::empty()
            } else {
                self.onnx_model_path@
            }),
    {
        if self.mock_vision {
            proof {
                reveal_strlit("");
                assert(""@ =~= Seq::<char>::empty());
            }
            ""
        } else {
            self.onnx_model_path.as_str()
        }
    }
}

/// A mock is used only where it is asked for by name.
pub proof fn law_mocks_are_opt_in(env: Environment, config: Config)
    requires
        configures(env, config),
    ensures
        config.mock_vision ==> (env.mock_vision matches Some(s) && (s@ == "1"@ || s@ == "true"@
            || s@ == "TRUE"@)),
        config.mock_attestation ==> (env.mock_attestation matches Some(s) && (s@ == "1"@ || s@
            == "true"@ || s@ == "TRUE"@)),
{
}

/// Without mocks, settings are given only where everything is in place: the model file for
/// vision, and all that the chain needs for attestation.
pub proof fn law_live_settings_are_complete(
    env: Environment,
    model_exists: bool,
    abi_exists: bool,
    config: Config,
)
    requires
        first_fault(env, model_exists, abi_exists) is None,
        configures(env, config),
    ensures
        !config.mock_vision ==> model_exists,
        !config.mock_attestation ==> {
            &&& abi_exists
            &&& env.base_sepolia_rpc_url matches Some(s) && s@ == config.base_sepolia_rpc_url@
            &&& env.attestation_signer_private_key matches Some(s) && s@
                == config.attestation_signer_private_key@
            &&& env.attestation_contract_address matches Some(s) && s@
                == config.attestation_contract_address@
            &&& env.attestation_contract_abi_path matches Some(s) && s@
                == config.attestation_contract_abi_path@
        },
{
}

/// What a variable that is not set stands for: port 8080, a poll every 5 seconds, the model in its
/// usual place, no mocks.
pub proof fn law_defaults(env: Environment, config: Config)
    requires
        configures(env, config),
    ensures
        env.server_port is None ==> config.server_port == 8080,
        env.minter_poll_interval_seconds is None ==> config.minter_poll_interval_seconds == 5,
        env.onnx_model_path is None ==> config.onnx_model_path@ == "models/fundi_detector.onnx"@,
        env.mock_vision is None ==> !config.mock_vision,
        env.mock_attestation is None ==> !config.mock_attestation,
{
    reveal_strlit("8080");
    reveal_strlit("5");
    reveal_with_fuel(digits_value, 5);
}

} // verus!
