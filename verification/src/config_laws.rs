//! What holds of the settings, told by the variables of the environment.

use vstd::prelude::*;

use crate::config::{
    abi_missing, digits_value, model_missing, model_path, number_digits, number_setting,
    number_up_to, parse_bool_env, path_text, require_env, u16_error, u64_error, Config, ConfigError,
    Environment,
};
use crate::text::{decimal, digit};

verus! {

/// Whether a switch is on: it is set to one of the words for that.
pub open spec fn is_on(value: Option<String>) -> bool {
    value is Some && (value->0@ == "1"@ || value->0@ == "true"@ || value->0@ == "TRUE"@)
}

/// Whether a switch is not set, or set to a word for on or off.
pub open spec fn is_switch(value: Option<String>) -> bool {
    value is None || is_on(value) || value->0@ == "0"@ || value->0@ == "false"@ || value->0@
        == "FALSE"@
}

/// The text of a variable, or what stands for it where it is not set.
pub open spec fn set_or(value: Option<String>, default: Seq<char>) -> Seq<char> {
    if value is Some {
        value->0@
    } else {
        default
    }
}

/// Whether the chain has all its settings, and the file of the interface is there.
pub open spec fn chain_is_set(env: Environment, abi_exists: bool) -> bool {
    &&& env.base_sepolia_rpc_url is Some
    &&& env.attestation_signer_private_key is Some
    &&& env.attestation_contract_address is Some
    &&& env.attestation_contract_abi_path is Some
    &&& abi_exists
}

proof fn lemma_words_differ()
    ensures
        "1"@ != "0"@ && "1"@ != "false"@ && "1"@ != "FALSE"@,
        "true"@ != "0"@ && "true"@ != "false"@ && "true"@ != "FALSE"@,
        "TRUE"@ != "0"@ && "TRUE"@ != "false"@ && "TRUE"@ != "FALSE"@,
{
    reveal_strlit("1");
    reveal_strlit("0");
    reveal_strlit("true");
    reveal_strlit("TRUE");
    reveal_strlit("false");
    reveal_strlit("FALSE");
    assert("1"@[0] != "0"@[0]);
    assert("1"@.len() == 1 && "0"@.len() == 1 && "true"@.len() == 4 && "TRUE"@.len() == 4
        && "false"@.len() == 5 && "FALSE"@.len() == 5);
}

/// The service starts if and only if everything that it was asked for is in place: the switches
/// have a position, there is a database, the numbers are numbers in range, the model is there unless
/// vision is mocked, and the chain is set unless attestation is mocked.
pub proof fn law_the_service_starts_when_all_is_in_place(
    env: &Environment,
    model_exists: bool,
    abi_exists: bool,
    config: Result<Config, ConfigError>,
)
    requires
        call_ensures(Config::load, (env, model_exists, abi_exists), config),
    ensures
        config is Ok <==> {
            &&& is_switch(env.mock_vision) && is_switch(env.mock_attestation)
            &&& env.database_url is Some
            &&& number_up_to(set_or(env.server_port, "8080"@), 65_535) is Some
            &&& is_on(env.mock_vision) || model_exists
            &&& is_on(env.mock_attestation) || chain_is_set(*env, abi_exists)
            &&& number_up_to(
                set_or(env.minter_poll_interval_seconds, "5"@),
                0xffff_ffff_ffff_ffff,
            ) is Some
        },
{
    lemma_words_differ();
}

/// Each setting is what its own variable says.
pub proof fn law_each_setting_is_its_variable(
    env: &Environment,
    model_exists: bool,
    abi_exists: bool,
    config: Config,
)
    requires
        call_ensures(
            Config::load,
            (env, model_exists, abi_exists),
            Ok::<Config, ConfigError>(config),
        ),
    ensures
        env.database_url is Some && config.database_url@ == env.database_url->0@,
        number_up_to(set_or(env.server_port, "8080"@), 65_535) == Some(config.server_port as int),
        config.mock_vision == is_on(env.mock_vision),
        config.onnx_model_path@ == set_or(env.onnx_model_path, "models/fundi_detector.onnx"@),
        config.mock_attestation == is_on(env.mock_attestation),
        !is_on(env.mock_attestation) ==> {
            &&& config.base_sepolia_rpc_url@ == env.base_sepolia_rpc_url->0@
            &&& config.attestation_signer_private_key@ == env.attestation_signer_private_key->0@
            &&& config.attestation_contract_address@ == env.attestation_contract_address->0@
            &&& config.attestation_contract_abi_path@ == env.attestation_contract_abi_path->0@
        },
        is_on(env.mock_attestation) ==> {
            &&& config.base_sepolia_rpc_url@.len() == 0
            &&& config.attestation_signer_private_key@.len() == 0
            &&& config.attestation_contract_address@.len() == 0
            &&& config.attestation_contract_abi_path@.len() == 0
        },
        number_up_to(
            set_or(env.minter_poll_interval_seconds, "5"@),
            0xffff_ffff_ffff_ffff,
        ) == Some(config.minter_poll_interval_seconds as int),
{
    lemma_words_differ();
}

proof fn lemma_decimal(n: nat)
    ensures
        decimal(n).len() > 0,
        decimal(n)[0] != '+',
        forall|i: int| 0 <= i < decimal(n).len() ==> '0' <= #[trigger] decimal(n)[i] <= '9',
        digits_value(decimal(n)) == n,
    decreases n,
{
    reveal_with_fuel(digits_value, 2);
    let last = digit((n % 10) as int);
    assert('0' <= last <= '9' && last as int - '0' as int == n % 10);
    if n >= 10 {
        lemma_decimal(n / 10);
        assert(decimal(n).drop_last() =~= decimal(n / 10));
        assert forall|i: int| 0 <= i < decimal(n).len() implies '0' <= #[trigger] decimal(n)[i]
            <= '9' by {
            if i < decimal(n / 10).len() {
                assert(decimal(n)[i] == decimal(n / 10)[i]);
            }
        }
    } else {
        assert(decimal(n).drop_last() =~= Seq::<char>::empty());
    }
}

/// A number is read as it is written, with a plus sign before it or without: the port and the
/// interval that a service is given are those that it has.
pub proof fn law_numbers_are_read_as_written(
    env: &Environment,
    model_exists: bool,
    abi_exists: bool,
    config: Config,
    port: nat,
    interval: nat,
)
    requires
        call_ensures(
            Config::load,
            (env, model_exists, abi_exists),
            Ok::<Config, ConfigError>(config),
        ),
    ensures
        env.server_port is Some && (env.server_port->0@ == decimal(port) || env.server_port->0@
            == seq!['+'] + decimal(port)) ==> config.server_port == port,
        env.minter_poll_interval_seconds is Some && (env.minter_poll_interval_seconds->0@ == decimal(
            interval,
        ) || env.minter_poll_interval_seconds->0@ == seq!['+'] + decimal(interval))
            ==> config.minter_poll_interval_seconds == interval,
        env.server_port is None ==> config.server_port == 8080,
        env.minter_poll_interval_seconds is None ==> config.minter_poll_interval_seconds == 5,
{
    lemma_decimal(port);
    lemma_decimal(interval);
    assert((seq!['+'] + decimal(port)).skip(1) =~= decimal(port));
    assert((seq!['+'] + decimal(interval)).skip(1) =~= decimal(interval));
    reveal_strlit("8080");
    reveal_strlit("5");
    reveal_with_fuel(digits_value, 5);
}

/// Which texts are numbers in range: those that write one, and no text with a character that is no
/// digit, other than a plus sign at its start.
pub proof fn law_what_a_number_is(n: nat, max: int, text: Seq<char>, i: int)
    ensures
        n <= max ==> number_up_to(decimal(n), max) == Some(n as int),
        n > max ==> number_up_to(decimal(n), max) is None,
        0 <= i < text.len() && !('0' <= text[i] <= '9') && !(i == 0 && text[0] == '+')
            ==> number_up_to(text, max) is None,
        text.len() == 0 ==> number_up_to(text, max) is None,
        text.len() == 1 && text[0] == '+' ==> number_up_to(text, max) is None,
{
    lemma_decimal(n);
    if 0 <= i < text.len() && !('0' <= text[i] <= '9') && !(i == 0 && text[0] == '+') {
        let digits = number_digits(text);
        if text[0] == '+' {
            assert(digits[i - 1] == text[i]);
        } else {
            assert(digits[i] == text[i]);
        }
    }
}

/// Whether an error says that a variable is not set.
pub open spec fn says_missing(error: ConfigError, var: Seq<char>) -> bool {
    error is MissingEnvVar && error->MissingEnvVar_0@ == var
}

/// Whether an error says what is wrong with the value of a variable.
pub open spec fn says_invalid(error: ConfigError, var: Seq<char>, reason: Seq<char>) -> bool {
    error is InvalidValue && error->InvalidValue_var@ == var && error->InvalidValue_reason@ == reason
}

/// Of several faults of the environment the first counts, in a fixed order, and the error names its
/// variable.
pub proof fn law_the_first_fault_of_the_environment_counts(
    env: &Environment,
    model_exists: bool,
    abi_exists: bool,
    error: ConfigError,
)
    requires
        call_ensures(
            Config::load,
            (env, model_exists, abi_exists),
            Err::<Config, ConfigError>(error),
        ),
    ensures
        ({
            let port = set_or(env.server_port, "8080"@);
            let interval = set_or(env.minter_poll_interval_seconds, "5"@);
            let model = set_or(env.onnx_model_path, "models/fundi_detector.onnx"@);
            let live = !is_on(env.mock_attestation);
            if !is_switch(env.mock_vision) {
                says_invalid(
                    error,
                    "FUNDI_MOCK_VISION"@,
                    "expected 1/0/true/false, got '"@ + env.mock_vision->0@ + "'"@,
                )
            } else if !is_switch(env.mock_attestation) {
                says_invalid(
                    error,
                    "FUNDI_MOCK_ATTESTATION"@,
                    "expected 1/0/true/false, got '"@ + env.mock_attestation->0@ + "'"@,
                )
            } else if env.database_url is None {
                says_missing(error, "DATABASE_URL"@)
            } else if number_up_to(port, 65_535) is None {
                says_invalid(error, "SERVER_PORT"@, u16_error(port))
            } else if !is_on(env.mock_vision) && !model_exists {
                says_invalid(
                    error,
                    "ONNX_MODEL_PATH"@,
                    "file does not exist at "@ + path_text(model)
                        + " and FUNDI_MOCK_VISION is not set — set FUNDI_MOCK_VISION=1 for local dev without a trained model, or fix the path"@,
                )
            } else if live && env.base_sepolia_rpc_url is None {
                says_missing(error, "BASE_SEPOLIA_RPC_URL"@)
            } else if live && env.attestation_signer_private_key is None {
                says_missing(error, "ATTESTATION_SIGNER_PRIVATE_KEY"@)
            } else if live && env.attestation_contract_address is None {
                says_missing(error, "ATTESTATION_CONTRACT_ADDRESS"@)
            } else if live && env.attestation_contract_abi_path is None {
                says_missing(error, "ATTESTATION_CONTRACT_ABI_PATH"@)
            } else if live && !abi_exists {
                says_invalid(
                    error,
                    "ATTESTATION_CONTRACT_ABI_PATH"@,
                    "ABI file does not exist at "@ + path_text(
                        env.attestation_contract_abi_path->0@,
                    ),
                )
            } else {
                says_invalid(error, "MINTER_POLL_INTERVAL_SECONDS"@, u64_error(interval))
            }
        }),
{
    lemma_words_differ();
}

/// The faults of the environment in words.
pub proof fn law_faults_in_words(error: ConfigError, message: String)
    requires
        call_ensures(ConfigError::message, (&error,), message),
    ensures
        error matches ConfigError::MissingEnvVar(name) ==> message@ == "missing required env var: "@
            + name@,
        error matches ConfigError::InvalidValue { var, reason } ==> message@ == "invalid value for "@
            + var@ + ": "@ + reason@,
{
}

/// Single settings: a required variable is its value or missing under its name, a switch has the
/// position that its word stands for or the default, a number is what was read, and a file that is
/// not there is reported under the variable of its path.
pub proof fn law_single_settings(
    name: &'static str,
    value: &Option<String>,
    default: bool,
    required: Result<String, ConfigError>,
    position: Result<bool, ConfigError>,
    parsed: Result<u64, String>,
    number: Result<u64, ConfigError>,
    shown: &str,
    model: ConfigError,
    interface: ConfigError,
)
    requires
        call_ensures(require_env, (name, value), required),
        call_ensures(parse_bool_env, (name, value, default), position),
        call_ensures(number_setting::<u64>, (name, parsed), number),
        call_ensures(model_missing, (shown,), model),
        call_ensures(abi_missing, (shown,), interface),
    ensures
        *value is Some ==> required is Ok && required->Ok_0@ == value->0@,
        *value is None ==> required is Err && says_missing(required->Err_0, name@),
        *value is None ==> position == Ok::<bool, ConfigError>(default),
        *value is Some && is_switch(*value) ==> position == Ok::<bool, ConfigError>(is_on(*value)),
        !is_switch(*value) ==> position is Err && says_invalid(
            position->Err_0,
            name@,
            "expected 1/0/true/false, got '"@ + value->0@ + "'"@,
        ),
        parsed matches Ok(n) ==> number == Ok::<u64, ConfigError>(n),
        parsed matches Err(e) ==> number is Err && says_invalid(number->Err_0, name@, e@),
        says_invalid(interface, "ATTESTATION_CONTRACT_ABI_PATH"@, "ABI file does not exist at "@ + shown@),
        model is InvalidValue && model->InvalidValue_var@ == "ONNX_MODEL_PATH"@,
{
    lemma_words_differ();
}

/// The model is looked for where the environment says, and loaded from there unless vision is
/// mocked.
pub proof fn law_where_the_model_is(
    env: &Environment,
    expected: String,
    config: Config,
    loaded: &str,
)
    requires
        call_ensures(model_path, (env,), expected),
        call_ensures(Config::vision_model_path, (&config,), loaded),
    ensures
        expected@ == set_or(env.onnx_model_path, "models/fundi_detector.onnx"@),
        config.mock_vision ==> loaded@.len() == 0,
        !config.mock_vision ==> loaded@ == config.onnx_model_path@,
{
}

} // verus!
