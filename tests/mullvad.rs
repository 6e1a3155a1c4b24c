use vopono_core::mullvad::{parse_mullvad_username, validate_mullvad_username, Mullvad};
use vopono_core::provider::{
    ConfigurationChoice, Input, Password, Protocol, Provider, ProviderError, ShadowsocksProvider,
    UiClient, UiError, Validator,
};

#[test]
fn test_parse_mullvad_username_valid() {
    assert_eq!(
        parse_mullvad_username("1234567890123456"),
        Some("1234567890123456".to_string())
    );
}

#[test]
fn test_parse_mullvad_username_with_spaces() {
    assert_eq!(
        parse_mullvad_username("1234 5678 9012 3456"),
        Some("1234567890123456".to_string())
    );
}

#[test]
fn test_parse_mullvad_username_with_whitespace() {
    assert_eq!(
        parse_mullvad_username("  1234567890123456  \n"),
        Some("1234567890123456".to_string())
    );
}

#[test]
fn test_parse_mullvad_username_too_short() {
    assert_eq!(parse_mullvad_username("12345678901234"), None);
}

#[test]
fn test_parse_mullvad_username_too_long() {
    assert_eq!(parse_mullvad_username("12345678901234567890"), None);
}

#[test]
fn test_parse_mullvad_username_with_letters() {
    assert_eq!(parse_mullvad_username("1234abcd56789012"), None);
}

#[test]
fn test_parse_mullvad_username_empty() {
    assert_eq!(parse_mullvad_username(""), None);
}

#[test]
fn test_validate_mullvad_username_valid() {
    assert!(validate_mullvad_username(&"1234567890123456".to_string()).is_ok());
}

#[test]
fn test_validate_mullvad_username_with_spaces() {
    assert!(validate_mullvad_username(&"1234 5678 9012 3456".to_string()).is_ok());
}

#[test]
fn test_validate_mullvad_username_too_short() {
    let result = validate_mullvad_username(&"123456789012345".to_string());
    assert!(result.is_err());
    assert_eq!(
        result.unwrap_err(),
        "Mullvad account number should be 16 digits!"
    );
}

#[test]
fn test_validate_mullvad_username_too_long() {
    let result = validate_mullvad_username(&"12345678901234567".to_string());
    assert!(result.is_err());
}

#[test]
fn test_validate_mullvad_username_empty() {
    let result = validate_mullvad_username(&"".to_string());
    assert!(result.is_err());
}

#[test]
fn test_validate_mullvad_username_non_digits() {
    let result = validate_mullvad_username(&"abcdefghijklmnop".to_string());
    assert!(result.is_err());
}

#[test]
fn test_provider_alias() {
    let mullvad = Mullvad {};
    assert_eq!(mullvad.alias(), "mv");
    assert_eq!(mullvad.alias_2char(), "mv");
}

#[test]
fn test_default_protocol() {
    let mullvad = Mullvad {};
    assert_eq!(mullvad.default_protocol(), Protocol::Wireguard);
}

#[test]
fn test_shadowsocks_provider() {
    let mullvad = Mullvad {};
    assert_eq!(mullvad.password(), "mullvad");
    assert_eq!(mullvad.encrypt_method(), "aes-256-gcm");
}

struct Scripted {
    input: Result<String, UiError>,
}

impl UiClient for Scripted {
    fn get_input(&self, input: &Input) -> Result<String, UiError> {
        assert_eq!(input.validator, Some(Validator::MullvadAccountNumber));
        self.input.clone()
    }

    fn get_password(&self, _password: &Password) -> Result<String, UiError> {
        panic!("no password is asked for")
    }

    fn get_configuration_choice(&self, _choice: &ConfigurationChoice) -> Result<usize, UiError> {
        panic!("no choice is asked for")
    }
}

#[test]
fn account_number_parse_examples() {
    assert_eq!(
        parse_mullvad_username("1234 5678 9012 3456"),
        Some("1234567890123456".to_string())
    );
    assert_eq!(parse_mullvad_username("12345678901234"), None);
    assert_eq!(
        parse_mullvad_username("1234\t5678\n9012 3456"),
        Some("1234567890123456".to_string())
    );
    assert_eq!(parse_mullvad_username("1234 5678 9012 345"), None);
}

#[test]
fn cached_account_number_is_used_without_prompt() {
    let ui = Scripted { input: Err(UiError { message: "not asked".to_string() }) };
    let r = Mullvad {}.request_mullvad_username(Some("1234 5678 9012 3456\nrest\n"), &ui);
    assert_eq!(r, Ok("1234567890123456".to_string()));
}

#[test]
fn cached_account_number_reads_first_line_only() {
    let m = Mullvad {};
    assert_eq!(m.read_cached_username(Some("12345678\n90123456")), None);
    assert_eq!(m.read_cached_username(None), None);
}

#[test]
fn invalid_cache_falls_back_to_prompt() {
    let ui = Scripted { input: Ok("6543 2109 8765 4321".to_string()) };
    let r = Mullvad {}.request_mullvad_username(Some("not a number"), &ui);
    assert_eq!(r, Ok("6543210987654321".to_string()));
}

#[test]
fn prompt_with_bad_account_number_fails() {
    let ui = Scripted { input: Ok("1234".to_string()) };
    let r = Mullvad {}.request_mullvad_username(None, &ui);
    assert_eq!(r, Err(ProviderError::InvalidAccountNumber("1234".to_string())));
}

#[test]
fn prompt_failure_is_reported() {
    let err = UiError { message: "closed".to_string() };
    let ui = Scripted { input: Err(err.clone()) };
    let r = Mullvad {}.request_mullvad_username(None, &ui);
    assert_eq!(r, Err(ProviderError::Ui(err)));
}

#[test]
fn validator_checks_account_numbers() {
    let v = Validator::MullvadAccountNumber;
    assert!(v.check(&"1234-5678-9012-3456".to_string()).is_ok());
    assert!(v.check(&"1234".to_string()).is_err());
}

#[test]
fn account_prompt_carries_validator() {
    let input = Mullvad::account_input();
    assert_eq!(input.prompt, "Mullvad account number");
    assert_eq!(input.validator, Some(Validator::MullvadAccountNumber));
    assert_eq!(
        Validator::MullvadAccountNumber.check(&"12".to_string()),
        Err("Mullvad account number should be 16 digits!".to_string())
    );
}
