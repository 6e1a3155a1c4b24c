use vopono_core::pia::{parse_credentials, PrivateInternetAccess};
use vopono_core::provider::{
    ConfigurationChoice, Input, Password, Protocol, Provider, ProviderError, UiClient, UiError,
};

#[test]
fn test_parse_credentials_valid() {
    assert_eq!(
        parse_credentials("user123", "password456"),
        Some(("user123".to_string(), "password456".to_string()))
    );
}

#[test]
fn test_parse_credentials_with_whitespace() {
    assert_eq!(
        parse_credentials("  user123  ", "  password456  "),
        Some(("user123".to_string(), "password456".to_string()))
    );
}

#[test]
fn test_parse_credentials_with_newlines() {
    assert_eq!(
        parse_credentials("user123\n", "password456\n"),
        Some(("user123".to_string(), "password456".to_string()))
    );
}

#[test]
fn test_parse_credentials_empty_username() {
    assert_eq!(parse_credentials("", "password456"), None);
    assert_eq!(parse_credentials("   ", "password456"), None);
}

#[test]
fn test_parse_credentials_empty_password() {
    assert_eq!(parse_credentials("user123", ""), None);
    assert_eq!(parse_credentials("user123", "   "), None);
}

#[test]
fn test_parse_credentials_both_empty() {
    assert_eq!(parse_credentials("", ""), None);
    assert_eq!(parse_credentials("   ", "   "), None);
}

#[test]
fn mod_test_provider_alias() {
    let pia = PrivateInternetAccess {};
    assert_eq!(pia.alias(), "pia");
    assert_eq!(pia.alias_2char(), "pi");
}

#[test]
fn mod_test_default_protocol() {
    let pia = PrivateInternetAccess {};
    assert_eq!(pia.default_protocol(), Protocol::OpenVpn);
}

struct Scripted {
    user: Result<String, UiError>,
    pass: Result<String, UiError>,
}

impl UiClient for Scripted {
    fn get_input(&self, _input: &Input) -> Result<String, UiError> {
        self.user.clone()
    }

    fn get_password(&self, password: &Password) -> Result<String, UiError> {
        assert!(password.confirm);
        self.pass.clone()
    }

    fn get_configuration_choice(&self, _choice: &ConfigurationChoice) -> Result<usize, UiError> {
        panic!("no choice is asked for")
    }
}

fn never_asked() -> Scripted {
    let e = UiError { message: "not asked".to_string() };
    Scripted { user: Err(e.clone()), pass: Err(e) }
}

#[test]
fn two_line_cache_is_parsed() {
    let pia = PrivateInternetAccess {};
    assert_eq!(
        pia.read_cached_credentials(Some("  alice \r\n s3cret  \n")),
        Some(("alice".to_string(), "s3cret".to_string()))
    );
    assert_eq!(pia.read_cached_credentials(Some("alice\n   ")), None);
    assert_eq!(pia.read_cached_credentials(Some("alice")), None);
    assert_eq!(pia.read_cached_credentials(None), None);
}

#[test]
fn cached_credentials_skip_the_prompt() {
    let r = PrivateInternetAccess {}.prompt_for_auth(Some("alice\nsecret"), &never_asked());
    assert_eq!(r, Ok(("alice".to_string(), "secret".to_string())));
}

#[test]
fn entered_credentials_are_trimmed() {
    let ui = Scripted { user: Ok(" bob ".to_string()), pass: Ok("pw ".to_string()) };
    let r = PrivateInternetAccess {}.prompt_for_auth(Some("only one line"), &ui);
    assert_eq!(r, Ok(("bob".to_string(), "pw".to_string())));
}

#[test]
fn empty_entered_password_is_rejected() {
    let ui = Scripted { user: Ok("bob".to_string()), pass: Ok("  ".to_string()) };
    let r = PrivateInternetAccess {}.prompt_for_auth(None, &ui);
    assert_eq!(r, Err(ProviderError::EmptyCredentials));
}

#[test]
fn prompt_failure_stops_before_password() {
    let e = UiError { message: "closed".to_string() };
    let ui = Scripted { user: Err(e.clone()), pass: Ok("pw".to_string()) };
    let r = PrivateInternetAccess {}.prompt_for_auth(None, &ui);
    assert_eq!(r, Err(ProviderError::Ui(e)));
}

#[test]
fn pia_prompts() {
    let input = PrivateInternetAccess::username_input();
    assert_eq!(input.prompt, "PrivateInternetAccess username");
    assert!(input.validator.is_none());
    let password = PrivateInternetAccess::password_request();
    assert_eq!(password.prompt, "Password");
    assert!(password.confirm);
}
