//! What every provider offers, and the interface through which the user is asked.

use vstd::prelude::*;

verus! {

/// The tunnel protocol a provider connects with unless told otherwise.
#[derive(Debug, Clone, Copy, PartialEq, Eq, Structural)]
pub enum Protocol {
    OpenVpn,
    Wireguard,
}

/// Transport for OpenVPN configuration bundles.
#[derive(Debug, Clone, Copy, PartialEq, Eq, Structural)]
pub enum OpenVpnProtocol {
    UDP,
    TCP,
}

impl OpenVpnProtocol {
    /// The choice offered when the user picks nothing.
    pub fn default_choice() -> (r: OpenVpnProtocol)
        ensures
            r == OpenVpnProtocol::UDP,
    {
        OpenVpnProtocol::UDP
    }

    /// Position of this transport in the list of choices.
    pub fn index(&self) -> (r: usize)
        ensures
            r == (if *self == OpenVpnProtocol::UDP { 0usize } else { 1usize }),
    {
        match self {
            OpenVpnProtocol::UDP => 0,
            OpenVpnProtocol::TCP => 1,
        }
    }

    /// The transport at position `i` of the list of choices.
    pub fn index_to_variant(i: usize) -> (r: Option<OpenVpnProtocol>)
        ensures
            i == 0 ==> r == Some(OpenVpnProtocol::UDP),
            i == 1 ==> r == Some(OpenVpnProtocol::TCP),
            i > 1 ==> r is None,
    {
        if i == 0 {
            Some(OpenVpnProtocol::UDP)
        } else if i == 1 {
            Some(OpenVpnProtocol::TCP)
        } else {
            None
        }
    }
}

/// The fixed identity of a provider.
pub trait Provider {
    spec fn spec_alias(&self) -> Seq<char>;

    spec fn spec_alias_2char(&self) -> Seq<char>;

    spec fn spec_default_protocol(&self) -> Protocol;

    /// Short machine name.
    fn alias(&self) -> (r: String)
        ensures
            r@ == self.spec_alias(),
    ;

    /// Two-character tag.
    fn alias_2char(&self) -> (r: String)
        ensures
            r@ == self.spec_alias_2char(),
            r@.len() == 2,
    ;

    fn default_protocol(&self) -> (r: Protocol)
        ensures
            r == self.spec_default_protocol(),
    ;
}

/// A provider that publishes a Shadowsocks proxy.
pub trait ShadowsocksProvider {
    spec fn spec_password(&self) -> Seq<char>;

    spec fn spec_encrypt_method(&self) -> Seq<char>;

    fn password(&self) -> (r: String)
        ensures
            r@ == self.spec_password(),
    ;

    fn encrypt_method(&self) -> (r: String)
        ensures
            r@ == self.spec_encrypt_method(),
    ;
}

/// A check that free text entered at a prompt must pass.
#[derive(Debug, Clone, Copy, PartialEq, Eq, Structural)]
pub enum Validator {
    /// A Mullvad account number: sixteen digits once other characters are dropped.
    MullvadAccountNumber,
}

/// A request for a line of free text.
pub struct Input {
    pub prompt: String,
    pub validator: Option<Validator>,
}

/// A request for a secret, typed twice where `confirm` is set.
pub struct Password {
    pub prompt: String,
    pub confirm: bool,
}

/// A request to pick one of a list of options.
pub struct ConfigurationChoice {
    pub prompt: String,
    pub options: Vec<String>,
    pub default_index: usize,
}

/// A failure reported by the user interface (the user gave up, the terminal closed).
#[derive(Debug, Clone, PartialEq, Eq)]
pub struct UiError {
    pub message: String,
}

/// The user interface that a caller of the library supplies.
pub trait UiClient {
    fn get_input(&self, input: &Input) -> Result<String, UiError>;

    fn get_password(&self, password: &Password) -> Result<String, UiError>;

    /// The index of the chosen option.
    fn get_configuration_choice(&self, choice: &ConfigurationChoice) -> Result<usize, UiError>;
}

/// Why obtaining credentials or building a configuration failed.
#[derive(Debug, Clone, PartialEq, Eq)]
pub enum ProviderError {
    /// The user interface failed.
    Ui(UiError),
    /// An entered Mullvad account number does not hold sixteen digits.
    InvalidAccountNumber(String),
    /// An entered user name or password is empty once trimmed.
    EmptyCredentials,
    /// The chosen option index names no transport.
    UnknownChoice(usize),
    /// The downloaded bundle is not a readable zip archive.
    InvalidArchive(String),
    /// The named archive entry is not UTF-8 text.
    InvalidUtf8(String),
}

} // verus!
