//! Mullvad: a sixteen-digit account number serves as the whole credential.

use vstd::prelude::*;
use crate::provider::{
    Input, Protocol, Provider, ProviderError, ShadowsocksProvider, UiClient, Validator,
};
use crate::text::{chars_of, find_from, index_of, is_digit, is_ws, slice_chars, string_of};

verus! {

pub struct Mullvad {}

/// The decimal digits of `s`, in order; everything else is dropped.
pub open spec fn account_digits(s: Seq<char>) -> Seq<char> {
    s.filter(|c: char| is_digit(c))
}

/// The account number written in `s`, if it holds exactly sixteen digits.
pub open spec fn account_number(s: Seq<char>) -> Option<Seq<char>> {
    if account_digits(s).len() == 16 {
        Some(account_digits(s))
    } else {
        None
    }
}

/// The text of `s` up to its first line break.
pub open spec fn first_line(s: Seq<char>) -> Seq<char> {
    s.subrange(0, index_of(s, '\n') as int)
}

/// The account number held by a cache file with these contents, if any.
pub open spec fn cached_account(contents: Option<Seq<char>>) -> Option<Seq<char>> {
    match contents {
        Some(c) => account_number(first_line(c)),
        None => None,
    }
}

pub open spec fn is_account_number(u: Seq<char>) -> bool {
    u.len() == 16 && forall|i: int| 0 <= i < u.len() ==> is_digit(#[trigger] u[i])
}

pub open spec fn view_opt(o: Option<String>) -> Option<Seq<char>> {
    match o {
        Some(s) => Some(s@),
        None => None,
    }
}

pub open spec fn mullvad_message() -> Seq<char> {
    "Mullvad account number should be 16 digits!"@
}

/// Parses a Mullvad account number: non-digits are dropped and what is left
/// must be exactly sixteen digits.
pub fn parse_mullvad_username(raw: &str) -> (r: Option<String>)
    ensures
        view_opt(r) == account_number(raw@),
{
    let v = chars_of(raw);
    let mut digits: Vec<char> = Vec::new();
    let mut i: usize = 0;
    while i < v.len()
        invariant
            i <= v.len(),
            v@ == raw@,
            digits@ == account_digits(v@.subrange(0, i as int)),
        decreases v.len() - i,
    {
        let c = v[i];
        proof {
            reveal(Seq::filter);
            assert(v@.subrange(0, i + 1).drop_last() =~= v@.subrange(0, i as int));
        }
        if '0' <= c && c <= '9' {
            digits.push(c);
        }
        i += 1;
    }
    assert(v@.subrange(0, v.len() as int) =~= v@);
    if digits.len() == 16 {
        Some(string_of(&digits))
    } else {
        None
    }
}

/// Accepts exactly the inputs that `parse_mullvad_username` accepts.
pub fn validate_mullvad_username(username: &String) -> (r: Result<(), String>)
    ensures
        r is Ok <==> account_number(username@) is Some,
        r is Err ==> r->Err_0@ == mullvad_message(),
{
    match parse_mullvad_username(username.as_str()) {
        Some(_) => Ok(()),
        None => Err("Mullvad account number should be 16 digits!".to_owned()),
    }
}

impl Validator {
    /// Runs the check on `s`, with the message to show when it fails.
    pub fn check(&self, s: &String) -> (r: Result<(), String>)
        ensures
            *self == Validator::MullvadAccountNumber ==> (r is Ok <==> account_number(s@) is Some),
            *self == Validator::MullvadAccountNumber && r is Err ==> r->Err_0@ == mullvad_message(),
    {
        match self {
            Validator::MullvadAccountNumber => validate_mullvad_username(s),
        }
    }
}

pub proof fn lemma_account_number_digits(s: Seq<char>)
    requires
        account_number(s) is Some,
    ensures
        is_account_number(account_number(s)->Some_0),
{
    let p = |c: char| is_digit(c);
    assert forall|i: int| 0 <= i < account_digits(s).len() implies is_digit(
        #[trigger] account_digits(s)[i],
    ) by {
        s.lemma_filter_pred(p, i);
    }
}

/// On text made of digits and white space alone, the parsed account number is
/// the text with its white space removed when that leaves sixteen digits, and
/// there is none otherwise.
pub proof fn lemma_account_number_of_spaced_digits(s: Seq<char>)
    requires
        forall|i: int| 0 <= i < s.len() ==> is_digit(#[trigger] s[i]) || is_ws(s[i]),
    ensures
        account_number(s) == (if s.filter(|c: char| !is_ws(c)).len() == 16 {
            Some(s.filter(|c: char| !is_ws(c)))
        } else {
            None
        }),
{
    lemma_filters_agree(s);
}

proof fn lemma_filters_agree(s: Seq<char>)
    requires
        forall|i: int| 0 <= i < s.len() ==> is_digit(#[trigger] s[i]) || is_ws(s[i]),
    ensures
        s.filter(|c: char| is_digit(c)) == s.filter(|c: char| !is_ws(c)),
    decreases s.len(),
{
    reveal(Seq::filter);
    if s.len() > 0 {
        let t = s.drop_last();
        assert forall|i: int| 0 <= i < t.len() implies is_digit(#[trigger] t[i]) || is_ws(t[i]) by {
            assert(t[i] == s[i]);
        }
        lemma_filters_agree(t);
        assert(is_digit(s[s.len() - 1]) || is_ws(s[s.len() - 1]));
    }
}

impl Provider for Mullvad {
    open spec fn spec_alias(&self) -> Seq<char> {
        "mv"@
    }

    open spec fn spec_alias_2char(&self) -> Seq<char> {
        "mv"@
    }

    open spec fn spec_default_protocol(&self) -> Protocol {
        Protocol::Wireguard
    }

    fn alias(&self) -> (r: String) {
        "mv".to_owned()
    }

    fn alias_2char(&self) -> (r: String) {
        proof {
            reveal_strlit("mv");
        }
        "mv".to_owned()
    }

    fn default_protocol(&self) -> (r: Protocol) {
        Protocol::Wireguard
    }
}

impl ShadowsocksProvider for Mullvad {
    /// The fixed password that Mullvad documents for its Shadowsocks proxies.
    open spec fn spec_password(&self) -> Seq<char> {
        "mullvad"@
    }

    open spec fn spec_encrypt_method(&self) -> Seq<char> {
        "aes-256-gcm"@
    }

    fn password(&self) -> (r: String) {
        "mullvad".to_owned()
    }

    fn encrypt_method(&self) -> (r: String) {
        "aes-256-gcm".to_owned()
    }
}

impl Mullvad {
    /// The account number kept in a cache file with these contents: its
    /// first line, parsed as `parse_mullvad_username` does.
    pub fn read_cached_username(&self, contents: Option<&str>) -> (r: Option<String>)
        ensures
            view_opt(r) == cached_account(
                match contents {
                    Some(c) => Some(c@),
                    None => None,
                },
            ),
    {
        match contents {
            None => None,
            Some(c) => {
                let v = chars_of(c);
                let end = find_from(&v, 0, '\n');
                assert(v@.subrange(0, v@.len() as int) =~= v@);
                let line = string_of(&slice_chars(&v, 0, end));
                parse_mullvad_username(line.as_str())
            },
        }
    }

    /// The prompt for an account number, checked as it is typed.
    pub fn account_input() -> (r: Input)
        ensures
            r.prompt@ == "Mullvad account number"@,
            r.validator == Some(Validator::MullvadAccountNumber),
    {
        Input {
            prompt: "Mullvad account number".to_owned(),
            validator: Some(Validator::MullvadAccountNumber),
        }
    }

    /// What an account number entered at the prompt gives: the parsed number,
    /// or the error that the interface or the format check raised.
    pub fn account_from_entry(entered: Result<String, crate::provider::UiError>) -> (r: Result<
        String,
        ProviderError,
    >)
        ensures
            match entered {
                Err(e) => r == Err::<String, ProviderError>(ProviderError::Ui(e)),
                Ok(s) => match account_number(s@) {
                    Some(a) => r is Ok && r->Ok_0@ == a,
                    None => r == Err::<String, ProviderError>(
                        ProviderError::InvalidAccountNumber(s),
                    ),
                },
            },
    {
        match entered {
            Err(e) => Err(ProviderError::Ui(e)),
            Ok(s) => match parse_mullvad_username(s.as_str()) {
                Some(a) => Ok(a),
                None => Err(ProviderError::InvalidAccountNumber(s)),
            },
        }
    }

    /// The account number to use: the cached one where the cache holds a valid
    /// one, else one asked of the user and checked.
    pub fn request_mullvad_username<U: UiClient>(&self, cached: Option<&str>, uiclient: &U) -> (r:
        Result<String, ProviderError>)
        ensures
            cached_account(
                match cached {
                    Some(c) => Some(c@),
                    None => None,
                },
            ) matches Some(a) ==> r is Ok && r->Ok_0@ == a,
            r is Ok ==> is_account_number(r->Ok_0@),
            r matches Err(ProviderError::InvalidAccountNumber(s)) ==> account_number(s@) is None,
    {
        if let Some(cached_username) = self.read_cached_username(cached) {
            proof {
                lemma_account_number_digits(first_line(cached.unwrap()@));
            }
            return Ok(cached_username);
        }
        let entered = uiclient.get_input(&Self::account_input());
        let ghost e = entered;
        let r = Self::account_from_entry(entered);
        proof {
            if let Ok(s) = e {
                if account_number(s@) is Some {
                    lemma_account_number_digits(s@);
                }
            }
        }
        r
    }
}

} // verus!
