//! Private Internet Access: a user name and a password, kept on two lines.

use vstd::prelude::*;
use crate::mullvad::first_line;
use crate::provider::{Input, Password, Protocol, Provider, ProviderError, UiClient, UiError};
use crate::text::{
    chars_of, find_from, index_of, lemma_index_of, lemma_index_of_unique,
    lemma_trimmed, slice_chars, string_of, trim_str, trimmed,
};

verus! {

pub struct PrivateInternetAccess {}

/// The credentials written on two lines, each trimmed; none where either is
/// empty once trimmed.
pub open spec fn credentials_of(first: Seq<char>, second: Seq<char>) -> Option<(Seq<char>, Seq<char>)> {
    if trimmed(first).len() > 0 && trimmed(second).len() > 0 {
        Some((trimmed(first), trimmed(second)))
    } else {
        None
    }
}

/// The text after the first line break of `s`, if it has one.
pub open spec fn after_first_line(s: Seq<char>) -> Option<Seq<char>> {
    if index_of(s, '\n') < s.len() {
        Some(s.subrange(index_of(s, '\n') as int + 1, s.len() as int))
    } else {
        None
    }
}

/// The credentials held by a cache file with these contents, if any.
pub open spec fn cached_credentials(contents: Option<Seq<char>>) -> Option<(Seq<char>, Seq<char>)> {
    match contents {
        Some(c) => match after_first_line(c) {
            Some(rest) => credentials_of(first_line(c), first_line(rest)),
            None => None,
        },
        None => None,
    }
}

pub open spec fn view_pair(o: Option<(String, String)>) -> Option<(Seq<char>, Seq<char>)> {
    match o {
        Some((u, p)) => Some((u@, p@)),
        None => None,
    }
}

pub open spec fn view_str_opt(o: Option<&str>) -> Option<Seq<char>> {
    match o {
        Some(c) => Some(c@),
        None => None,
    }
}

/// Trims both lines; succeeds when neither is empty afterwards.
pub fn parse_credentials(first_line: &str, second_line: &str) -> (r: Option<(String, String)>)
    ensures
        view_pair(r) == credentials_of(first_line@, second_line@),
{
    let username = trim_str(first_line);
    let password = trim_str(second_line);
    proof {
        lemma_trimmed(first_line@, username@);
        lemma_trimmed(second_line@, password@);
    }
    if !username.is_empty() && !password.is_empty() {
        Some((username.to_owned(), password.to_owned()))
    } else {
        None
    }
}

/// Two lines of text without line breaks, joined by one, give back the
/// credentials of those two lines.
pub proof fn lemma_two_line_cache(first: Seq<char>, second: Seq<char>)
    requires
        !first.contains('\n'),
        !second.contains('\n'),
    ensures
        cached_credentials(Some(first + seq!['\n'] + second)) == credentials_of(first, second),
{
    let s = first + seq!['\n'] + second;
    assert forall|j: int| 0 <= j < first.len() implies s[j] != '\n' by {
        assert(s[j] == first[j]);
        if first[j] == '\n' {
            assert(first.contains('\n'));
        }
    }
    lemma_index_of_unique(s, '\n', first.len() as int);
    assert(s.subrange(0, first.len() as int) =~= first);
    let rest = s.subrange(first.len() as int + 1, s.len() as int);
    assert(rest =~= second);
    assert forall|j: int| 0 <= j < second.len() implies second[j] != '\n' by {
        if second[j] == '\n' {
            assert(second.contains('\n'));
        }
    }
    lemma_index_of_unique(second, '\n', second.len() as int);
    assert(second.subrange(0, second.len() as int) =~= second);
}

impl Provider for PrivateInternetAccess {
    open spec fn spec_alias(&self) -> Seq<char> {
        "pia"@
    }

    open spec fn spec_alias_2char(&self) -> Seq<char> {
        "pi"@
    }

    open spec fn spec_default_protocol(&self) -> Protocol {
        Protocol::OpenVpn
    }

    fn alias(&self) -> (r: String) {
        "pia".to_owned()
    }

    fn alias_2char(&self) -> (r: String) {
        proof {
            reveal_strlit("pi");
        }
        "pi".to_owned()
    }

    fn default_protocol(&self) -> (r: Protocol) {
        Protocol::OpenVpn
    }
}

impl PrivateInternetAccess {
    /// The credentials kept in a cache file with these contents: its first two
    /// lines, parsed as `parse_credentials` does.
    pub fn read_cached_credentials(&self, contents: Option<&str>) -> (r: Option<(String, String)>)
        ensures
            view_pair(r) == cached_credentials(view_str_opt(contents)),
    {
        match contents {
            None => None,
            Some(c) => {
                let v = chars_of(c);
                let end = find_from(&v, 0, '\n');
                proof {
                    assert(v@.subrange(0, v@.len() as int) =~= v@);
                    lemma_index_of(v@, '\n');
                }
                if end >= v.len() {
                    return None;
                }
                let first = string_of(&slice_chars(&v, 0, end));
                let end2 = find_from(&v, end + 1, '\n');
                let second = string_of(&slice_chars(&v, end + 1, end2));
                proof {
                    let rest = v@.subrange(end + 1, v@.len() as int);
                    assert(rest.subrange(0, end2 - end - 1) =~= v@.subrange(
                        end + 1,
                        end2 as int,
                    ));
                }
                parse_credentials(first.as_str(), second.as_str())
            },
        }
    }

    /// The prompt for the user name, taken as typed.
    pub fn username_input() -> (r: Input)
        ensures
            r.prompt@ == "PrivateInternetAccess username"@,
            r.validator is None,
    {
        Input { prompt: "PrivateInternetAccess username".to_owned(), validator: None }
    }

    /// The prompt for the password, which the user types twice.
    pub fn password_request() -> (r: Password)
        ensures
            r.prompt@ == "Password"@,
            r.confirm,
    {
        Password { prompt: "Password".to_owned(), confirm: true }
    }

    /// What a user name and password entered at the prompts give: both
    /// trimmed, or the error that the interface raised or that an empty
    /// field gives.
    pub fn credentials_from_entry(
        username: Result<String, UiError>,
        password: Result<String, UiError>,
    ) -> (r: Result<(String, String), ProviderError>)
        ensures
            match (username, password) {
                (Err(e), _) => r == Err::<(String, String), ProviderError>(ProviderError::Ui(e)),
                (Ok(_), Err(e)) => r == Err::<(String, String), ProviderError>(
                    ProviderError::Ui(e),
                ),
                (Ok(u), Ok(p)) => match credentials_of(u@, p@) {
                    Some((tu, tp)) => r is Ok && r->Ok_0.0@ == tu && r->Ok_0.1@ == tp,
                    None => r == Err::<(String, String), ProviderError>(
                        ProviderError::EmptyCredentials,
                    ),
                },
            },
    {
        let u = match username {
            Err(e) => return Err(ProviderError::Ui(e)),
            Ok(u) => u,
        };
        let p = match password {
            Err(e) => return Err(ProviderError::Ui(e)),
            Ok(p) => p,
        };
        match parse_credentials(u.as_str(), p.as_str()) {
            Some(c) => Ok(c),
            None => Err(ProviderError::EmptyCredentials),
        }
    }

    /// The credentials to use: the cached ones where the cache holds valid
    /// ones, else a user name and a confirmed password asked of the user.
    pub fn prompt_for_auth<U: UiClient>(&self, cached: Option<&str>, uiclient: &U) -> (r: Result<
        (String, String),
        ProviderError,
    >)
        ensures
            cached_credentials(view_str_opt(cached)) matches Some(c) ==> r is Ok && r->Ok_0.0@
                == c.0 && r->Ok_0.1@ == c.1,
            r is Ok ==> r->Ok_0.0@.len() > 0 && r->Ok_0.1@.len() > 0,
    {
        if let Some((username, password)) = self.read_cached_credentials(cached) {
            return Ok((username, password));
        }
        let username = uiclient.get_input(&Self::username_input());
        if let Err(e) = username {
            return Err(ProviderError::Ui(e));
        }
        let password = uiclient.get_password(&Self::password_request());
        Self::credentials_from_entry(username, password)
    }
}

} // verus!
