//! IVPN: OpenVPN bundles fetched as one archive, and an account ID with a
//! placeholder password as the credential.

use vstd::prelude::*;
use vstd::utf8::{decode_utf8, valid_utf8};
use crate::country_map::CountryCodeMap;
use crate::normalize::{filter_config_lines, filtered_config, normalize_filename, normalized_name};
use crate::provider::{ConfigurationChoice, Input, OpenVpnProtocol, ProviderError, UiClient, UiError};
use crate::text::{chars_of, push_all, string_of};

verus! {

pub struct IVPN {}

/// One member of a downloaded archive: its file name, its bytes, and whether
/// it is a directory.
pub struct ArchiveEntry {
    pub name: String,
    pub contents: Vec<u8>,
    pub is_directory: bool,
}

/// A file to write into the provider's OpenVPN directory.
#[derive(Debug, Clone, PartialEq, Eq)]
pub struct ConfigFile {
    pub name: String,
    pub contents: String,
}

pub open spec fn files_view(files: Seq<ConfigFile>) -> Seq<(Seq<char>, Seq<char>)> {
    files.map_values(|f: ConfigFile| (f.name@, f.contents@))
}

pub open spec fn url_for(protocol: OpenVpnProtocol) -> Seq<char> {
    "https://www.ivpn.net/releases/config/ivpn-openvpn-config"@ + (if protocol
        == OpenVpnProtocol::TCP {
        "-tcp"@
    } else {
        Seq::empty()
    }) + ".zip"@
}

/// The files that the entries give, in order: directories are skipped, each
/// other entry is decoded, filtered, and named by `normalized_name`.
pub open spec fn planned_files(entries: Seq<ArchiveEntry>, map: Map<Seq<char>, Seq<char>>) -> Seq<
    (Seq<char>, Seq<char>),
>
    decreases entries.len(),
{
    if entries.len() == 0 {
        Seq::empty()
    } else {
        let rest = planned_files(entries.drop_last(), map);
        let e = entries.last();
        if e.is_directory {
            rest
        } else {
            rest.push((normalized_name(e.name@, map), filtered_config(decode_utf8(e.contents@))))
        }
    }
}

pub open spec fn is_readable(e: ArchiveEntry) -> bool {
    e.is_directory || valid_utf8(e.contents@)
}

pub open spec fn account_prompt() -> Seq<char> {
    "IVPN account ID (starts with \"ivpn\" see: https://www.ivpn.net/clientarea/vpn/273887 )"@
}

pub open spec fn auth_file_name() -> Seq<char> {
    "auth.txt"@
}

pub open spec fn auth_contents(user: Seq<char>, pass: Seq<char>) -> Seq<char> {
    user + seq!['\n'] + pass
}

/// Everything a sync writes, in order: the configuration files, then the
/// credential file.
pub open spec fn sync_plan(
    entries: Seq<ArchiveEntry>,
    map: Map<Seq<char>, Seq<char>>,
    user: Seq<char>,
    pass: Seq<char>,
) -> Seq<(Seq<char>, Seq<char>)> {
    planned_files(entries, map).push((auth_file_name(), auth_contents(user, pass)))
}

/// The directory after writing `files` in order into `dir`; a later file of
/// the same name replaces an earlier one.
pub open spec fn write_files(dir: Map<Seq<char>, Seq<char>>, files: Seq<(Seq<char>, Seq<char>)>) -> Map<
    Seq<char>,
    Seq<char>,
>
    decreases files.len(),
{
    if files.len() == 0 {
        dir
    } else {
        write_files(dir, files.drop_last()).insert(files.last().0, files.last().1)
    }
}

/// A sync empties the directory, then writes its files.
pub open spec fn directory_after_sync(
    before: Map<Seq<char>, Seq<char>>,
    files: Seq<(Seq<char>, Seq<char>)>,
) -> Map<Seq<char>, Seq<char>> {
    write_files(Map::empty(), files)
}

/// Running the same sync twice leaves the same directory as running it once,
/// whatever the directory held before.
pub proof fn lemma_sync_twice_is_sync_once(
    before: Map<Seq<char>, Seq<char>>,
    entries: Seq<ArchiveEntry>,
    map: Map<Seq<char>, Seq<char>>,
    user: Seq<char>,
    pass: Seq<char>,
)
    ensures
        directory_after_sync(
            directory_after_sync(before, sync_plan(entries, map, user, pass)),
            sync_plan(entries, map, user, pass),
        ) == directory_after_sync(before, sync_plan(entries, map, user, pass)),
{
}

/// Relies on `std::str::from_utf8`: it succeeds exactly on well-formed UTF-8,
/// and the text then holds the decoded characters.
#[verifier::external_body]
fn decode_text(bytes: &Vec<u8>) -> (r: Option<String>)
    ensures
        r is Some <==> valid_utf8(bytes@),
        r matches Some(s) ==> s@ == decode_utf8(bytes@),
{
    std::str::from_utf8(bytes.as_slice()).ok().map(|s| s.to_owned())
}

/// The credential file's text: the identifier, a line break, the secret.
pub fn auth_file_contents(user: &str, pass: &str) -> (r: String)
    ensures
        r@ == auth_contents(user@, pass@),
{
    let mut v = chars_of(user);
    v.push('\n');
    push_all(&mut v, &chars_of(pass));
    string_of(&v)
}

impl IVPN {
    /// The download address of the bundle for the given transport.
    pub fn build_url(&self, protocol: &OpenVpnProtocol) -> (r: String)
        ensures
            r@ == url_for(*protocol),
    {
        let mut v = chars_of("https://www.ivpn.net/releases/config/ivpn-openvpn-config");
        match protocol {
            OpenVpnProtocol::TCP => push_all(&mut v, &chars_of("-tcp")),
            OpenVpnProtocol::UDP => {},
        }
        push_all(&mut v, &chars_of(".zip"));
        proof {
            if *protocol == OpenVpnProtocol::UDP {
                assert(v@ =~= url_for(*protocol));
            }
        }
        string_of(&v)
    }

    /// The question put to the user: which transport to download.
    pub fn protocol_choice(&self) -> (r: ConfigurationChoice)
        ensures
            r.options@.len() == 2,
            r.options@[0]@ == "udp"@,
            r.options@[1]@ == "tcp"@,
            r.default_index == 0,
    {
        let mut options: Vec<String> = Vec::new();
        options.push("udp".to_owned());
        options.push("tcp".to_owned());
        ConfigurationChoice {
            prompt: "OpenVPN protocol".to_owned(),
            options,
            default_index: OpenVpnProtocol::default_choice().index(),
        }
    }

    /// The download address for the option the user picked.
    pub fn url_for_choice(&self, chosen: Result<usize, UiError>) -> (r: Result<String, ProviderError>)
        ensures
            match chosen {
                Err(e) => r == Err::<String, ProviderError>(ProviderError::Ui(e)),
                Ok(0) => r is Ok && r->Ok_0@ == url_for(OpenVpnProtocol::UDP),
                Ok(1) => r is Ok && r->Ok_0@ == url_for(OpenVpnProtocol::TCP),
                Ok(i) => r == Err::<String, ProviderError>(ProviderError::UnknownChoice(i)),
            },
    {
        match chosen {
            Err(e) => Err(ProviderError::Ui(e)),
            Ok(i) => match OpenVpnProtocol::index_to_variant(i) {
                Some(p) => Ok(self.build_url(&p)),
                None => Err(ProviderError::UnknownChoice(i)),
            },
        }
    }

    /// Asks the user for a transport and gives the bundle's address.
    pub fn request_url<U: UiClient>(&self, uiclient: &U) -> (r: Result<String, ProviderError>)
        ensures
            r is Ok ==> r->Ok_0@ == url_for(OpenVpnProtocol::UDP) || r->Ok_0@ == url_for(
                OpenVpnProtocol::TCP,
            ),
    {
        let choice = self.protocol_choice();
        self.url_for_choice(uiclient.get_configuration_choice(&choice))
    }

    /// The credentials that an entered account ID gives: the ID, with the
    /// placeholder password IVPN expects.
    pub fn credentials_from_entry(entered: Result<String, UiError>) -> (r: Result<
        (String, String),
        ProviderError,
    >)
        ensures
            match entered {
                Err(e) => r == Err::<(String, String), ProviderError>(ProviderError::Ui(e)),
                Ok(u) => r is Ok && r->Ok_0.0@ == u@ && r->Ok_0.1@ == "password"@,
            },
    {
        match entered {
            Err(e) => Err(ProviderError::Ui(e)),
            Ok(u) => Ok((u, "password".to_owned())),
        }
    }

    /// The prompt for the account ID, taken as typed.
    pub fn account_input() -> (r: Input)
        ensures
            r.prompt@ == account_prompt(),
            r.prompt@.subrange(0, 15) == "IVPN account ID"@,
            r.validator is None,
    {
        proof {
            reveal_strlit("IVPN account ID (starts with \"ivpn\" see: https://www.ivpn.net/clientarea/vpn/273887 )");
            reveal_strlit("IVPN account ID");
            assert(account_prompt().subrange(0, 15) =~= "IVPN account ID"@);
        }
        Input {
            prompt: "IVPN account ID (starts with \"ivpn\" see: https://www.ivpn.net/clientarea/vpn/273887 )".to_owned(),
            validator: None,
        }
    }

    /// Asks the user for an IVPN account ID.
    pub fn prompt_for_auth<U: UiClient>(&self, uiclient: &U) -> (r: Result<(String, String), ProviderError>)
        ensures
            r is Ok ==> r->Ok_0.1@ == "password"@,
    {
        Self::credentials_from_entry(uiclient.get_input(&Self::account_input()))
    }

    /// The configuration files that the archive's entries give; the first
    /// entry that is not UTF-8 text stops the whole sync.
    pub fn openvpn_config_files(&self, entries: &Vec<ArchiveEntry>, map: &CountryCodeMap) -> (r:
        Result<Vec<ConfigFile>, ProviderError>)
        requires
            map.wf(),
        ensures
            r is Ok <==> forall|i: int| 0 <= i < entries@.len() ==> is_readable(#[trigger] entries@[i]),
            r matches Ok(files) ==> files_view(files@) == planned_files(entries@, map@),
            r matches Err(e) ==> exists|i: int|
                0 <= i < entries@.len() && !is_readable(#[trigger] entries@[i]) && (forall|j: int|
                    0 <= j < i ==> is_readable(#[trigger] entries@[j])) && e
                    == ProviderError::InvalidUtf8(entries@[i].name),
    {
        let mut files: Vec<ConfigFile> = Vec::new();
        let mut i: usize = 0;
        while i < entries.len()
            invariant
                i <= entries.len(),
                map.wf(),
                forall|j: int| 0 <= j < i ==> is_readable(#[trigger] entries@[j]),
                files_view(files@) == planned_files(entries@.subrange(0, i as int), map@),
            decreases entries.len() - i,
        {
            let e = &entries[i];
            proof {
                assert(entries@.subrange(0, i + 1).drop_last() =~= entries@.subrange(0, i as int));
            }
            if !e.is_directory {
                match decode_text(&e.contents) {
                    None => {
                        return Err(ProviderError::InvalidUtf8(e.name.clone()));
                    },
                    Some(text) => {
                        let name = normalize_filename(e.name.as_str(), map);
                        let contents = filter_config_lines(text.as_str());
                        files.push(ConfigFile { name, contents });
                        assert(files_view(files@) =~= planned_files(
                            entries@.subrange(0, i + 1),
                            map@,
                        ));
                    },
                }
            }
            i += 1;
        }
        assert(entries@.subrange(0, entries.len() as int) =~= entries@);
        Ok(files)
    }

    /// Everything a sync writes into the emptied OpenVPN directory: the
    /// configuration files, then the credential file.
    pub fn openvpn_sync_files(
        &self,
        entries: &Vec<ArchiveEntry>,
        map: &CountryCodeMap,
        user: &str,
        pass: &str,
    ) -> (r: Result<Vec<ConfigFile>, ProviderError>)
        requires
            map.wf(),
        ensures
            r is Ok <==> forall|i: int| 0 <= i < entries@.len() ==> is_readable(#[trigger] entries@[i]),
            r matches Ok(files) ==> files_view(files@) == sync_plan(entries@, map@, user@, pass@),
    {
        let mut files = self.openvpn_config_files(entries, map)?;
        let ghost before = files@;
        files.push(ConfigFile { name: "auth.txt".to_owned(), contents: auth_file_contents(user, pass) });
        assert(files_view(files@) =~= files_view(before).push((auth_file_name(), auth_contents(user@, pass@))));
        Ok(files)
    }
}

} // verus!
