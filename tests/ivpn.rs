use std::io::Write;
use vopono_core::country_map::CountryCodeMap;
use vopono_core::ivpn::{auth_file_contents, ArchiveEntry, ConfigFile, IVPN};
use vopono_core::normalize::{filter_config_lines, normalize_filename};
use vopono_core::provider::{
    ConfigurationChoice, Input, OpenVpnProtocol, Password, ProviderError, UiClient, UiError,
};

fn entry(name: &str, contents: &[u8], is_directory: bool) -> ArchiveEntry {
    ArchiveEntry { name: name.to_string(), contents: contents.to_vec(), is_directory }
}

#[test]
fn canonical_name_is_kept() {
    let map = CountryCodeMap::standard();
    assert_eq!(normalize_filename("fr-33.ovpn", &map), "fr-33.ovpn");
    let once = normalize_filename("fr-33.ovpn", &map);
    assert_eq!(normalize_filename(&once, &map), once);
}

#[test]
fn country_and_city_are_normalized() {
    let map = CountryCodeMap::standard();
    assert_eq!(normalize_filename("France-Paris.ovpn", &map), "france-fr-paris.ovpn");
    assert_eq!(normalize_filename("FRANCE.ovpn", &map), "france-fr.ovpn");
    assert_eq!(normalize_filename("Germany-Frankfurt-2.ovpn", &map), "germany-de-frankfurt.ovpn");
}

#[test]
fn spaced_name_keeps_spaces_in_tokens() {
    let map = CountryCodeMap::standard();
    assert_eq!(normalize_filename("France - Paris.ovpn", &map), "france_-_paris.ovpn");
}

#[test]
fn unknown_country_falls_back() {
    let map = CountryCodeMap::standard();
    assert_eq!(normalize_filename("Atlantis City-North.ovpn", &map), "atlantis_city-north.ovpn");
}

#[test]
fn other_extensions_are_lowercased() {
    let map = CountryCodeMap::standard();
    assert_eq!(normalize_filename("France CA.crt", &map), "france ca.crt");
    assert_eq!(normalize_filename(".ovpn", &map), ".ovpn");
}

#[test]
fn country_map_insert_and_get() {
    let mut map = CountryCodeMap::new();
    assert_eq!(map.get(&"france".to_string()), None);
    map.insert("france".to_string(), "fr".to_string());
    map.insert("france".to_string(), "fx".to_string());
    assert_eq!(map.get(&"france".to_string()), Some("fx".to_string()));
    assert_eq!(normalize_filename("France-Paris.ovpn", &map), "france-fx-paris.ovpn");
}

#[test]
fn auth_lines_are_removed() {
    let text = "client\nauth-user-pass auth.txt\nremote a 1194\nup /etc/up.sh\ndown /etc/down.sh\nupdate x";
    assert_eq!(filter_config_lines(text), "client\nremote a 1194\nupdate x");
    assert_eq!(filter_config_lines("auth-user-pass auth.txt"), "");
    assert_eq!(filter_config_lines("a\n\nb\n"), "a\n\nb\n");
}

#[test]
fn download_urls() {
    let ivpn = IVPN {};
    assert_eq!(
        ivpn.build_url(&OpenVpnProtocol::UDP),
        "https://www.ivpn.net/releases/config/ivpn-openvpn-config.zip"
    );
    assert_eq!(
        ivpn.build_url(&OpenVpnProtocol::TCP),
        "https://www.ivpn.net/releases/config/ivpn-openvpn-config-tcp.zip"
    );
    assert_eq!(
        ivpn.url_for_choice(Ok(1)),
        Ok("https://www.ivpn.net/releases/config/ivpn-openvpn-config-tcp.zip".to_string())
    );
    assert_eq!(ivpn.url_for_choice(Ok(2)), Err(ProviderError::UnknownChoice(2)));
}

struct Scripted;

impl UiClient for Scripted {
    fn get_input(&self, _input: &Input) -> Result<String, UiError> {
        Ok("ivpnABCD".to_string())
    }

    fn get_password(&self, _password: &Password) -> Result<String, UiError> {
        panic!("no password is asked for")
    }

    fn get_configuration_choice(&self, choice: &ConfigurationChoice) -> Result<usize, UiError> {
        assert_eq!(choice.default_index, 0);
        Ok(0)
    }
}

#[test]
fn url_and_credentials_from_the_user() {
    let ivpn = IVPN {};
    assert_eq!(
        ivpn.request_url(&Scripted),
        Ok("https://www.ivpn.net/releases/config/ivpn-openvpn-config.zip".to_string())
    );
    assert_eq!(
        ivpn.prompt_for_auth(&Scripted),
        Ok(("ivpnABCD".to_string(), "password".to_string()))
    );
}

fn fixture() -> Vec<ArchiveEntry> {
    vec![
        entry("configs", b"", true),
        entry("France-Paris.ovpn", b"client\nauth-user-pass auth.txt\nremote fr 1194", false),
        entry("Mars-Base.ovpn", b"client\nup x", false),
    ]
}

#[test]
fn sync_files_from_archive() {
    let map = CountryCodeMap::standard();
    let files = IVPN {}.openvpn_sync_files(&fixture(), &map, "ivpnABCD", "password").unwrap();
    assert_eq!(
        files,
        vec![
            ConfigFile {
                name: "france-fr-paris.ovpn".to_string(),
                contents: "client\nremote fr 1194".to_string()
            },
            ConfigFile { name: "mars-base.ovpn".to_string(), contents: "client".to_string() },
            ConfigFile { name: "auth.txt".to_string(), contents: "ivpnABCD\npassword".to_string() },
        ]
    );
}

#[test]
fn sync_twice_gives_same_files() {
    let map = CountryCodeMap::standard();
    let a = IVPN {}.openvpn_sync_files(&fixture(), &map, "u", "p");
    let b = IVPN {}.openvpn_sync_files(&fixture(), &map, "u", "p");
    assert_eq!(a, b);
}

#[test]
fn non_utf8_entry_fails_the_sync() {
    let map = CountryCodeMap::standard();
    let entries = vec![
        entry("ok.ovpn", b"client", false),
        entry("bad.ovpn", &[0xff, 0xfe], false),
        entry("worse.ovpn", &[0xc0], false),
    ];
    assert_eq!(
        IVPN {}.openvpn_config_files(&entries, &map),
        Err(ProviderError::InvalidUtf8("bad.ovpn".to_string()))
    );
}

#[test]
fn credential_file_text() {
    assert_eq!(auth_file_contents("user", "secret"), "user\nsecret");
}

fn fixture_zip() -> Vec<u8> {
    let mut w = zip::ZipWriter::new(std::io::Cursor::new(Vec::new()));
    let options = zip::write::SimpleFileOptions::default();
    w.add_directory("configs/", options).unwrap();
    w.start_file("configs/France-Paris.ovpn", options).unwrap();
    w.write_all(b"client\nauth-user-pass auth.txt\nremote fr 1194").unwrap();
    w.start_file("configs/Mars-Base.ovpn", options).unwrap();
    w.write_all(b"client\nup x").unwrap();
    w.finish().unwrap().into_inner()
}

#[test]
fn archive_members_are_read() {
    let entries = vopono_core::archive::read_archive(fixture_zip()).unwrap();
    assert_eq!(entries.len(), 3);
    assert!(entries[0].is_directory);
    assert_eq!(entries[1].name, "France-Paris.ovpn");
    assert_eq!(entries[1].contents, b"client\nauth-user-pass auth.txt\nremote fr 1194".to_vec());
    assert!(!entries[2].is_directory);
}

#[test]
fn sync_twice_from_fixture_archive_is_identical() {
    let map = CountryCodeMap::standard();
    let first = vopono_core::archive::read_archive(fixture_zip()).unwrap();
    let second = vopono_core::archive::read_archive(fixture_zip()).unwrap();
    let a = IVPN {}.openvpn_sync_files(&first, &map, "u", "p").unwrap();
    let b = IVPN {}.openvpn_sync_files(&second, &map, "u", "p").unwrap();
    assert_eq!(a, b);
    assert_eq!(a[0].name, "france-fr-paris.ovpn");
    assert_eq!(a[0].contents, "client\nremote fr 1194");
}

#[test]
fn corrupt_archive_is_rejected() {
    let r = vopono_core::archive::read_archive(b"not a zip".to_vec());
    assert!(matches!(r, Err(ProviderError::InvalidArchive(_))));
}

#[test]
fn ivpn_account_prompt() {
    let input = IVPN::account_input();
    assert!(input.prompt.starts_with("IVPN account ID"));
    assert!(input.validator.is_none());
}
