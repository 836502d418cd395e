//! Configuration, hosts, addresses and the shared error boundary.
use pagebin::config::{
    parse_public_url, parse_secret, parse_upload_limit, resolved_data_dir, valid_password,
    validated_data_dir, Config, ConfigBuilder, Dotenv,
};
use pagebin::error::AppError;
use pagebin::host::Host;
use pagebin::ip::IpAddr;
use std::collections::HashMap;

const BYTES_PER_MIB: u64 = 1024 * 1024;

fn settings() -> HashMap<&'static str, Vec<u8>> {
    HashMap::from([
        ("PAGEBIN_ADMIN_HOST", b"pages.local".to_vec()),
        ("PAGEBIN_ADMIN_PASSWORD", b"synthetic-password".to_vec()),
    ])
}

fn build(settings: &HashMap<&str, Vec<u8>>) -> Result<Config, AppError> {
    ConfigBuilder::from_lookup(|key: &str| settings.get(key).cloned()).build()
}

#[test]
fn config_full_environment_builds_and_defaults_apply() {
    let mut settings = settings();
    let config = build(&settings).unwrap();
    let (address, port) = config.listen();
    assert_eq!((address.parts(), port), ([0, 0, 0, 0].as_slice(), 5050));
    settings.extend([
        ("PAGEBIN_VIEW_HOST", b"VIEW.localhost.".to_vec()),
        ("PAGEBIN_PUBLIC_URL", b"http://VIEW.localhost:8080/".to_vec()),
        ("PAGEBIN_PORT", b"0".to_vec()),
        ("RUST_LOG", b"pagebin=debug".to_vec()),
        ("PAGEBIN_SECRET", "ab".repeat(32).into_bytes()),
        ("PAGEBIN_TRUST_PROXY", b"true".to_vec()),
    ]);
    let config = build(&settings).unwrap();
    assert_eq!(config.admin_host(), "pages.local");
    assert_eq!(config.view_host(), Some("view.localhost"));
    assert_eq!(config.public_url(), "http://view.localhost:8080");
    let (address, port) = config.listen();
    assert_eq!((address.parts(), port), ([0, 0, 0, 0].as_slice(), 0));
    assert_eq!(config.log_filter(), "pagebin=debug");
    assert!(config.trust_proxy());
    let (password, _, secret) = config.into_auth_settings();
    assert_eq!(password, "synthetic-password");
    assert_eq!(secret, Some([0xab; 32]));
}

#[test]
fn config_missing_or_invalid_values_name_only_the_variable() {
    for (name, value) in [("PAGEBIN_ADMIN_HOST", None), ("PAGEBIN_PORT", Some("http"))] {
        let mut settings = settings();
        settings.remove(name);
        settings.extend(value.map(|value: &str| (name, value.as_bytes().to_vec())));
        let error = build(&settings).err().unwrap();
        assert!(error.to_text().contains(name));
        assert!(!format!("{error:?}").contains("synthetic-password"));
    }
}

#[test]
fn config_defaults_and_absolute_data_directory() {
    let config = build(&settings()).unwrap();
    assert_eq!(config.max_upload_bytes(), 50 * 1024 * 1024);
    assert_eq!(config.public_url(), "https://pages.local");
    assert_eq!(config.log_filter(), "pagebin=info,tower_http=info");
    assert!(config.view_host().is_none() && config.api_token().is_none());
    assert!(!config.trust_proxy());
    assert!(config.data_dir().starts_with('/') && config.data_dir().ends_with("/data"));
    assert_eq!(config.data_dir(), validated_data_dir("data").unwrap());
    assert_eq!(config.data_dir(), std::path::absolute("data").unwrap().to_str().unwrap());
}

#[test]
fn config_rejects_each_invalid_variable_by_its_name() {
    for (name, value) in [
        ("PAGEBIN_ADMIN_HOST", b"https://pages.local".to_vec()),
        ("PAGEBIN_ADMIN_PASSWORD", b"two\nlines".to_vec()),
        ("PAGEBIN_API_TOKEN", b"".to_vec()),
        ("PAGEBIN_VIEW_HOST", b"PAGES.local.".to_vec()),
        ("PAGEBIN_PUBLIC_URL", b"http://pages.local".to_vec()),
        ("PAGEBIN_MAX_UPLOAD_MB", b"0".to_vec()),
        ("PAGEBIN_DATA_DIR", b"".to_vec()),
        ("PAGEBIN_PORT", b"invalid-port-value".to_vec()),
        ("RUST_LOG", b"pagebin=invalid-filter-value".to_vec()),
        ("PAGEBIN_SECRET", b"invalid-signing-secret".to_vec()),
        ("PAGEBIN_TRUST_PROXY", b"invalid-proxy-choice".to_vec()),
        ("PAGEBIN_ADMIN_PASSWORD", vec![0xff]),
    ] {
        let mut settings = settings();
        settings.insert(name, value);
        let error = build(&settings).err().unwrap();
        assert_eq!(error.to_text(), format!("missing or invalid configuration: {name}"));
        assert_eq!(error.into_response(), (500, "internal server error"));
    }
}

#[test]
fn config_upload_limit_accepts_whole_mebibytes_and_rejects_zero_or_overflow() {
    assert_eq!(parse_upload_limit("50"), Some(50 * 1024 * 1024));
    let max_mib = u64::try_from(isize::MAX).unwrap() / BYTES_PER_MIB;
    assert!(parse_upload_limit(&max_mib.to_string()).is_some());
    assert!(parse_upload_limit(&(max_mib + 1).to_string()).is_none());
    for input in ["", "0", "-1", "1.5", "50MiB", "18446744073709551616"] {
        assert!(parse_upload_limit(input).is_none(), "accepted {input:?}");
    }
}

#[test]
fn config_public_url_canonicalizes_root_urls_on_the_viewer_host() {
    let host = Host::parse("view.example").unwrap();
    let url = parse_public_url("HTTPS://VIEW.EXAMPLE.:8443/", &host);
    assert_eq!(url.as_deref(), Some("https://view.example:8443"));
    let local = Host::parse("localhost").unwrap();
    let url = parse_public_url("http://LOCALHOST:8080", &local);
    assert_eq!(url.as_deref(), Some("http://localhost:8080"));
}

#[test]
fn config_public_url_rejects_paths_schemes_and_foreign_hosts() {
    let host = Host::parse("view.example").unwrap();
    for input in [
        "https://view.example/path",
        "https://view.example/?query",
        "https://view.example#fragment",
        "ftp://view.example/",
        "http://view.example",
        "https://foreign.example",
        "https://user@view.example",
        "https://view.example:0",
    ] {
        assert!(parse_public_url(input, &host).is_none());
    }
}

#[test]
fn config_secrets_are_sixty_four_hexadecimal_digits() {
    let mut expected = [0; 32];
    expected[0] = 0x0f;
    expected[31] = 0xa1;
    let text = format!("0F{}a1", "00".repeat(30));
    assert_eq!(parse_secret(&text).unwrap(), expected);
    for invalid in ["", "ab", &"g".repeat(64), &"a".repeat(63), &"a".repeat(65)] {
        assert!(parse_secret(invalid).is_err());
    }
}

#[test]
fn config_data_directories_are_resolved_before_use() {
    assert!(validated_data_dir("nested/data").unwrap().ends_with("/nested/data"));
    assert_eq!(validated_data_dir("/srv/pagebin").unwrap(), "/srv/pagebin");
    assert!(resolved_data_dir("data", None).is_err());
    assert!(validated_data_dir("").is_err());
}

#[test]
fn dotenv_values_stand_in_for_missing_variables() {
    let file = Dotenv::parse("# comment\nPAGEBIN_PORT=6060\nPAGEBIN_ADMIN_HOST = pages.local\n");
    assert_eq!(file.get("PAGEBIN_PORT"), Some("6060"));
    assert!(file.get("MISSING").is_none());
    assert_eq!(file.or_else(Some(b"7070".to_vec()), "PAGEBIN_PORT"), Some(b"7070".to_vec()));
    assert_eq!(file.or_else(None, "PAGEBIN_PORT"), Some(b"6060".to_vec()));
    assert!(file.or_else(None, "MISSING").is_none());
}

#[test]
fn set_variables_win_over_the_settings_file() {
    let file = "PAGEBIN_ADMIN_HOST=file.local\nPAGEBIN_PORT=6060\nPAGEBIN_API_TOKEN=from-file\n";
    let mut settings = settings();
    let load = |settings: &HashMap<&str, Vec<u8>>| {
        Config::from_env(|name: &str| settings.get(name).cloned(), file)
    };
    let config = load(&settings).unwrap();
    assert_eq!((config.admin_host(), config.listen().1), ("pages.local", 6060));
    assert_eq!(config.api_token(), Some("from-file"));
    settings.insert("PAGEBIN_PORT", b"7070".to_vec());
    assert_eq!(load(&settings).unwrap().listen().1, 7070);
    settings.insert("PAGEBIN_API_TOKEN", Vec::new());
    let error = load(&settings).err().unwrap();
    assert_eq!(error.to_text(), "missing or invalid configuration: PAGEBIN_API_TOKEN");
}

#[test]
fn dotenv_values_are_kept_as_they_stand() {
    let file = Dotenv::parse("# note\n\nexport A= x\nB=\"q\"\nC=1=2\n");
    assert_eq!(file.get("A"), Some(" x"));
    assert_eq!(file.get("B"), Some("\"q\""));
    assert_eq!(file.get("C"), Some("1=2"));
    let file = Dotenv::parse("A=x  \r\n  B='it''s' # no comment\r\nC=\nno assignment\nD=1\nD=2");
    assert_eq!(file.get("A"), Some("x  "));
    assert_eq!(file.get("D"), Some("2"));
    assert_eq!(file.get("B"), Some("'it''s' # no comment"));
    assert_eq!(file.get("C"), Some(""));
    assert!(file.get("no assignment").is_none());
}

#[test]
fn passwords_are_bounded_single_lines() {
    assert!(valid_password("synthetic-password") && valid_password(&"x".repeat(131_072)));
    assert!(!valid_password("") && !valid_password("a\rb") && !valid_password("a\0b"));
    assert!(!valid_password(&"x".repeat(131_073)));
}

#[test]
fn host_parse_normalizes_names_and_bracketed_ipv6_and_rejects_ports() {
    for (input, normalized) in [
        ("Pages.Example.COM.", "pages.example.com"),
        ("127.0.0.1", "127.0.0.1"),
        ("[0:0:0:0:0:0:0:1]", "[::1]"),
    ] {
        assert_eq!(Host::parse(input).unwrap().as_str(), normalized);
    }
    for input in ["", "a..b", "a_b", "a:8080", "::1", "[::1]:8080"] {
        assert!(Host::parse(input).is_none(), "accepted {input:?}");
    }
}

#[test]
fn host_parse_is_blind_to_case_and_to_one_final_dot() {
    for host in ["pages.example.com", "a-b.c", "127.0.0.1"] {
        for shown in [host.to_uppercase(), format!("{host}."), format!("{}.", host.to_uppercase())] {
            assert_eq!(Host::parse(&shown).unwrap().as_str(), host);
        }
        assert!(Host::parse(&format!("{host}..")).is_none());
    }
    for address in ["[2001:db8::a]", "[::ffff:192.0.2.1]"] {
        assert_eq!(Host::parse(&address.to_uppercase()).unwrap().as_str(), address);
        assert!(Host::parse(&format!("{address}.")).is_none());
    }
    assert!(Host::parse("A_B").is_none() && Host::parse("[2001:DB8::G]").is_none());
}

#[test]
fn host_authority_accepts_optional_ports_and_rejects_forwarded_shapes() {
    for input in ["pages.local", "pages.local:8080", "[::1]:8080"] {
        assert!(Host::from_authority(input).is_some(), "rejected {input:?}");
    }
    for input in [
        "pages.local:",
        "pages.local:abc",
        "pages.local:65536",
        "user@pages.local",
        "pages.local:80:90",
        "pages.local,view.local",
        " pages.local",
        "pages.local/",
    ] {
        assert!(Host::from_authority(input).is_none(), "accepted {input:?}");
    }
}

#[test]
fn loopback_hosts_are_recognized() {
    for host in ["localhost", "view.localhost", "127.0.0.1", "127.9.8.7", "[::1]"] {
        assert!(Host::parse(host).unwrap().is_loopback(), "{host}");
    }
    for host in ["localhost.example", "128.0.0.1", "[::2]", "mylocalhost"] {
        assert!(!Host::parse(host).unwrap().is_loopback(), "{host}");
    }
}

#[test]
fn addresses_round_trip_and_mapped_ones_become_canonical() {
    let parse = |text: &str| IpAddr::parse(&text.chars().collect::<Vec<char>>());
    assert_eq!(parse("192.0.2.1").unwrap().parts(), [192, 0, 2, 1]);
    assert_eq!(
        parse("2001:db8::1").unwrap().parts(),
        [0x2001, 0xdb8, 0, 0, 0, 0, 0, 1]
    );
    let mapped = parse("::ffff:192.0.2.9").unwrap();
    assert_eq!(mapped.to_canonical().parts(), [192, 0, 2, 9]);
    for invalid in ["", "192.0.2", "192.0.2.256", "01.2.3.4", ":::", "1:2:3", "::1%eth0"] {
        assert!(parse(invalid).is_none(), "{invalid:?}");
    }
}

#[test]
fn only_rejections_choose_their_own_answer() {
    assert_eq!(AppError::storage().to_text(), "storage initialization failed");
    assert_eq!(AppError::database().to_text(), "database initialization failed");
    assert_eq!(AppError::migration().to_text(), "database migration failed");
    assert_eq!(AppError::listener().to_text(), "listener operation failed");
    assert_eq!(AppError::logging().to_text(), "logging initialization failed");
    assert_eq!(AppError::publishing().into_response(), (500, "internal server error"));
    assert_eq!(AppError::request(409, "taken").into_response(), (409, "taken"));
}
