use attention::config::{config_path_bytes, encode_config, parse_config, Config};

#[test]
fn encode_without_library_path() {
    let c = Config { library_path: None, discord_presence: true };
    let bytes = encode_config(&c);
    assert_eq!(bytes, br#"{"library_path":null,"discord_presence":true}"#.to_vec());
}

#[test]
fn encode_with_library_path() {
    let c = Config {
        library_path: Some(b"/home/user/Music".to_vec()),
        discord_presence: false,
    };
    let bytes = encode_config(&c);
    assert_eq!(
        bytes,
        br#"{"library_path":"/home/user/Music","discord_presence":false}"#.to_vec()
    );
}

#[test]
fn encode_escapes_quotes_and_backslashes() {
    let c = Config {
        library_path: Some(br#"C:\Musik\"best" songs"#.to_vec()),
        discord_presence: true,
    };
    let bytes = encode_config(&c);
    assert_eq!(
        bytes,
        br#"{"library_path":"C:\\Musik\\\"best\" songs","discord_presence":true}"#.to_vec()
    );
}

#[test]
fn round_trip_without_library_path() {
    let c = Config { library_path: None, discord_presence: false };
    let back = parse_config(&encode_config(&c)).expect("own encoding parses");
    assert_eq!(back, c);
}

#[test]
fn round_trip_with_plain_path() {
    let c = Config {
        library_path: Some(b"/home/user/Music".to_vec()),
        discord_presence: true,
    };
    let back = parse_config(&encode_config(&c)).expect("own encoding parses");
    assert_eq!(back, c);
}

#[test]
fn round_trip_with_special_bytes_in_path() {
    let c = Config {
        library_path: Some(b"a\"b\\c\"\"\\\\d".to_vec()),
        discord_presence: true,
    };
    let back = parse_config(&encode_config(&c)).expect("own encoding parses");
    assert_eq!(back, c);
}

#[test]
fn round_trip_with_empty_path() {
    let c = Config { library_path: Some(Vec::new()), discord_presence: false };
    let back = parse_config(&encode_config(&c)).expect("own encoding parses");
    assert_eq!(back, c);
}

#[test]
fn parse_reads_a_handwritten_document() {
    let doc = br#"{"library_path":"/srv/audio","discord_presence":false}"#.to_vec();
    let c = parse_config(&doc).expect("well-formed document");
    assert_eq!(c.library_path, Some(b"/srv/audio".to_vec()));
    assert!(!c.discord_presence);
}

#[test]
fn parse_accepts_the_pretty_printed_form() {
    let doc =
        b"{\n  \"library_path\": \"/srv/audio\",\n  \"discord_presence\": false\n}".to_vec();
    let c = parse_config(&doc).expect("pretty form parses");
    assert_eq!(c.library_path, Some(b"/srv/audio".to_vec()));
    assert!(!c.discord_presence);
}

#[test]
fn parse_accepts_whitespace_between_tokens() {
    let doc = b"{ \"library_path\" : null ,\t\"discord_presence\" :  true }".to_vec();
    let c = parse_config(&doc).expect("spaced form parses");
    assert_eq!(c.library_path, None);
    assert!(c.discord_presence);
}

#[test]
fn parse_rejects_malformed_documents() {
    assert!(parse_config(&Vec::new()).is_none());
    assert!(parse_config(&b"{}".to_vec()).is_none());
    assert!(parse_config(&b"not json at all".to_vec()).is_none());
    // wrong key
    assert!(parse_config(&br#"{"library":"/a","discord_presence":true}"#.to_vec()).is_none());
    // unterminated string
    assert!(parse_config(&br#"{"library_path":"/a"#.to_vec()).is_none());
    // missing second field
    assert!(parse_config(&br#"{"library_path":null}"#.to_vec()).is_none());
    // wrong boolean word
    assert!(parse_config(&br#"{"library_path":null,"discord_presence":yes}"#.to_vec()).is_none());
    // trailing bytes after the closing brace
    assert!(
        parse_config(&br#"{"library_path":null,"discord_presence":true} "#.to_vec()).is_none()
    );
}

#[test]
fn set_library_remembers_the_path() {
    let mut c = Config { library_path: None, discord_presence: true };
    c.set_library(b"/data/music".to_vec());
    assert_eq!(c.library_path, Some(b"/data/music".to_vec()));
    assert!(c.discord_presence);
}

#[test]
fn set_discord_presence_flips_only_the_flag() {
    let mut c = Config { library_path: Some(b"/m".to_vec()), discord_presence: true };
    c.set_discord_presence(false);
    assert!(!c.discord_presence);
    assert_eq!(c.library_path, Some(b"/m".to_vec()));
}

#[test]
fn config_path_sits_at_the_fixed_place_under_home() {
    let p = config_path_bytes(&b"/home/user".to_vec());
    assert_eq!(p, b"/home/user/.config/attention/attention.json".to_vec());
}
