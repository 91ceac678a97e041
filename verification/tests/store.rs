use tmux_agent_sidebar::llm::store::{
    decode_session_id, decoded_session_id_from_path, encode_session_id, name_path, tmp_path,
};

#[test]
fn encode_is_reversible_for_plain_ids() {
    let encoded = encode_session_id("sess-1");
    assert_eq!(decode_session_id(&encoded).as_deref(), Some("sess-1"));
}

#[test]
fn encode_is_reversible_for_ids_with_path_and_unicode() {
    for raw in [
        "../../etc/passwd",
        "ses/with/slash",
        "a b%c",
        "日本語-セッション",
    ] {
        let encoded = encode_session_id(raw);
        assert!(
            encoded.chars().all(|c| c.is_ascii_hexdigit()),
            "encoded form must only contain hex digits, got {encoded:?}"
        );
        assert_eq!(
            decode_session_id(&encoded).as_deref(),
            Some(raw),
            "round-trip must preserve the raw session id for {raw:?}"
        );
    }
}

#[test]
fn decode_rejects_odd_length_and_non_hex() {
    assert!(decode_session_id("abc").is_none());
    assert!(decode_session_id("zz").is_none());
    assert!(decode_session_id("").is_none());
}

#[test]
fn encode_gives_lowercase_hex_of_utf8_bytes() {
    assert_eq!(encode_session_id("sess-1"), "736573732d31");
    assert_eq!(encode_session_id("é"), "c3a9");
    assert_eq!(encode_session_id(""), "");
}

#[test]
fn decode_accepts_upper_case_and_rejects_invalid_utf8() {
    assert_eq!(decode_session_id("C3A9").as_deref(), Some("é"));
    assert_eq!(decode_session_id("4a").as_deref(), Some("J"));
    assert!(decode_session_id("ff").is_none());
    assert!(decode_session_id("c3").is_none());
    assert!(decode_session_id("é1").is_none());
}

#[test]
fn name_path_joins_under_base_dir() {
    assert_eq!(name_path("/tmp/names", "ab"), "/tmp/names/6162.txt");
    assert_eq!(name_path("/tmp/names/", "ab"), "/tmp/names/6162.txt");
    assert_eq!(name_path("", "ab"), "6162.txt");
    assert_eq!(tmp_path("/tmp/names", "ab"), "/tmp/names/.6162.tmp");
}

#[test]
fn path_traversal_in_session_id_is_contained() {
    let base = "/tmp/names";
    let evil = "../../etc/passwd";
    let written = name_path(base, evil);
    assert!(
        std::path::Path::new(&written).starts_with(base),
        "encoded path must stay under base_dir, got {written:?}"
    );
    let rest = written.strip_prefix(base).unwrap();
    assert!(rest.starts_with('/'));
    assert!(!rest[1..].contains('/'));
    assert_eq!(
        std::path::Path::new(&written).parent(),
        Some(std::path::Path::new(base))
    );
}

#[test]
fn distinct_ids_get_distinct_paths() {
    assert_ne!(name_path("/d", "ses/with/slash"), name_path("/d", "ses_with_slash"));
    assert_ne!(name_path("/d", ""), name_path("/d", "0"));
}

#[test]
fn name_files_decode_back_and_other_files_are_skipped() {
    for raw in ["sess-a", "ses/with/slash", "日本語-セッション"] {
        let path = name_path("/d", raw);
        let file = path.rsplit('/').next().unwrap();
        assert_eq!(decoded_session_id_from_path(file).as_deref(), Some(raw));
        let tmp = tmp_path("/d", raw);
        let tmp_file = tmp.rsplit('/').next().unwrap();
        assert!(decoded_session_id_from_path(tmp_file).is_none());
    }
    assert!(decoded_session_id_from_path("notes.txt").is_none());
    assert!(decoded_session_id_from_path(".sess-c.tmp").is_none());
    assert!(decoded_session_id_from_path(".txt").is_none());
    assert!(decoded_session_id_from_path(".6162.txt").is_none());
    assert!(decoded_session_id_from_path("6162.TXT").is_none());
    assert!(decoded_session_id_from_path("6162.txt.bak").is_none());
    assert!(decoded_session_id_from_path(".lock").is_none());
    assert_eq!(decoded_session_id_from_path("6162.txt").as_deref(), Some("ab"));
}
