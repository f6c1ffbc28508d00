use ini::Ini;
use rustgit::config::{
    default_config_bytes, default_repo_config, parse_configuration, strip_byte_order_mark,
};

fn sections_of(ini: &Ini) -> Vec<(Option<String>, Vec<(String, String)>)> {
    ini.iter()
        .map(|(name, pairs)| {
            (
                name.map(String::from),
                pairs.iter().map(|(k, v)| (k.to_string(), v.to_string())).collect(),
            )
        })
        .collect()
}

fn pair(key: &str, value: &str) -> (String, String) {
    (key.to_string(), value.to_string())
}

fn default_sections() -> Vec<(Option<String>, Vec<(String, String)>)> {
    vec![
        (None, vec![]),
        (
            Some("core".to_string()),
            vec![pair("repositoryformatversion", "0"), pair("filemode", "false"), pair("bare", "false")],
        ),
    ]
}

#[test]
fn default_config_has_one_named_section_with_three_keys() {
    let ini = default_repo_config();
    assert_eq!(sections_of(&ini), default_sections());
}

#[test]
fn default_config_values_by_lookup() {
    let ini = default_repo_config();
    assert_eq!(ini.get_from(Some("core"), "repositoryformatversion"), Some("0"));
    assert_eq!(ini.get_from(Some("core"), "filemode"), Some("false"));
    assert_eq!(ini.get_from(Some("core"), "bare"), Some("false"));
    assert_eq!(ini.get_from(Some("core"), "missing"), None);
    assert_eq!(ini.get_from(Some("user"), "bare"), None);
}

#[test]
fn default_config_document_is_exact() {
    assert_eq!(
        default_config_bytes(),
        b"[core]\nrepositoryformatversion=0\nfilemode=false\nbare=false\n".to_vec()
    );
}

#[test]
fn default_config_document_is_the_same_every_time() {
    assert_eq!(default_config_bytes(), default_config_bytes());
}

#[test]
fn default_config_document_reads_back_as_default() {
    let document = default_config_bytes();
    let ini = parse_configuration(&document).expect("the default document parses");
    assert_eq!(sections_of(&ini), default_sections());
}

#[test]
fn parse_reads_sections_in_file_order() {
    let ini = parse_configuration(b"top = 1\n[b]\nx = y\n[a]\nk = v\nk2 = v2\n").unwrap();
    assert_eq!(
        sections_of(&ini),
        vec![
            (None, vec![pair("top", "1")]),
            (Some("b".to_string()), vec![pair("x", "y")]),
            (Some("a".to_string()), vec![pair("k", "v"), pair("k2", "v2")]),
        ]
    );
}

#[test]
fn parse_of_empty_file_is_an_empty_general_section() {
    let ini = parse_configuration(b"").unwrap();
    assert_eq!(sections_of(&ini), vec![(None, vec![])]);
}

#[test]
fn parse_skips_a_byte_order_mark() {
    let mut document = vec![0xEF, 0xBB, 0xBF];
    document.extend_from_slice(&default_config_bytes());
    let ini = parse_configuration(&document).unwrap();
    assert_eq!(sections_of(&ini), default_sections());
}

#[test]
fn parse_rejects_bytes_that_are_no_text() {
    assert!(parse_configuration(&[b'[', 0xFF, 0xFE, b']']).is_err());
}

#[test]
fn parse_rejects_an_unclosed_section_header() {
    assert!(parse_configuration(b"[core\nbare=false\n").is_err());
}

#[test]
fn parse_rejects_a_value_without_key() {
    assert!(parse_configuration(b"[core]\n= false\n").is_err());
}

#[test]
fn strip_removes_exactly_the_mark() {
    assert_eq!(strip_byte_order_mark(&[0xEF, 0xBB, 0xBF, b'a', b'b']), b"ab");
    assert_eq!(strip_byte_order_mark(&[0xEF, 0xBB, 0xBF]), b"");
}

#[test]
fn strip_leaves_other_bytes_alone() {
    assert_eq!(strip_byte_order_mark(b"abc"), b"abc");
    assert_eq!(strip_byte_order_mark(b""), b"");
    assert_eq!(strip_byte_order_mark(&[0xEF, 0xBB]), &[0xEF, 0xBB]);
    assert_eq!(strip_byte_order_mark(&[0xEF, 0xBB, 0xBE, b'x']), &[0xEF, 0xBB, 0xBE, b'x']);
    assert_eq!(strip_byte_order_mark(&[b'x', 0xEF, 0xBB, 0xBF]), &[b'x', 0xEF, 0xBB, 0xBF]);
}
