use tidysync::apikey::{extract_api_key, from_syncthing_config, key_from_entries, read_dotenv, resolve};

#[test]
fn extracts_the_api_key() {
    let xml = r#"<configuration version="37">
            <gui enabled="true">
                <address>127.0.0.1:8384</address>
                <apikey>abc123XYZ</apikey>
            </gui>
        </configuration>"#;

    assert_eq!(extract_api_key(xml), Some("abc123XYZ"));
}

#[test]
fn returns_none_when_the_element_is_absent_or_empty() {
    assert_eq!(extract_api_key("<configuration></configuration>"), None);
    assert_eq!(extract_api_key("<apikey></apikey>"), None);
    assert_eq!(extract_api_key("<apikey>   </apikey>"), None);
    assert_eq!(extract_api_key("<apikey>truncated"), None);
}

#[test]
fn reads_the_key_from_dotenv_contents_including_the_export_prefix() {
    let unrelated = "TIDYSYNC_TEST_UNRELATED_VAR";
    let contents = format!("export {unrelated}=somevalue\nexport SYNCTHING_API_KEY=fromdotenv\n");
    assert_eq!(read_dotenv(contents.as_bytes()), Some("fromdotenv".to_string()));
}

#[test]
fn dotenv_contents_without_the_key_give_none() {
    assert_eq!(read_dotenv(b"OTHER=1\n# comment\n"), None);
    assert_eq!(read_dotenv(b""), None);
    // The name spelled out in a comment, or on a line that does not parse,
    // names no variable.
    assert_eq!(read_dotenv(b"# SYNCTHING_API_KEY=hidden\n"), None);
    assert_eq!(read_dotenv(b"SYNCTHING_API_KEY x\n"), None);
    // An unclosed quote swallows the lines after it.
    assert_eq!(read_dotenv(b"SYNCTHING_API_KEY='open\nSYNCTHING_API_KEY=ok\n"), None);
    // A line that parses after one that does not still counts.
    assert_eq!(read_dotenv(b"=bad\nSYNCTHING_API_KEY=ok\n"), Some("ok".to_string()));
}

#[test]
fn the_first_dotenv_entry_for_the_key_wins() {
    let entries = vec![
        None,
        Some(("OTHER".to_string(), "x".to_string())),
        Some(("SYNCTHING_API_KEY".to_string(), "first".to_string())),
        Some(("SYNCTHING_API_KEY".to_string(), "second".to_string())),
    ];
    assert_eq!(key_from_entries(&entries), Some("first".to_string()));
    assert_eq!(key_from_entries(&vec![None]), None);
}

#[test]
fn the_key_is_trimmed_and_the_first_element_counts() {
    assert_eq!(extract_api_key("<apikey>\n  k1 \t</apikey><apikey>k2</apikey>"), Some("k1"));
    assert_eq!(extract_api_key("x<apikey>a b</apikey>"), Some("a b"));
    assert_eq!(extract_api_key("</apikey><apikey>é9</apikey>"), Some("é9"));
}

#[test]
fn resolve_prefers_the_most_explicit_source() {
    let s = |v: &str| Some(v.to_string());
    assert_eq!(resolve(s("cli"), s("env"), s("cfg")), s("cli"));
    assert_eq!(resolve(None, s("env"), s("cfg")), s("env"));
    assert_eq!(resolve(None, None, s("cfg")), s("cfg"));
    assert_eq!(resolve(None, None, None), None);
}

#[test]
fn the_first_config_with_a_key_is_used() {
    let xmls = vec![
        "<configuration></configuration>".to_string(),
        "<apikey>fromstate</apikey>".to_string(),
        "<apikey>fromconfig</apikey>".to_string(),
    ];
    assert_eq!(from_syncthing_config(&xmls), Some(("fromstate".to_string(), 1)));
    assert_eq!(from_syncthing_config(&vec!["<apikey> </apikey>".to_string()]), None);
    assert_eq!(from_syncthing_config(&vec![]), None);
}

/// The extraction as `str::find` and `str::trim` spell it.
fn extract_by_std(xml: &str) -> Option<&str> {
    const OPEN: &str = "<apikey>";
    const CLOSE: &str = "</apikey>";
    let after_open = &xml[xml.find(OPEN)? + OPEN.len()..];
    let key = after_open[..after_open.find(CLOSE)?].trim();
    if key.is_empty() { None } else { Some(key) }
}

#[test]
fn extraction_agrees_with_str_find_and_trim() {
    let corpus = [
        "", "<apikey>", "</apikey>", "<apikey></apikey>", "<apikey>\u{a0}k\u{2003}</apikey>",
        "<apikey>a</apikey", "<apikey><apikey>b</apikey>", "<apikey>x</apikey></apikey>",
        "<apike>y</apikey>", "\u{3000}<apikey>\u{85}z\u{85}</apikey>", "<APIKEY>q</APIKEY>",
        "é<apikey>ü</apikey>", "<apikey>\u{200b}</apikey>",
    ];
    for xml in corpus {
        assert_eq!(extract_api_key(xml), extract_by_std(xml), "{xml:?}");
    }
}
