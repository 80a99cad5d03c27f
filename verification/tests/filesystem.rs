use hal_steamworks::filesystem::extract_install_dir;

#[test]
fn bare_key_with_space() {
    let content = b"installdir \"ExampleGame\"\n";
    assert_eq!(extract_install_dir(content), Some(b"ExampleGame".to_vec()));
}

#[test]
fn quoted_key_with_tabs() {
    let content = b"\"AppState\"\n{\n\t\"appid\"\t\t\"394360\"\n\t\"installdir\"\t\t\"Hearts of Iron IV\"\n}\n";
    assert_eq!(
        extract_install_dir(content),
        Some(b"Hearts of Iron IV".to_vec())
    );
}

#[test]
fn missing_key() {
    let content = b"\"appid\" \"394360\"\n";
    assert_eq!(extract_install_dir(content), None);
}

#[test]
fn empty_content() {
    assert_eq!(extract_install_dir(b""), None);
}

#[test]
fn unterminated_value() {
    let content = b"installdir \"ExampleGame";
    assert_eq!(extract_install_dir(content), None);
}

#[test]
fn newline_inside_value() {
    let content = b"installdir \"Example\nGame\"";
    assert_eq!(extract_install_dir(content), None);
}

#[test]
fn key_without_whitespace_after_it() {
    let content = b"installdir\"ExampleGame\"";
    assert_eq!(extract_install_dir(content), None);
}

#[test]
fn leftmost_entry_wins() {
    let content = b"installdir \"First\"\ninstalldir \"Second\"\n";
    assert_eq!(extract_install_dir(content), Some(b"First".to_vec()));
}

#[test]
fn broken_entry_then_good_entry() {
    // The first occurrence never closes its value; the second one counts.
    let content = b"installdir \"Broken\ninstalldir \"Good\"\n";
    assert_eq!(extract_install_dir(content), Some(b"Good".to_vec()));
}

#[test]
fn value_keeps_inner_whitespace() {
    let content = b"installdir   \t \"A B  C\"";
    assert_eq!(extract_install_dir(content), Some(b"A B  C".to_vec()));
}
