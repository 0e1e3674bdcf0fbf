use applechu::unlocker::{
    find_rule, has_xml_extension, is_read_only_open, load_modified, modify_xml, unlock_rules, UnlockerConfig,
    UnlockerFiles, ERROR_INVALID_HANDLE, ERROR_INVALID_PARAMETER, ERROR_NEGATIVE_SEEK, FILE_BEGIN, FILE_CURRENT,
    FILE_END,
};

fn rewrite(text: &str, tag: &str, target: &str) -> Option<String> {
    modify_xml(text.as_bytes(), tag.as_bytes(), target.as_bytes()).map(|v| String::from_utf8(v).unwrap())
}

#[test]
fn replaces_simple_tag() {
    let output = rewrite("<root><defaultHave>false</defaultHave></root>", "defaultHave", "true");
    assert_eq!(output.as_deref(), Some("<root><defaultHave>true</defaultHave></root>"));
}

#[test]
fn replaces_every_occurrence() {
    let input = "<r><i><defaultHave>false</defaultHave></i><i><defaultHave>false</defaultHave></i></r>";
    let output = rewrite(input, "defaultHave", "true");
    assert_eq!(
        output.as_deref(),
        Some("<r><i><defaultHave>true</defaultHave></i><i><defaultHave>true</defaultHave></i></r>")
    );
}

#[test]
fn preserves_attributes_on_open_tag() {
    let output = rewrite("<root><defaultHave id=\"1\">false</defaultHave></root>", "defaultHave", "true");
    assert_eq!(output.as_deref(), Some("<root><defaultHave id=\"1\">true</defaultHave></root>"));
}

#[test]
fn skips_self_closing_tag() {
    assert_eq!(rewrite("<root><defaultHave/></root>", "defaultHave", "true"), None);
}

#[test]
fn skips_prefixed_tag_name() {
    assert_eq!(rewrite("<root><defaultHaveExtra>x</defaultHaveExtra></root>", "defaultHave", "true"), None);
}

#[test]
fn replaces_firstlock_tag() {
    let output = rewrite("<root><firstLock>true</firstLock></root>", "firstLock", "false");
    assert_eq!(output.as_deref(), Some("<root><firstLock>false</firstLock></root>"));
}

#[test]
fn returns_none_when_tag_absent() {
    assert_eq!(rewrite("<root><other>v</other></root>", "defaultHave", "true"), None);
}

#[test]
fn returns_none_when_already_unlocked() {
    assert_eq!(rewrite("<root><defaultHave>true</defaultHave></root>", "defaultHave", "true"), None);
}

#[test]
fn fills_empty_inner_text() {
    let output = rewrite("<root><defaultHave></defaultHave></root>", "defaultHave", "true");
    assert_eq!(output.as_deref(), Some("<root><defaultHave>true</defaultHave></root>"));
}

#[test]
fn keeps_whitespace_inside_open_tag() {
    let output = rewrite("<root><defaultHave  >false</defaultHave></root>", "defaultHave", "true");
    assert_eq!(output.as_deref(), Some("<root><defaultHave  >true</defaultHave></root>"));
}

#[test]
fn leaves_unclosed_tag_alone() {
    assert_eq!(rewrite("<root><defaultHave>false", "defaultHave", "true"), None);
}

#[test]
fn whitespace_around_value_counts_as_change() {
    let output = rewrite("<root><defaultHave> true </defaultHave></root>", "defaultHave", "true");
    assert_eq!(output.as_deref(), Some("<root><defaultHave>true</defaultHave></root>"));
}

#[test]
fn detects_xml_extension_case_insensitively() {
    assert!(has_xml_extension("Chara.xml"));
    assert!(has_xml_extension("chara.XML"));
    assert!(!has_xml_extension("Chara.xml.bak"));
    assert!(!has_xml_extension("xml"));
    assert!(!has_xml_extension(""));
}

#[test]
fn matches_rule_ignoring_case() {
    let config = UnlockerConfig::default();
    assert_eq!(find_rule(&config, "Chara.xml"), Some(0));
    assert_eq!(find_rule(&config, "MUSIC.XML"), Some(1));
    assert_eq!(find_rule(&config, "Other.xml"), None);
    assert_eq!(find_rule(&config, "Chara.bin"), None);
}

#[test]
fn respects_disabled_rule() {
    let config = UnlockerConfig { unlock_chara: false, ..UnlockerConfig::default() };
    assert_eq!(find_rule(&config, "Chara.xml"), None);
    assert_eq!(find_rule(&config, "Music.xml"), Some(1));
}

#[test]
fn every_rule_targets_an_xml_file() {
    for rule in unlock_rules() {
        assert!(has_xml_extension(rule.filename), "{}", rule.filename);
    }
}

#[test]
fn tag_split_across_lines_is_rewritten() {
    let output = rewrite("<a>\n<alwaysOpen\n>false</alwaysOpen>\n</a>", "alwaysOpen", "true");
    assert_eq!(output.as_deref(), Some("<a>\n<alwaysOpen\n>true</alwaysOpen>\n</a>"));
}

#[test]
fn open_tag_without_closing_bracket_keeps_the_rest() {
    assert_eq!(rewrite("<x><defaultHave id=\"1\"", "defaultHave", "true"), None);
}

#[test]
fn later_elements_are_rewritten_after_an_unclosed_one() {
    let output = rewrite("<defaultHave/><defaultHave>no</defaultHave>", "defaultHave", "true");
    assert_eq!(output.as_deref(), Some("<defaultHave/><defaultHave>true</defaultHave>"));
}

#[test]
fn load_modified_uses_the_rule_tag_and_value() {
    let music = load_modified(b"<m><firstLock>true</firstLock></m>", 1).unwrap();
    assert_eq!(music, b"<m><firstLock>false</firstLock></m>".to_vec());
    let event = load_modified(b"<e><alwaysOpen>false</alwaysOpen></e>", 4).unwrap();
    assert_eq!(event, b"<e><alwaysOpen>true</alwaysOpen></e>".to_vec());
    assert_eq!(load_modified(b"<m><firstLock>false</firstLock></m>", 1), None);
}

#[test]
fn load_modified_refuses_invalid_utf8() {
    let mut raw = b"<c><defaultHave>false</defaultHave></c>".to_vec();
    raw.push(0xFF);
    assert_eq!(load_modified(&raw, 0), None);
}

#[test]
fn read_only_open_excludes_writes_creation_and_overlapped() {
    assert!(is_read_only_open(0x8000_0000, 3, 0));
    assert!(is_read_only_open(0x8000_0000, 4, 0x80));
    assert!(!is_read_only_open(0x4000_0000, 3, 0));
    assert!(!is_read_only_open(0x0002, 3, 0));
    assert!(!is_read_only_open(0x8000_0000, 2, 0));
    assert!(!is_read_only_open(0x8000_0000, 3, 0x4000_0000));
}

#[test]
fn served_file_reads_and_seeks_in_memory() {
    let mut files = UnlockerFiles::new();
    files.insert(7, b"hello world".to_vec());
    assert!(files.is_unlocker_handle(7));
    assert_eq!(files.file_size(7), 11);
    let r = files.read(7, 5, true, None);
    assert_eq!((r.ret, r.out_nbytes, r.data.as_slice()), (1, 5, b"hello".as_slice()));
    let r = files.read(7, 100, true, None);
    assert_eq!((r.ret, r.out_nbytes, r.data.as_slice()), (1, 6, b" world".as_slice()));
    let r = files.read(7, 4, true, Some(6));
    assert_eq!(r.data.as_slice(), b"worl".as_slice());
    let r = files.read(7, 4, true, None);
    assert_eq!((r.ret, r.out_nbytes), (1, 0));
    let s = files.seek(7, FILE_BEGIN, 2);
    assert_eq!((s.ret, s.new_pos), (1, Some(2)));
    let s = files.seek(7, FILE_CURRENT, 3);
    assert_eq!(s.new_pos, Some(5));
    let s = files.seek(7, FILE_END, -5);
    assert_eq!(s.new_pos, Some(6));
    let s = files.seek(7, FILE_END, -20);
    assert_eq!((s.ret, s.last_error), (0, Some(ERROR_NEGATIVE_SEEK)));
    let s = files.seek(7, 9, 0);
    assert_eq!((s.ret, s.last_error), (0, Some(ERROR_INVALID_PARAMETER)));
    let r = files.read(7, 3, false, None);
    assert_eq!((r.ret, r.last_error), (0, Some(ERROR_INVALID_PARAMETER)));
    files.remove(7);
    let r = files.read(7, 3, true, None);
    assert_eq!((r.ret, r.last_error), (0, Some(ERROR_INVALID_HANDLE)));
    assert_eq!(files.file_size(7), 0);
}

#[test]
fn unlocked_document_is_not_rewritten_again() {
    let text = b"<root><defaultHave>false</defaultHave><defaultHave attr=\"1\">x</defaultHave><defaultHave/></root>";
    let once = modify_xml(text, b"defaultHave", b"true").expect("the first pass rewrites");
    assert_eq!(
        once,
        b"<root><defaultHave>true</defaultHave><defaultHave attr=\"1\">true</defaultHave><defaultHave/></root>".to_vec()
    );
    assert_eq!(modify_xml(&once, b"defaultHave", b"true"), None);
}
