use neardesk::config::{load_config, save_config, CONFIG_FILE};
use neardesk::TextMap;

#[test]
fn a_file_that_cannot_be_read_sets_nothing() {
    assert_eq!(load_config(None).len(), 0);
    assert_eq!(CONFIG_FILE, "neardesk.conf");
}

#[test]
fn comments_blanks_and_other_lines_are_skipped() {
    let m = load_config(Some("# hostname=x\n\n  # y=1\nplain\n hostname = Studio \r\n"));
    assert_eq!(m.len(), 1);
    assert_eq!(m.get("hostname"), Some("Studio"));
    assert_eq!(m.get("plain"), None);
}

#[test]
fn the_first_equals_sign_separates() {
    let m = load_config(Some("a=b=c\n=v\nk=\n"));
    assert_eq!(m.get("a"), Some("b=c"));
    assert_eq!(m.get(""), Some("v"));
    assert_eq!(m.get("k"), Some(""));
}

#[test]
fn the_later_setting_counts() {
    let m = load_config(Some("a=1\nb=2\na=3"));
    assert_eq!(m.len(), 2);
    assert_eq!(m.get("a"), Some("3"));
}

#[test]
fn saved_settings_read_as_written() {
    let mut m = TextMap::new();
    assert_eq!(save_config(&m), "# NearDesk settings\n");
    m.insert("hostname", "Studio");
    assert_eq!(save_config(&m), "# NearDesk settings\nhostname=Studio\n");
}

#[test]
fn load_reads_back_save() {
    let mut m = TextMap::new();
    m.insert("hostname", "Studio Mac");
    m.insert("username", "");
    m.insert("user.Studio Mac", "anna=b");
    m.insert("role.10.0.0.7", "Test runner");
    m.insert("hostname", "Studio Mac 2");
    m.remove("username");
    let text = save_config(&m);
    let n = load_config(Some(&text));
    assert_eq!(n.len(), 3);
    assert_eq!(n.get("hostname"), Some("Studio Mac 2"));
    assert_eq!(n.get("user.Studio Mac"), Some("anna=b"));
    assert_eq!(n.get("role.10.0.0.7"), Some("Test runner"));
    assert_eq!(n.get("username"), None);
}

#[test]
fn what_a_line_cannot_hold_does_not_read_back() {
    let mut m = TextMap::new();
    m.insert("a=b", "c");
    let n = load_config(Some(&save_config(&m)));
    assert_eq!(n.get("a=b"), None);
    assert_eq!(n.get("a"), Some("b=c"));
}

#[test]
fn reloading_what_was_loaded_changes_nothing() {
    let first = load_config(Some(" x = 1 \n y=a = b\n#z=0\n"));
    let again = load_config(Some(&save_config(&first)));
    assert_eq!(again.len(), first.len());
    for i in 0..first.len() {
        let (k, v) = first.entry(i);
        assert_eq!(again.get(k), Some(v));
    }
}
