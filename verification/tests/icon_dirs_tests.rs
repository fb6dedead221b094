use quicklaunch::dirs::get_start_menu_dirs;
use quicklaunch::icon::{build_icon_script, escape_single_quotes, extract_icon_base64};

#[test]
fn all_variables_set_give_three_roots() {
    let dirs = get_start_menu_dirs(
        Some("C:\\ProgramData".to_string()),
        Some("C:\\Users\\me\\AppData\\Roaming".to_string()),
        Some("C:\\Users\\me".to_string()),
    );
    assert_eq!(
        dirs,
        vec![
            "C:\\ProgramData\\Microsoft\\Windows\\Start Menu\\Programs".to_string(),
            "C:\\Users\\me\\AppData\\Roaming\\Microsoft\\Windows\\Start Menu\\Programs"
                .to_string(),
            "C:\\Users\\me\\Desktop".to_string(),
        ],
    );
}

#[test]
fn unset_variable_omits_its_root() {
    let dirs = get_start_menu_dirs(None, Some("D:\\Roaming".to_string()), None);
    assert_eq!(
        dirs,
        vec!["D:\\Roaming\\Microsoft\\Windows\\Start Menu\\Programs".to_string()],
    );
    let none = get_start_menu_dirs(None, None, None);
    assert!(none.is_empty());
}

#[test]
fn quotes_are_doubled_for_embedding() {
    assert_eq!(escape_single_quotes("C:\\It's Here\\App.lnk"), "C:\\It''s Here\\App.lnk");
    assert_eq!(escape_single_quotes("plain"), "plain");
    assert_eq!(escape_single_quotes(""), "");
    assert_eq!(escape_single_quotes("''"), "''''");
}

#[test]
fn script_embeds_the_escaped_path_twice() {
    let script = build_icon_script("C:\\a'b\\App.lnk");
    let escaped = "C:\\a''b\\App.lnk";
    assert_eq!(script.matches(escaped).count(), 2);
    assert!(script.contains("$shell.CreateShortcut('C:\\a''b\\App.lnk')"));
    assert!(script.contains("{ $target = 'C:\\a''b\\App.lnk' }"));
    assert!(script.contains("ExtractAssociatedIcon"));
    assert!(script.contains("ToBase64String"));
}

#[test]
fn failed_process_yields_no_icon() {
    assert_eq!(extract_icon_base64(None), None);
}

#[test]
fn blank_output_yields_no_icon() {
    assert_eq!(extract_icon_base64(Some(String::new())), None);
    assert_eq!(extract_icon_base64(Some("   \r\n\t".to_string())), None);
}

#[test]
fn output_is_trimmed() {
    assert_eq!(
        extract_icon_base64(Some("  iVBORw0KGgo=\r\n".to_string())),
        Some("iVBORw0KGgo=".to_string()),
    );
    assert_eq!(
        extract_icon_base64(Some("abc".to_string())),
        Some("abc".to_string()),
    );
}
