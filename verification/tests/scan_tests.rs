use quicklaunch::scan::{scan_apps, scan_paths, RootListing};

fn root(files: &[&str]) -> RootListing {
    RootListing { present: true, files: files.iter().map(|s| s.to_string()).collect() }
}

#[test]
fn scan_result_has_unique_sorted_names() {
    let roots = vec![root(&[
        "C:\\Menu\\Tools\\Zip.lnk",
        "C:\\Menu\\Games\\Chess.lnk",
        "C:\\Menu\\Tools\\Zip.lnk",
        "C:\\Menu\\Office\\Alpha.lnk",
    ])];
    let apps = scan_apps(&roots);
    let names: Vec<&str> = apps.iter().map(|a| a.name.as_str()).collect();
    assert_eq!(names, vec!["Alpha", "Chess", "Zip"]);
    for i in 0..names.len() {
        for j in (i + 1)..names.len() {
            assert_ne!(names[i], names[j]);
            assert!(names[i] < names[j]);
        }
    }
}

#[test]
fn absent_root_contributes_nothing() {
    let with_absent = vec![
        root(&["C:\\Menu\\A\\App.lnk"]),
        RootListing { present: false, files: vec!["C:\\Gone\\B\\Other.lnk".to_string()] },
    ];
    let without = vec![root(&["C:\\Menu\\A\\App.lnk"])];
    let a = scan_apps(&with_absent);
    let b = scan_apps(&without);
    assert_eq!(a.len(), b.len());
    assert_eq!(a.len(), 1);
    assert_eq!(a[0].name, b[0].name);
    assert_eq!(a[0].path, b[0].path);
    assert_eq!(a[0].category, b[0].category);
}

#[test]
fn noise_names_are_excluded_by_substring() {
    let roots = vec![root(&[
        "C:\\Menu\\X\\UninstallFoo.lnk",
        "C:\\Menu\\X\\ReadMe.lnk",
        "C:\\Menu\\X\\Helper.lnk",
        "C:\\Menu\\X\\Manual.lnk",
        "C:\\Menu\\X\\Keeper.lnk",
    ])];
    let apps = scan_apps(&roots);
    assert_eq!(apps.len(), 1);
    assert_eq!(apps[0].name, "Keeper");
}

#[test]
fn noise_match_ignores_case() {
    let roots = vec![root(&[
        "C:\\Menu\\X\\HELPdesk.lnk",
        "C:\\Menu\\X\\myMANUALthing.lnk",
        "C:\\Menu\\X\\ReadMeNow.lnk",
        "C:\\Menu\\X\\Fine.lnk",
    ])];
    let apps = scan_apps(&roots);
    assert_eq!(apps.len(), 1);
    assert_eq!(apps[0].name, "Fine");
}

#[test]
fn first_root_wins_duplicate_name() {
    let roots = vec![
        root(&["C:\\SysMenu\\Office\\App.lnk"]),
        root(&["C:\\UserMenu\\Games\\App.lnk"]),
    ];
    let apps = scan_apps(&roots);
    assert_eq!(apps.len(), 1);
    assert_eq!(apps[0].name, "App");
    assert_eq!(apps[0].category, "Office");
    assert_eq!(apps[0].path, "C:\\SysMenu\\Office\\App.lnk");
}

#[test]
fn only_shortcut_extension_kept() {
    let roots = vec![root(&[
        "C:\\Menu\\X\\notes.txt",
        "C:\\Menu\\X\\bare",
        "C:\\Menu\\X\\.lnk",
        "C:\\Menu\\X\\Real.lnk",
        "C:\\Menu\\X\\wrong.LNK",
    ])];
    let apps = scan_apps(&roots);
    assert_eq!(apps.len(), 1);
    assert_eq!(apps[0].name, "Real");
}

#[test]
fn category_is_parent_directory_name() {
    let roots = vec![root(&["C:\\Menu\\Accessories\\Calc.lnk", "Standalone.lnk"])];
    let apps = scan_apps(&roots);
    assert_eq!(apps.len(), 2);
    let calc = apps.iter().find(|a| a.name == "Calc").unwrap();
    assert_eq!(calc.category, "Accessories");
    let stand = apps.iter().find(|a| a.name == "Standalone").unwrap();
    assert_eq!(stand.category, "Other");
}

#[test]
fn icons_start_absent() {
    let roots = vec![root(&["C:\\Menu\\X\\App.lnk"])];
    let apps = scan_apps(&roots);
    assert_eq!(apps.len(), 1);
    assert!(apps[0].icon.is_none());
}

#[test]
fn scan_paths_sorts_byte_wise() {
    let paths = vec![
        "C:\\M\\b.lnk".to_string(),
        "C:\\M\\A.lnk".to_string(),
        "C:\\M\\a.lnk".to_string(),
        "C:\\M\\B.lnk".to_string(),
    ];
    let apps = scan_paths(&paths);
    let names: Vec<&str> = apps.iter().map(|a| a.name.as_str()).collect();
    assert_eq!(names, vec!["A", "B", "a", "b"]);
}

#[test]
fn forward_slash_paths_split_too() {
    let roots = vec![root(&["/home/user/menu/Tools/App.lnk"])];
    let apps = scan_apps(&roots);
    assert_eq!(apps.len(), 1);
    assert_eq!(apps[0].name, "App");
    assert_eq!(apps[0].category, "Tools");
}

#[test]
fn empty_roots_give_empty_result() {
    let apps = scan_apps(&Vec::new());
    assert!(apps.is_empty());
    let apps2 = scan_apps(&vec![root(&[])]);
    assert!(apps2.is_empty());
}
