use prodblock::guard::{
    app_allowed, buffer_name, entry_admits, guard_decision, process_name, should_inspect,
    Foreground, GuardAction, ProcessEntry, GUARD_POLL_MS,
};

fn list(entries: &[&str]) -> Vec<String> {
    entries.iter().map(|e| e.to_string()).collect()
}

fn chars(s: &str) -> Vec<char> {
    s.chars().collect()
}

fn wide(s: &str, size: usize) -> Vec<u16> {
    let mut units: Vec<u16> = s.encode_utf16().collect();
    while units.len() < size {
        units.push(0);
    }
    units
}

#[test]
fn an_executable_under_a_directory_is_admitted_by_its_file_name() {
    assert!(app_allowed("C:\\Program Files\\Chrome\\chrome.exe", &list(&["chrome.exe"])));
}

#[test]
fn the_empty_whitelist_admits_no_application() {
    assert!(!app_allowed("C:\\Program Files\\Chrome\\chrome.exe", &list(&[])));
    assert!(!app_allowed("chrome.exe", &list(&[])));
    assert!(!app_allowed("", &list(&[])));
}

#[test]
fn the_whitelist_comparison_ignores_case() {
    assert!(app_allowed("CHROME.EXE", &list(&["chrome.exe"])));
    assert!(app_allowed("chrome.exe", &list(&["Chrome.EXE"])));
    assert!(app_allowed("C:\\Apps\\Code.exe", &list(&["notepad.exe", "CODE.EXE"])));
}

#[test]
fn an_entry_with_its_directory_is_admitted_inside_a_path() {
    assert!(app_allowed("C:\\Tools\\Chrome\\chrome.exe --flag", &list(&["chrome\\chrome.exe"])));
    assert!(app_allowed("C:\\Tools\\chrome.exe\\helper", &list(&["chrome.exe"])));
    assert!(!app_allowed("C:\\Tools\\notchrome.exe\\helper", &list(&["chrome.exe"])));
}

#[test]
fn another_application_is_not_admitted() {
    assert!(!app_allowed("C:\\Windows\\notepad.exe", &list(&["chrome.exe"])));
    assert!(!app_allowed("chrome.exe.bak", &list(&["chrome.exe"])));
}

#[test]
fn a_name_that_ends_with_an_entry_is_admitted() {
    assert!(app_allowed("notchrome.exe", &list(&["chrome.exe"])));
    assert!(app_allowed("anything", &list(&[""])));
}

#[test]
fn entry_admits_is_exact_on_lower_case() {
    assert!(entry_admits(&chars("chrome.exe"), &chars("chrome.exe")));
    assert!(entry_admits(&chars("chrome.exe"), &chars("c:\\x\\chrome.exe")));
    assert!(entry_admits(&chars("chrome.exe"), &chars("c:\\chrome.exe\\y")));
    assert!(!entry_admits(&chars("chrome.exe"), &chars("Chrome.exe")));
    assert!(!entry_admits(&chars("chrome.exe"), &chars("c:/chrome.exe/y")));
    assert!(!entry_admits(&chars("chrome.exe"), &chars("")));
}

fn seen(lock_active: bool, host_window: bool, pid: u32, exe_path: Option<&str>) -> Foreground {
    Foreground { lock_active, host_window, pid, exe_path: exe_path.map(|p| p.to_string()) }
}

#[test]
fn the_guard_looks_only_at_known_foreign_processes() {
    assert!(should_inspect(true, true, 42, 7));
    assert!(!should_inspect(true, false, 42, 7));
    assert!(!should_inspect(true, true, 0, 7));
    assert!(!should_inspect(true, true, 7, 7));
    assert!(!should_inspect(false, true, 42, 7));
}

#[test]
fn under_the_empty_whitelist_every_other_application_is_forced_out() {
    let none: Vec<String> = list(&[]);
    for name in ["chrome.exe", "notepad.exe", "explorer.exe", ""] {
        assert_eq!(guard_decision(&seen(true, true, 42, Some(name)), 7, &none), GuardAction::Minimize);
    }
    assert_eq!(guard_decision(&seen(true, true, 7, Some("prodblock.exe")), 7, &none), GuardAction::Skip);
}

#[test]
fn what_cannot_be_resolved_is_left_alone() {
    let allowed: Vec<String> = list(&["chrome.exe"]);
    assert_eq!(guard_decision(&seen(true, true, 42, None), 7, &allowed), GuardAction::Skip);
    assert_eq!(guard_decision(&seen(true, true, 0, Some("notepad.exe")), 7, &allowed), GuardAction::Skip);
    assert_eq!(guard_decision(&seen(true, false, 42, Some("notepad.exe")), 7, &allowed), GuardAction::Skip);
}

#[test]
fn the_whitelist_decides_for_a_resolved_application() {
    let allowed: Vec<String> = list(&["chrome.exe"]);
    assert_eq!(guard_decision(&seen(true, true, 42, Some("Chrome.exe")), 7, &allowed), GuardAction::Skip);
    assert_eq!(guard_decision(&seen(true, true, 42, Some("notepad.exe")), 7, &allowed), GuardAction::Minimize);
}

#[test]
fn without_a_lock_the_guard_ends() {
    let none: Vec<String> = list(&[]);
    assert_eq!(guard_decision(&seen(false, true, 42, Some("notepad.exe")), 7, &none), GuardAction::Stop);
    assert_eq!(guard_decision(&seen(false, false, 0, None), 7, &none), GuardAction::Stop);
}

#[test]
fn a_buffer_holds_its_name_up_to_the_first_zero() {
    assert_eq!(buffer_name(&wide("chrome.exe", 260)), "chrome.exe");
    assert_eq!(buffer_name(&wide("full", 4)), "full");
    assert_eq!(buffer_name(&wide("", 260)), "");
    assert_eq!(buffer_name(&[]), "");
    let mut two: Vec<u16> = wide("a", 2);
    two.extend(wide("b", 2));
    assert_eq!(buffer_name(&two), "a");
    assert_eq!(buffer_name(&[0x0068, 0xd800, 0x0069, 0]), "h\u{fffd}i");
    assert_eq!(buffer_name(&wide("héllo😀.exe", 32)), "héllo😀.exe");
}

#[test]
fn the_first_process_with_the_id_names_the_executable() {
    let entries: Vec<ProcessEntry> = vec![
        ProcessEntry { pid: 4, exe_file: wide("System", 260) },
        ProcessEntry { pid: 42, exe_file: wide("chrome.exe", 260) },
        ProcessEntry { pid: 42, exe_file: wide("second.exe", 260) },
        ProcessEntry { pid: 99, exe_file: wide("notepad.exe", 260) },
    ];
    assert_eq!(process_name(&entries, 42), Some("chrome.exe".to_string()));
    assert_eq!(process_name(&entries, 99), Some("notepad.exe".to_string()));
    assert_eq!(process_name(&entries, 5), None);
    assert_eq!(process_name(&[], 42), None);
}

#[test]
fn the_guard_looks_every_300_milliseconds() {
    assert_eq!(GUARD_POLL_MS, 300);
}
