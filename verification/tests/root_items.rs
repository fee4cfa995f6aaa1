use prodblock::{default_lock_minutes, domain_allowed, parse_time, Activity};

#[test]
fn the_main_items_stand_at_the_root() {
    let activity: Activity = Activity {
        id: "a1".to_string(),
        name: "Writing".to_string(),
        typical_time: "09:30".to_string(),
        duration_minutes: 45,
        minimum_lock_minutes: default_lock_minutes(),
        allowed_apps: vec!["code.exe".to_string()],
        allowed_domains: vec!["docs.rs".to_string()],
    };
    assert_eq!(activity.minimum_lock_minutes, 10);
    assert_eq!(parse_time(&activity.typical_time), Some((9, 30)));
    assert!(domain_allowed("std.docs.rs", &activity.allowed_domains));
    assert!(!domain_allowed("example.com", &activity.allowed_domains));
    let copy: Activity = activity.clone();
    assert_eq!(copy.name, "Writing");
    assert_eq!(format!("{:?}", copy.duration_minutes), "45");
}
