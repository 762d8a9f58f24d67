use swaynyaad::outputs::{first_monitor, resolve_additions, DuplicateSubscriber, Subscribers};

fn names(v: &[&str]) -> Vec<String> {
    v.iter().map(|s| s.to_string()).collect()
}

fn monitors(v: &[Option<&str>]) -> Vec<Option<String>> {
    v.iter().map(|s| s.map(|x| x.to_string())).collect()
}

#[test]
fn duplicate_insert_is_fatal() {
    let mut subs: Subscribers<u32> = Subscribers::new();
    assert!(subs.insert_new("eDP-1".to_string(), 1).is_ok());
    // A second insertion for the same name must hit the fatal path, not
    // silently overwrite.
    assert_eq!(subs.insert_new("eDP-1".to_string(), 2).unwrap_err(), DuplicateSubscriber);
    assert_eq!(subs.len(), 1);
    assert_eq!(*subs.handle_at(0), 1);
}

#[test]
fn retain_drops_absent_outputs_and_returns_their_handles() {
    let mut subs: Subscribers<u32> = Subscribers::new();
    subs.insert_new("eDP-1".to_string(), 1).unwrap();
    subs.insert_new("DP-2".to_string(), 2).unwrap();
    subs.insert_new("HDMI-A-1".to_string(), 3).unwrap();

    let removed = subs.retain_present(&names(&["eDP-1", "HDMI-A-1"]));
    assert_eq!(removed, vec![2]);
    assert_eq!(subs.len(), 2);
    assert_eq!(subs.name_at(0).as_str(), "eDP-1");
    assert_eq!(subs.name_at(1).as_str(), "HDMI-A-1");
}

#[test]
fn full_reconcile_step_keeps_resolvable_new_names() {
    // Live: eDP-1, DP-2. New set: eDP-1, DP-3, DP-4. Monitors know eDP-1
    // and DP-3 but not DP-4.
    let mut subs: Subscribers<u32> = Subscribers::new();
    subs.insert_new("eDP-1".to_string(), 1).unwrap();
    subs.insert_new("DP-2".to_string(), 2).unwrap();

    let new_outputs = names(&["eDP-1", "DP-3", "DP-4"]);
    let mons = monitors(&[Some("eDP-1"), None, Some("DP-3")]);

    let removed = subs.retain_present(&new_outputs);
    assert_eq!(removed, vec![2]);

    let (adds, skipped) = resolve_additions(&subs, &new_outputs, &mons);
    assert_eq!(adds.len(), 1);
    assert_eq!(adds[0].name, "DP-3");
    assert_eq!(adds[0].monitor, 2);
    assert_eq!(skipped, names(&["DP-4"]));

    for add in adds {
        subs.insert_new(add.name, 10 + add.monitor as u32).unwrap();
    }
    assert_eq!(subs.len(), 2);
    assert_eq!(subs.name_at(0).as_str(), "eDP-1");
    assert_eq!(subs.name_at(1).as_str(), "DP-3");
    assert_eq!(*subs.handle_at(1), 12);
}

#[test]
fn unresolvable_name_is_retried_on_the_next_event() {
    let mut subs: Subscribers<u32> = Subscribers::new();
    let new_outputs = names(&["DP-9"]);

    // First event: the monitor list does not know the output yet.
    let (adds, skipped) = resolve_additions(&subs, &new_outputs, &monitors(&[]));
    assert!(adds.is_empty());
    assert_eq!(skipped, names(&["DP-9"]));

    // Next event: the monitor has appeared; the name resolves now.
    let (adds, skipped) = resolve_additions(&subs, &new_outputs, &monitors(&[Some("DP-9")]));
    assert_eq!(adds.len(), 1);
    assert_eq!(adds[0].monitor, 0);
    assert!(skipped.is_empty());
}

#[test]
fn live_names_are_not_created_again() {
    let mut subs: Subscribers<u32> = Subscribers::new();
    subs.insert_new("eDP-1".to_string(), 1).unwrap();
    let (adds, skipped) =
        resolve_additions(&subs, &names(&["eDP-1"]), &monitors(&[Some("eDP-1")]));
    assert!(adds.is_empty());
    assert!(skipped.is_empty());
}

#[test]
fn first_matching_monitor_wins() {
    let mons = monitors(&[Some("DP-1"), Some("DP-2"), Some("DP-2")]);
    assert_eq!(first_monitor(&mons, "DP-2"), Some(1));
    assert_eq!(first_monitor(&mons, "DP-3"), None);
}

#[test]
fn contains_name_reports_membership() {
    let mut subs: Subscribers<u32> = Subscribers::new();
    subs.insert_new("eDP-1".to_string(), 1).unwrap();
    assert!(subs.contains_name("eDP-1"));
    assert!(!subs.contains_name("DP-2"));
}
