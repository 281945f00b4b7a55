use frnsc_taskbar::applications::{TaskBarApplications, UsageCounter};
use frnsc_taskbar::common::{TaskBarApplication, TaskBarApplicationID};

fn counters(record: &TaskBarApplication) -> [u32; 5] {
    [record.badge_updates, record.executed_times, record.app_switched, record.show_jump_clicks, record.tray_clicks]
}

#[test]
fn new_collection_is_empty() {
    let applications = TaskBarApplications::new();
    assert_eq!(applications.len(), 0);
    assert!(applications.get(&TaskBarApplicationID::Process(1)).is_none());
    assert!(applications.into_records().is_empty());
}

#[test]
fn first_value_makes_a_record_with_the_others_at_zero() {
    let id = TaskBarApplicationID::AUMID("Microsoft.Windows.Explorer".to_string());
    for (counter, expected) in [
        (UsageCounter::BadgeUpdates, [9, 0, 0, 0, 0]),
        (UsageCounter::Launches, [0, 9, 0, 0, 0]),
        (UsageCounter::Switches, [0, 0, 9, 0, 0]),
        (UsageCounter::JumpViewClicks, [0, 0, 0, 9, 0]),
    ] {
        let mut applications = TaskBarApplications::new();
        applications.record(id.clone(), counter, 9);
        assert_eq!(applications.len(), 1);
        let record = applications.get(&id).unwrap();
        assert_eq!(record.id, id);
        assert_eq!(counters(record), expected);
    }
}

#[test]
fn two_counters_of_one_application_share_a_record() {
    let id = TaskBarApplicationID::AUMID("com.squirrel.Discord.Discord".to_string());
    let mut applications = TaskBarApplications::new();
    applications.record(id.clone(), UsageCounter::Launches, 5);
    applications.record(id.clone(), UsageCounter::BadgeUpdates, 3);
    assert_eq!(applications.len(), 1);
    let record = applications.get(&id).unwrap();
    assert_eq!(record.executed_times, 5);
    assert_eq!(record.badge_updates, 3);
    assert_eq!(record.app_switched, 0);
    assert_eq!(record.show_jump_clicks, 0);
    assert_eq!(record.tray_clicks, 0);
    let records = applications.into_records();
    assert_eq!(records.len(), 1);
    assert_eq!(records[0].id, id);
}

#[test]
fn later_value_replaces_the_earlier() {
    let id = TaskBarApplicationID::Process(3996);
    let mut applications = TaskBarApplications::new();
    applications.record(id.clone(), UsageCounter::Switches, 40);
    applications.record(id.clone(), UsageCounter::Switches, 2);
    assert_eq!(applications.len(), 1);
    assert_eq!(counters(applications.get(&id).unwrap()), [0, 0, 2, 0, 0]);
    applications.record(id.clone(), UsageCounter::Switches, u32::MAX);
    assert_eq!(counters(applications.get(&id).unwrap()), [0, 0, u32::MAX, 0, 0]);
}

#[test]
fn variants_with_one_text_are_different_applications() {
    let mut applications = TaskBarApplications::new();
    applications.record(TaskBarApplicationID::AUMID("a".to_string()), UsageCounter::Launches, 1);
    applications.record(TaskBarApplicationID::Executable("a".to_string()), UsageCounter::Launches, 2);
    applications.record(TaskBarApplicationID::CsidlPath("a".to_string()), UsageCounter::Launches, 3);
    applications.record(TaskBarApplicationID::AUMID("A".to_string()), UsageCounter::Launches, 4);
    assert_eq!(applications.len(), 4);
    assert_eq!(applications.get(&TaskBarApplicationID::AUMID("a".to_string())).unwrap().executed_times, 1);
    assert_eq!(applications.get(&TaskBarApplicationID::Executable("a".to_string())).unwrap().executed_times, 2);
    assert_eq!(applications.get(&TaskBarApplicationID::CsidlPath("a".to_string())).unwrap().executed_times, 3);
    assert_eq!(applications.get(&TaskBarApplicationID::AUMID("A".to_string())).unwrap().executed_times, 4);
    assert!(applications.get(&TaskBarApplicationID::Executable("A".to_string())).is_none());
}

#[test]
fn a_value_changes_no_other_record() {
    let first = TaskBarApplicationID::Process(1);
    let second = TaskBarApplicationID::Process(2);
    let mut applications = TaskBarApplications::new();
    applications.record(first.clone(), UsageCounter::JumpViewClicks, 7);
    applications.record(second.clone(), UsageCounter::JumpViewClicks, 8);
    applications.record(first.clone(), UsageCounter::Launches, 1);
    assert_eq!(applications.len(), 2);
    assert_eq!(counters(applications.get(&first).unwrap()), [0, 1, 0, 7, 0]);
    assert_eq!(counters(applications.get(&second).unwrap()), [0, 0, 0, 8, 0]);
}

#[test]
fn values_may_be_seen_in_either_order() {
    let first = TaskBarApplicationID::Process(1);
    let second = TaskBarApplicationID::Process(2);
    let mut one = TaskBarApplications::new();
    one.record(first.clone(), UsageCounter::Launches, 1);
    one.record(second.clone(), UsageCounter::Switches, 2);
    one.record(first.clone(), UsageCounter::BadgeUpdates, 3);
    let mut other = TaskBarApplications::new();
    other.record(first.clone(), UsageCounter::BadgeUpdates, 3);
    other.record(second.clone(), UsageCounter::Switches, 2);
    other.record(first.clone(), UsageCounter::Launches, 1);
    for id in [&first, &second] {
        assert_eq!(counters(one.get(id).unwrap()), counters(other.get(id).unwrap()));
    }
    assert_eq!(one.len(), other.len());
}

#[test]
fn counters_name_their_registry_keys() {
    assert_eq!(UsageCounter::BadgeUpdates.key_name(), "AppBadgeUpdated");
    assert_eq!(UsageCounter::Launches.key_name(), "AppLaunch");
    assert_eq!(UsageCounter::Switches.key_name(), "AppSwitched");
    assert_eq!(UsageCounter::JumpViewClicks.key_name(), "ShowJumpView");
}
