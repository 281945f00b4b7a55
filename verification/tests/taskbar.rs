use frnsc_taskbar::applications::{TaskBarApplications, UsageCounter};
use frnsc_taskbar::common::{TaskBarApplication, TaskBarApplicationID};
use frnsc_taskbar::taskbar::{
    is_application_entry, is_user, merge_subtree, process_app_badge_update, process_app_launch_update,
    process_app_switched_update, process_feature_usage_update, process_jump_view_update, read_task_bar_applications,
    FeatureUsage, RegistryValue, SkippedValue, UserFeatureUsage,
};

fn tester_env() -> forensic_rs::core::UserEnvVars {
    let mut env_vars = forensic_rs::core::UserEnvVars::new();
    env_vars.insert("APPDATA".into(), "C:\\ProgramData".into());
    env_vars.insert("LOCALAPPDATA".into(), "%USERPROFILE%\\AppData\\Local".into());
    env_vars.insert("ProgramFiles".into(), "C:\\Program Files".into());
    env_vars.insert("USERPROFILE".into(), "C:\\Users\\tester".into());
    env_vars.insert("windir".into(), "C:\\Windows".into());
    env_vars
}

fn dwords(values: &[(&str, u32)]) -> Vec<(String, RegistryValue)> {
    values.iter().map(|(name, value)| (name.to_string(), RegistryValue::DWord(*value))).collect()
}

fn counters(record: &TaskBarApplication) -> [u32; 5] {
    [record.badge_updates, record.executed_times, record.app_switched, record.show_jump_clicks, record.tray_clicks]
}

fn skipped(report: &[SkippedValue]) -> Vec<(String, UsageCounter, String)> {
    report.iter().map(|s| (s.user_sid.clone(), s.counter, s.name.clone())).collect()
}

const POWERSHELL: &str = r"C:\Windows\system32\WindowsPowerShell\v1.0\powershell.exe";
const POWERSHELL_BY_FOLDER: &str = r"{1AC14E77-02E7-4E5D-B744-2EB1AE5198B7}\WindowsPowerShell\v1.0\powershell.exe";

#[test]
fn should_compile() {
    let users = vec![UserFeatureUsage {
        user_sid: "S-1-5-21-1366093794-4292800403-1155380978-513".to_string(),
        env_vars: tester_env(),
        feature_usage: Some(FeatureUsage {
            app_badge_updated: Some(dwords(&[("com.squirrel.Discord.Discord", 3)])),
            app_launch: Some(dwords(&[(POWERSHELL_BY_FOLDER, 5)])),
            app_switched: Some(dwords(&[("*PID00000f9c", 1)])),
            show_jump_view: None,
        }),
    }];
    let (taskbar, report) = read_task_bar_applications(&users);
    assert_eq!(taskbar.len(), 3);
    assert!(report.is_empty());
    for app in taskbar.into_records() {
        println!("{:?}", app);
    }
}

#[test]
fn subtree_sets_its_counter_for_each_application() {
    let env_vars = tester_env();
    let mut applications = TaskBarApplications::new();
    let mut report = Vec::new();
    let values = dwords(&[("com.squirrel.Discord.Discord", 5), (POWERSHELL_BY_FOLDER, 7), ("*PID00000f9c", 9)]);
    merge_subtree(&values, UsageCounter::Launches, "S-1-5-21", &mut applications, &env_vars, &mut report);
    assert!(report.is_empty());
    assert_eq!(applications.len(), 3);
    let discord = TaskBarApplicationID::AUMID("com.squirrel.Discord.Discord".to_string());
    assert_eq!(counters(applications.get(&discord).unwrap()), [0, 5, 0, 0, 0]);
    let powershell = TaskBarApplicationID::Executable(POWERSHELL.to_string());
    assert_eq!(counters(applications.get(&powershell).unwrap()), [0, 7, 0, 0, 0]);
    assert_eq!(counters(applications.get(&TaskBarApplicationID::Process(3996)).unwrap()), [0, 9, 0, 0, 0]);
}

#[test]
fn two_subtrees_give_one_record_with_both_counters() {
    let env_vars = tester_env();
    let mut applications = TaskBarApplications::new();
    let mut report = Vec::new();
    process_app_launch_update(&dwords(&[("com.squirrel.Discord.Discord", 5)]), "S-1-5-21", &mut applications, &env_vars, &mut report);
    process_app_badge_update(&dwords(&[("com.squirrel.Discord.Discord", 3)]), "S-1-5-21", &mut applications, &env_vars, &mut report);
    assert_eq!(applications.len(), 1);
    let discord = TaskBarApplicationID::AUMID("com.squirrel.Discord.Discord".to_string());
    let record = applications.get(&discord).unwrap();
    assert_eq!(record.id, discord);
    assert_eq!(record.executed_times, 5);
    assert_eq!(record.badge_updates, 3);
    assert_eq!(counters(record), [3, 5, 0, 0, 0]);
}

#[test]
fn two_spellings_of_one_application_share_a_record() {
    let env_vars = tester_env();
    let mut applications = TaskBarApplications::new();
    let mut report = Vec::new();
    process_app_switched_update(&dwords(&[(POWERSHELL_BY_FOLDER, 11)]), "S-1-5-21", &mut applications, &env_vars, &mut report);
    process_jump_view_update(&dwords(&[(POWERSHELL, 2)]), "S-1-5-21", &mut applications, &env_vars, &mut report);
    assert_eq!(applications.len(), 1);
    let powershell = TaskBarApplicationID::Executable(POWERSHELL.to_string());
    assert_eq!(counters(applications.get(&powershell).unwrap()), [0, 0, 11, 2, 0]);
}

#[test]
fn of_two_spellings_in_one_subtree_the_later_stays() {
    let env_vars = tester_env();
    let mut applications = TaskBarApplications::new();
    let mut report = Vec::new();
    merge_subtree(
        &dwords(&[(POWERSHELL_BY_FOLDER, 11), (POWERSHELL, 2)]),
        UsageCounter::Launches,
        "S-1-5-21",
        &mut applications,
        &env_vars,
        &mut report,
    );
    assert_eq!(applications.len(), 1);
    let powershell = TaskBarApplicationID::Executable(POWERSHELL.to_string());
    assert_eq!(counters(applications.get(&powershell).unwrap()), [0, 2, 0, 0, 0]);
}

#[test]
fn each_subtree_function_sets_its_own_counter() {
    let env_vars = tester_env();
    let mut applications = TaskBarApplications::new();
    let mut report = Vec::new();
    process_app_badge_update(&dwords(&[("app", 1)]), "S-1", &mut applications, &env_vars, &mut report);
    process_app_launch_update(&dwords(&[("app", 2)]), "S-1", &mut applications, &env_vars, &mut report);
    process_app_switched_update(&dwords(&[("app", 3)]), "S-1", &mut applications, &env_vars, &mut report);
    process_jump_view_update(&dwords(&[("app", 4)]), "S-1", &mut applications, &env_vars, &mut report);
    assert_eq!(applications.len(), 1);
    assert_eq!(counters(applications.get(&TaskBarApplicationID::AUMID("app".to_string())).unwrap()), [1, 2, 3, 4, 0]);
    assert!(report.is_empty());
}

#[test]
fn value_without_name_is_skipped() {
    let env_vars = tester_env();
    let mut applications = TaskBarApplications::new();
    let mut report = Vec::new();
    merge_subtree(&dwords(&[("", 4)]), UsageCounter::Launches, "S-1-5-21", &mut applications, &env_vars, &mut report);
    assert_eq!(applications.len(), 0);
    assert!(applications.get(&TaskBarApplicationID::AUMID(String::new())).is_none());
    assert!(report.is_empty());
    let values = vec![
        (String::new(), RegistryValue::SZ("default".to_string())),
        ("app".to_string(), RegistryValue::DWord(1)),
        (String::new(), RegistryValue::DWord(8)),
    ];
    merge_subtree(&values, UsageCounter::BadgeUpdates, "S-1-5-21", &mut applications, &env_vars, &mut report);
    assert_eq!(applications.len(), 1);
    assert_eq!(counters(applications.get(&TaskBarApplicationID::AUMID("app".to_string())).unwrap()), [1, 0, 0, 0, 0]);
    assert!(report.is_empty());
    assert!(!is_application_entry(""));
    assert!(is_application_entry("app"));
}

#[test]
fn value_that_is_no_counter_is_skipped_and_reported() {
    let env_vars = tester_env();
    let mut applications = TaskBarApplications::new();
    let mut report = Vec::new();
    let values = vec![
        ("text".to_string(), RegistryValue::SZ("12".to_string())),
        ("app".to_string(), RegistryValue::DWord(6)),
        ("expand".to_string(), RegistryValue::ExpandSZ("%windir%".to_string())),
        ("multi".to_string(), RegistryValue::MultiSZ(vec!["1".to_string()])),
        ("binary".to_string(), RegistryValue::Binary(vec![1, 0, 0, 0])),
    ];
    merge_subtree(&values, UsageCounter::Switches, "S-1-5-21", &mut applications, &env_vars, &mut report);
    assert_eq!(applications.len(), 1);
    assert_eq!(counters(applications.get(&TaskBarApplicationID::AUMID("app".to_string())).unwrap()), [0, 0, 6, 0, 0]);
    assert_eq!(
        skipped(&report),
        vec![
            ("S-1-5-21".to_string(), UsageCounter::Switches, "text".to_string()),
            ("S-1-5-21".to_string(), UsageCounter::Switches, "expand".to_string()),
            ("S-1-5-21".to_string(), UsageCounter::Switches, "multi".to_string()),
            ("S-1-5-21".to_string(), UsageCounter::Switches, "binary".to_string()),
        ]
    );
}

#[test]
fn report_keeps_what_it_held() {
    let env_vars = tester_env();
    let mut applications = TaskBarApplications::new();
    let mut report = vec![SkippedValue { user_sid: "S-0".to_string(), counter: UsageCounter::Launches, name: "old".to_string() }];
    let values = vec![("text".to_string(), RegistryValue::SZ("12".to_string()))];
    merge_subtree(&values, UsageCounter::JumpViewClicks, "S-1", &mut applications, &env_vars, &mut report);
    assert_eq!(
        skipped(&report),
        vec![
            ("S-0".to_string(), UsageCounter::Launches, "old".to_string()),
            ("S-1".to_string(), UsageCounter::JumpViewClicks, "text".to_string()),
        ]
    );
}

#[test]
fn quad_word_counts_with_its_low_32_bits() {
    let env_vars = tester_env();
    let mut applications = TaskBarApplications::new();
    let mut report = Vec::new();
    let values = vec![
        ("small".to_string(), RegistryValue::QWord(17)),
        ("large".to_string(), RegistryValue::QWord(0x1_0000_0005)),
        ("full".to_string(), RegistryValue::QWord(u64::MAX)),
    ];
    merge_subtree(&values, UsageCounter::Launches, "S-1-5-21", &mut applications, &env_vars, &mut report);
    assert!(report.is_empty());
    assert_eq!(applications.get(&TaskBarApplicationID::AUMID("small".to_string())).unwrap().executed_times, 17);
    assert_eq!(applications.get(&TaskBarApplicationID::AUMID("large".to_string())).unwrap().executed_times, 5);
    assert_eq!(applications.get(&TaskBarApplicationID::AUMID("full".to_string())).unwrap().executed_times, u32::MAX);
}

#[test]
fn absent_subtree_does_not_keep_the_others_from_counting() {
    let env_vars = tester_env();
    let mut applications = TaskBarApplications::new();
    let mut report = Vec::new();
    let usage = FeatureUsage {
        app_badge_updated: Some(dwords(&[("app", 1)])),
        app_launch: None,
        app_switched: Some(dwords(&[("app", 3)])),
        show_jump_view: Some(dwords(&[("app", 4), ("other", 5)])),
    };
    process_feature_usage_update(&usage, "S-1-5-21", &mut applications, &env_vars, &mut report);
    assert_eq!(applications.len(), 2);
    assert_eq!(counters(applications.get(&TaskBarApplicationID::AUMID("app".to_string())).unwrap()), [1, 0, 3, 4, 0]);
    assert_eq!(counters(applications.get(&TaskBarApplicationID::AUMID("other".to_string())).unwrap()), [0, 0, 0, 5, 0]);
    let nothing = FeatureUsage { app_badge_updated: None, app_launch: None, app_switched: None, show_jump_view: None };
    process_feature_usage_update(&nothing, "S-1-5-21", &mut applications, &env_vars, &mut report);
    assert_eq!(applications.len(), 2);
    assert!(report.is_empty());
}

#[test]
fn absent_subtree_of_one_user_does_not_keep_other_users_from_counting() {
    let users = vec![
        UserFeatureUsage {
            user_sid: "S-1-5-21-1".to_string(),
            env_vars: tester_env(),
            feature_usage: Some(FeatureUsage {
                app_badge_updated: None,
                app_launch: Some(dwords(&[("first", 1)])),
                app_switched: Some(dwords(&[("first", 2)])),
                show_jump_view: Some(dwords(&[("first", 3)])),
            }),
        },
        UserFeatureUsage { user_sid: "S-1-5-21-2".to_string(), env_vars: tester_env(), feature_usage: None },
        UserFeatureUsage {
            user_sid: "S-1-5-21-3".to_string(),
            env_vars: tester_env(),
            feature_usage: Some(FeatureUsage {
                app_badge_updated: Some(dwords(&[("third", 4)])),
                app_launch: None,
                app_switched: None,
                show_jump_view: None,
            }),
        },
    ];
    let (applications, report) = read_task_bar_applications(&users);
    assert!(report.is_empty());
    assert_eq!(applications.len(), 2);
    assert_eq!(counters(applications.get(&TaskBarApplicationID::AUMID("first".to_string())).unwrap()), [0, 1, 2, 3, 0]);
    assert_eq!(counters(applications.get(&TaskBarApplicationID::AUMID("third".to_string())).unwrap()), [4, 0, 0, 0, 0]);
}

#[test]
fn default_profile_is_no_user() {
    let users = vec![
        UserFeatureUsage {
            user_sid: String::new(),
            env_vars: tester_env(),
            feature_usage: Some(FeatureUsage {
                app_badge_updated: Some(vec![("text".to_string(), RegistryValue::SZ("x".to_string()))]),
                app_launch: Some(dwords(&[("template", 1)])),
                app_switched: None,
                show_jump_view: None,
            }),
        },
        UserFeatureUsage {
            user_sid: "S-1-5-18".to_string(),
            env_vars: tester_env(),
            feature_usage: Some(FeatureUsage {
                app_badge_updated: None,
                app_launch: Some(dwords(&[("system", 2)])),
                app_switched: None,
                show_jump_view: None,
            }),
        },
    ];
    let (applications, report) = read_task_bar_applications(&users);
    assert!(report.is_empty());
    assert_eq!(applications.len(), 1);
    assert!(applications.get(&TaskBarApplicationID::AUMID("template".to_string())).is_none());
    assert_eq!(applications.get(&TaskBarApplicationID::AUMID("system".to_string())).unwrap().executed_times, 2);
    assert!(!is_user(""));
    assert!(is_user("S-1-5-18"));
}

#[test]
fn users_share_records_and_the_later_user_stays() {
    let mut other_env = forensic_rs::core::UserEnvVars::new();
    other_env.insert("windir".into(), "D:\\WINNT".into());
    let users = vec![
        UserFeatureUsage {
            user_sid: "S-1-5-21-1".to_string(),
            env_vars: tester_env(),
            feature_usage: Some(FeatureUsage {
                app_badge_updated: Some(dwords(&[("shared", 1)])),
                app_launch: Some(dwords(&[("shared", 10), (r"{F38BF404-1D43-42F2-9305-67DE0B28FC23}\explorer.exe", 7)])),
                app_switched: None,
                show_jump_view: None,
            }),
        },
        UserFeatureUsage {
            user_sid: "S-1-5-21-2".to_string(),
            env_vars: other_env,
            feature_usage: Some(FeatureUsage {
                app_badge_updated: None,
                app_launch: Some(dwords(&[("shared", 20), (r"{F38BF404-1D43-42F2-9305-67DE0B28FC23}\explorer.exe", 8)])),
                app_switched: Some(vec![("shared".to_string(), RegistryValue::Binary(vec![]))]),
                show_jump_view: None,
            }),
        },
    ];
    let (applications, report) = read_task_bar_applications(&users);
    assert_eq!(applications.len(), 3);
    assert_eq!(counters(applications.get(&TaskBarApplicationID::AUMID("shared".to_string())).unwrap()), [1, 20, 0, 0, 0]);
    assert_eq!(
        applications.get(&TaskBarApplicationID::Executable(r"C:\Windows\explorer.exe".to_string())).unwrap().executed_times,
        7
    );
    assert_eq!(
        applications.get(&TaskBarApplicationID::Executable(r"D:\WINNT\explorer.exe".to_string())).unwrap().executed_times,
        8
    );
    assert_eq!(skipped(&report), vec![("S-1-5-21-2".to_string(), UsageCounter::Switches, "shared".to_string())]);
}

#[test]
fn no_users_give_no_records() {
    let (applications, report) = read_task_bar_applications(&Vec::new());
    assert_eq!(applications.len(), 0);
    assert!(report.is_empty());
}

#[test]
fn unresolved_path_keeps_its_own_record() {
    let mut applications = TaskBarApplications::new();
    let mut report = Vec::new();
    let path = r"{dfdf76a2-c82a-4d63-906a-5644ac457385}\Shared\tool.exe";
    merge_subtree(&dwords(&[(path, 3)]), UsageCounter::Launches, "S-1", &mut applications, &tester_env(), &mut report);
    assert_eq!(applications.len(), 1);
    assert_eq!(applications.get(&TaskBarApplicationID::CsidlPath(path.to_string())).unwrap().executed_times, 3);
}

#[test]
fn feature_usage_key_is_the_explorer_key() {
    assert_eq!(
        frnsc_taskbar::taskbar::FEATURE_USAGE_KEY,
        "Software\\Microsoft\\Windows\\CurrentVersion\\Explorer\\FeatureUsage"
    );
}

#[test]
fn circle_in_the_environment_leaves_the_path_unresolved() {
    let mut env_vars = tester_env();
    env_vars.insert("windir".into(), "%SystemRoot%".into());
    env_vars.insert("SystemRoot".into(), "%windir%".into());
    let mut applications = TaskBarApplications::new();
    let mut report = Vec::new();
    merge_subtree(
        &dwords(&[(POWERSHELL_BY_FOLDER, 4), (r"{6D809377-6AF0-444B-8957-A3773F02200E}\tool.exe", 6), (POWERSHELL, 5)]),
        UsageCounter::Launches,
        "S-1",
        &mut applications,
        &env_vars,
        &mut report,
    );
    assert_eq!(applications.len(), 3);
    assert_eq!(applications.get(&TaskBarApplicationID::CsidlPath(POWERSHELL_BY_FOLDER.to_string())).unwrap().executed_times, 4);
    assert_eq!(applications.get(&TaskBarApplicationID::Executable(r"C:\Program Files\tool.exe".to_string())).unwrap().executed_times, 6);
    assert_eq!(applications.get(&TaskBarApplicationID::Executable(POWERSHELL.to_string())).unwrap().executed_times, 5);
}

#[test]
fn keys_of_two_counters_may_be_read_in_either_order() {
    let env_vars = tester_env();
    let launches = dwords(&[("app", 1), (POWERSHELL_BY_FOLDER, 2), ("app", 3)]);
    let switches = dwords(&[(POWERSHELL, 4), ("other", 5)]);
    let mut one = TaskBarApplications::new();
    let mut other = TaskBarApplications::new();
    let mut report = Vec::new();
    process_app_launch_update(&launches, "S-1", &mut one, &env_vars, &mut report);
    process_app_switched_update(&switches, "S-1", &mut one, &env_vars, &mut report);
    process_app_switched_update(&switches, "S-1", &mut other, &env_vars, &mut report);
    process_app_launch_update(&launches, "S-1", &mut other, &env_vars, &mut report);
    assert_eq!(one.len(), 3);
    assert_eq!(other.len(), 3);
    for id in [
        TaskBarApplicationID::AUMID("app".to_string()),
        TaskBarApplicationID::AUMID("other".to_string()),
        TaskBarApplicationID::Executable(POWERSHELL.to_string()),
    ] {
        assert_eq!(counters(one.get(&id).unwrap()), counters(other.get(&id).unwrap()));
    }
    assert_eq!(counters(one.get(&TaskBarApplicationID::AUMID("app".to_string())).unwrap()), [0, 3, 0, 0, 0]);
    assert_eq!(counters(one.get(&TaskBarApplicationID::Executable(POWERSHELL.to_string())).unwrap()), [0, 2, 4, 0, 0]);
}
