use cnet::config::{ConfigError, StoredConfig};
use cnet::models::{
    CloseNetResponse, GetInfoResponse, OnlineResponse, PackageItem, UserData,
};
use cnet::setup::{
    connect_report, default_package_index, disconnect_report, export_line, load_decision,
    package_from_input, package_menu, package_names, package_prompt, password_from_input,
    selected_package, updated_profile, username_from_input, windows_path_value, LoadDecision,
    PackagePrompt, FETCH_FAILED_MESSAGE, MANUAL_PACKAGE_ITEM,
};

fn saved() -> StoredConfig {
    StoredConfig {
        username: "old_user".to_string(),
        password: "old_pw".to_string(),
        package: "B".to_string(),
    }
}

fn info(packages: &[&str]) -> GetInfoResponse {
    GetInfoResponse {
        action: "GetInfo".to_string(),
        data: UserData {
            ip: "10.0.0.7".to_string(),
            mac: "aa".to_string(),
            real_name: "n".to_string(),
            department: "d".to_string(),
            online_count: 1,
            available_packages: packages
                .iter()
                .map(|p| PackageItem { name: p.to_string() })
                .collect(),
            user_group: "g".to_string(),
            online_sessions: Vec::new(),
            trusted_devices: Vec::new(),
        },
        message: String::new(),
        success: true,
    }
}

#[test]
fn load_decisions() {
    assert_eq!(load_decision(&Ok(Some(saved()))), LoadDecision::UseSaved);
    assert_eq!(load_decision(&Ok(None)), LoadDecision::StartSetup);
    let bad = serde_json::from_str::<serde_json::Value>("{").unwrap_err();
    assert_eq!(load_decision(&Err(ConfigError::Invalid(bad))), LoadDecision::ConfirmOverwrite);
    assert_eq!(load_decision(&Err(ConfigError::ConfigDirUnavailable)), LoadDecision::Abort);
}

#[test]
fn username_is_trimmed_or_kept() {
    let s = saved();
    assert_eq!(username_from_input("  new_user \t", Some(&s)), "new_user");
    assert_eq!(username_from_input("   ", Some(&s)), "old_user");
    assert_eq!(username_from_input("\u{3000}", Some(&s)), "old_user");
    assert_eq!(username_from_input("", None), "");
    assert_eq!(username_from_input("  x ", None), "x");
}

#[test]
fn password_is_kept_verbatim() {
    let s = saved();
    assert_eq!(password_from_input(" pw ", Some(&s)), " pw ");
    assert_eq!(password_from_input("", Some(&s)), "old_pw");
    assert_eq!(password_from_input("", None), "");
}

#[test]
fn package_typed_by_hand() {
    let s = saved();
    assert_eq!(package_from_input(" A ", Some(&s)), "A");
    assert_eq!(package_from_input("\n", Some(&s)), "B");
}

#[test]
fn package_lists() {
    let names = package_names(&info(&["A", "B", "C"]));
    assert_eq!(names, vec!["A", "B", "C"]);
    let menu = package_menu(&names);
    assert_eq!(menu, vec!["A", "B", "C", MANUAL_PACKAGE_ITEM]);
    assert_eq!(MANUAL_PACKAGE_ITEM, "手动输入套餐");
}

#[test]
fn default_index_finds_saved_package() {
    let names: Vec<String> = vec!["A".into(), "B".into(), "B".into()];
    let s = saved();
    assert_eq!(default_package_index(&names, Some(&s)), 1);
    assert_eq!(default_package_index(&names, None), 0);
    let other: Vec<String> = vec!["X".into()];
    assert_eq!(default_package_index(&other, Some(&s)), 0);
}

#[test]
fn selection_inside_and_outside_list() {
    let names: Vec<String> = vec!["A".into(), "B".into()];
    assert_eq!(selected_package(&names, 1), Some("B".to_string()));
    assert_eq!(selected_package(&names, 2), None);
}

#[test]
fn reports() {
    let ok = OnlineResponse {
        operate: "OpenNet".into(),
        network_plan: "B".into(),
        status: true,
        hint: "ok".into(),
    };
    assert_eq!(connect_report(&ok, &info(&[]), "B"), vec!["认证成功: ok", "IP: 10.0.0.7", "套餐: B"]);
    let fail = OnlineResponse { status: false, hint: "no".into(), ..ok };
    assert_eq!(connect_report(&fail, &info(&[]), "B"), vec!["认证失败: no"]);
    let off = CloseNetResponse {
        action: "CloseNet".into(),
        ip: "10.0.0.7".into(),
        status: true,
        message: "bye".into(),
    };
    assert_eq!(disconnect_report(&off, &info(&[])), vec!["下线成功: bye", "IP: 10.0.0.7"]);
    let off_fail = CloseNetResponse { status: false, message: "err".into(), ..off };
    assert_eq!(disconnect_report(&off_fail, &info(&[])), vec!["下线失败: err"]);
}

#[test]
fn windows_path() {
    assert_eq!(windows_path_value("", "C:\\cnet"), "C:\\cnet");
    assert_eq!(windows_path_value("C:\\bin", "C:\\cnet"), "C:\\bin;C:\\cnet");
}

#[test]
fn unix_profile_updates() {
    let line = export_line("/opt/cnet");
    assert_eq!(line, "export PATH=\"/opt/cnet:$PATH\"");
    assert_eq!(updated_profile("", &line), Some(format!("{line}\n")));
    assert_eq!(updated_profile("a\n", &line), Some(format!("a\n{line}\n")));
    assert_eq!(updated_profile("a", &line), Some(format!("a\n{line}\n")));
    assert_eq!(updated_profile(&format!("x\n{line}\r\ny"), &line), None);
    assert_eq!(updated_profile(&format!("{line}"), &line), None);
    assert!(updated_profile(&format!("{line} "), &line).is_some());
}

#[test]
fn adding_twice_writes_once() {
    let line = export_line("/home/u/bin");
    for existing in ["", "abc", "abc\n", "\n\n", "x\r\n"] {
        let once = updated_profile(existing, &line).unwrap();
        assert_eq!(updated_profile(&once, &line), None);
    }
}

#[test]
fn package_prompt_choice() {
    let some: Vec<String> = vec!["A".into()];
    let none: Vec<String> = Vec::new();
    assert_eq!(package_prompt(Some(&some)), PackagePrompt::Menu);
    assert_eq!(package_prompt(Some(&none)), PackagePrompt::Manual);
    assert_eq!(package_prompt(None), PackagePrompt::ManualAfterFetchFailure);
    assert_eq!(FETCH_FAILED_MESSAGE, "自动获取套餐失败，将改为手动输入。");
}
