use qingjian_shell::settings::{env_file_content, notice, ConfigState, ReadOutcome};

#[test]
fn no_problem_no_notice() {
    assert_eq!(notice(None, None), None);
}

#[test]
fn the_notice_names_the_error_and_the_dropped_entries() {
    assert_eq!(
        notice(Some("第 3 行"), None).as_deref(),
        Some("配置文件解析失败，已沿用上一份：第 3 行")
    );
    assert_eq!(
        notice(None, Some("2 条短语")).as_deref(),
        Some("已忽略：2 条短语")
    );
    assert_eq!(
        notice(Some("e"), Some("d")).as_deref(),
        Some("配置文件解析失败，已沿用上一份：e；已忽略：d")
    );
}

#[test]
fn storing_a_secret_appends_it() {
    assert_eq!(env_file_content("", "KEY", "v"), "KEY=v\n");
    assert_eq!(
        env_file_content("A=1\nB=2", "KEY", "v"),
        "A=1\nB=2\nKEY=v\n"
    );
}

#[test]
fn storing_a_secret_replaces_earlier_values() {
    assert_eq!(
        env_file_content("KEY=old\nA=1\n  KEY=older\n", "KEY", "new"),
        "A=1\nKEY=new\n"
    );
    // only exact assignments of the name are dropped
    assert_eq!(
        env_file_content("KEY_2=x\nMYKEY=y\n", "KEY", "z"),
        "KEY_2=x\nMYKEY=y\nKEY=z\n"
    );
}

#[test]
fn line_endings_are_normalized() {
    assert_eq!(
        env_file_content("A=1\r\n\r\nB=2\r\n", "K", "v"),
        "A=1\n\nB=2\nK=v\n"
    );
    // a carriage return not followed by a line feed stays
    assert_eq!(env_file_content("A=1\r", "K", "v"), "A=1\r\nK=v\n");
}

#[test]
fn a_failed_read_keeps_the_last_good_configuration() {
    let mut state = ConfigState::new(0u32);
    assert_eq!(state.notice(), None);
    state.record_read(
        ReadOutcome::Loaded { config: 7, dropped: Some("1 条短语".to_string()) },
        Some((100, 0)),
    );
    assert_eq!(state.config, 7);
    assert_eq!(state.notice().as_deref(), Some("已忽略：1 条短语"));
    state.record_read(ReadOutcome::Failed("第 2 行".to_string()), Some((200, 5)));
    assert_eq!(state.config, 7);
    assert_eq!(state.modified, Some((200, 5)));
    assert_eq!(
        state.notice().as_deref(),
        Some("配置文件解析失败，已沿用上一份：第 2 行")
    );
    state.record_read(ReadOutcome::Loaded { config: 9, dropped: None }, Some((300, 0)));
    assert_eq!(state.config, 9);
    assert_eq!(state.notice(), None);
}

#[test]
fn the_file_is_read_again_only_when_it_changed() {
    let mut state = ConfigState::new(());
    assert!(!state.needs_reload(false, Some((1, 0))));
    assert!(state.needs_reload(true, Some((1, 0))));
    state.record_read(ReadOutcome::Loaded { config: (), dropped: None }, Some((1, 0)));
    assert!(!state.needs_reload(true, Some((1, 0))));
    assert!(state.needs_reload(true, Some((1, 1))));
    assert!(state.needs_reload(true, None));
}

#[test]
fn storing_a_secret_twice_is_storing_it_once() {
    let existing = "A=1\r\nQINGJIAN_API_KEY=old\nB=2";
    let once = env_file_content(existing, "QINGJIAN_API_KEY", "new");
    assert_eq!(once, "A=1\nB=2\nQINGJIAN_API_KEY=new\n");
    let twice = env_file_content(&once, "QINGJIAN_API_KEY", "new");
    assert_eq!(twice, once);
}

#[test]
fn a_line_ending_in_carriage_return_loses_it_on_each_rewrite() {
    // the rewrite drops one carriage return before each line feed
    let once = env_file_content("A=1\r\r\n", "K", "v");
    assert_eq!(once, "A=1\r\nK=v\n");
    let twice = env_file_content(&once, "K", "v");
    assert_eq!(twice, "A=1\nK=v\n");
}
