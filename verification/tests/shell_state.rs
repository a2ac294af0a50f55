use qingjian_shell::registration::InstanceStep;
use qingjian_shell::shell_state::{
    api_key_hint, can_unload_now, cloud_slot_choice, cloud_slot_titles, lock_module,
    page_switch, selected_page, unlock_module, ClassFactory, Indicator, Ivars, ModuleRefs,
    SidebarEntry,
};

#[test]
fn the_dll_unloads_only_without_references() {
    let mut refs = ModuleRefs::new();
    assert!(can_unload_now(&refs));
    lock_module(&mut refs);
    lock_module(&mut refs);
    assert!(!can_unload_now(&refs));
    unlock_module(&mut refs);
    assert!(!can_unload_now(&refs));
    unlock_module(&mut refs);
    assert!(can_unload_now(&refs));
}

#[test]
fn the_indicator_redraws_only_on_change() {
    let mut indicator = Indicator::new();
    assert_eq!(indicator.update(false).as_deref(), Some("中"));
    assert_eq!(indicator.update(false), None);
    assert_eq!(indicator.update(true).as_deref(), Some("英"));
    indicator.set_cloud(true);
    assert_eq!(indicator.update(true).as_deref(), Some("英 ☁\u{fe0e}"));
    assert_eq!(indicator.update(true), None);
    indicator.activate();
    assert_eq!(indicator.update(true).as_deref(), Some("英 ☁\u{fe0e}"));
}

#[test]
fn cloud_slot_menu() {
    assert_eq!(
        cloud_slot_titles(),
        vec![
            "不要（只要整句补全）".to_string(),
            "1 格".to_string(),
            "2 格".to_string(),
            "3 格".to_string(),
            "4 格".to_string(),
        ]
    );
    assert_eq!(cloud_slot_choice(2), 2);
    assert_eq!(cloud_slot_choice(9), 4);
    assert_eq!(api_key_hint(true), "已设置，输入新值可替换");
    assert_eq!(api_key_hint(false), "未设置");
}

#[test]
fn lock_then_unlock_restores_the_count() {
    for start in [0isize, 5, -3, isize::MAX, isize::MIN] {
        let mut refs = ModuleRefs { count: start };
        lock_module(&mut refs);
        unlock_module(&mut refs);
        assert_eq!(refs.count, start);
    }
}

#[test]
fn the_class_factory_counts_what_it_creates() {
    let factory = ClassFactory;
    let mut refs = ModuleRefs::new();
    assert_eq!(factory.create_instance(&mut refs, true, false), InstanceStep::NoAggregation);
    assert_eq!(factory.create_instance(&mut refs, false, true), InstanceStep::Fail);
    assert!(can_unload_now(&refs));
    assert_eq!(factory.create_instance(&mut refs, false, false), InstanceStep::Create);
    assert!(!can_unload_now(&refs));
    factory.lock_server(&mut refs, true);
    assert_eq!(refs.count, 2);
    factory.lock_server(&mut refs, false);
    unlock_module(&mut refs);
    assert!(can_unload_now(&refs));
}

#[test]
fn sidebar_rows_and_pages() {
    let ivars = Ivars {
        entries: vec![
            SidebarEntry { title: "通用", symbol: "gearshape" },
            SidebarEntry { title: "云服务", symbol: "cloud" },
        ],
    };
    assert_eq!(ivars.number_of_rows(), 2);
    assert_eq!(ivars.entry(1).map(|e| e.title), Some("云服务"));
    assert!(ivars.entry(2).is_none());
    assert!(ivars.entry(-1).is_none());
    assert_eq!(selected_page(-1), None);
    assert_eq!(selected_page(1), Some(1));
    assert_eq!(page_switch(None, 0, 3), Some(None));
    assert_eq!(page_switch(Some(0), 0, 3), None);
    assert_eq!(page_switch(Some(0), 2, 3), Some(Some(0)));
    assert_eq!(page_switch(Some(0), 3, 3), None);
}
