use light_for_all_agent::autostart::{
    register_auto_start, registry_error, RegistryEdit, RegistryStep, REGISTRY_KEY, RUN_KEY_PATH,
};
use light_for_all_agent::menu::{context_menu, menu_action, MenuAction, MenuEntry};
use light_for_all_agent::status::Orientation;

#[test]
fn context_menu_layout() {
    let entries = context_menu();
    let shown: Vec<Option<(&str, &str)>> = entries
        .iter()
        .map(|e| match e {
            MenuEntry::Item { id, label } => Some((*id, *label)),
            MenuEntry::Separator => None,
        })
        .collect();
    assert_eq!(
        shown,
        vec![
            Some(("horizontal", "横向")),
            Some(("vertical", "竖向")),
            None,
            Some(("auto_start", "开机自启")),
            None,
            Some(("quit", "退出")),
        ]
    );
}

#[test]
fn menu_actions() {
    assert_eq!(menu_action("quit"), MenuAction::Quit);
    assert_eq!(menu_action("horizontal"), MenuAction::SetOrientation(Orientation::Horizontal));
    assert_eq!(menu_action("vertical"), MenuAction::SetOrientation(Orientation::Vertical));
    assert_eq!(menu_action("auto_start"), MenuAction::ToggleAutoStart);
    assert_eq!(menu_action("Quit"), MenuAction::Ignore);
    assert_eq!(menu_action(""), MenuAction::Ignore);
}

#[test]
fn every_menu_item_is_handled() {
    for e in context_menu() {
        if let MenuEntry::Item { id, .. } = e {
            assert_ne!(menu_action(id), MenuAction::Ignore, "item {id}");
        }
    }
}

#[test]
fn auto_start_edits() {
    assert_eq!(register_auto_start(true, true), Ok(RegistryEdit::SetRunEntry));
    assert_eq!(register_auto_start(false, true), Ok(RegistryEdit::DeleteRunEntry));
}

#[test]
fn auto_start_refused_off_windows() {
    assert_eq!(register_auto_start(true, false), Err("仅支持 Windows 自动启动".to_string()));
    assert_eq!(register_auto_start(false, false), Err("仅支持 Windows 自动启动".to_string()));
}

#[test]
fn registry_error_messages() {
    assert_eq!(registry_error(RegistryStep::OpenKey, "denied"), "无法打开注册表: denied");
    assert_eq!(registry_error(RegistryStep::WriteValue, "x"), "无法写入注册表: x");
    assert_eq!(registry_error(RegistryStep::DeleteValue, ""), "无法删除注册表项: ");
}

#[test]
fn registry_names() {
    assert_eq!(REGISTRY_KEY, "LightForAllAgent");
    assert_eq!(RUN_KEY_PATH, r"Software\Microsoft\Windows\CurrentVersion\Run");
}
