use makepad_shell::command::CommandId;
use makepad_shell::menu::{CommandItem, MenuItem, MenuItemRole};
use makepad_shell::menubar::{MenuBarModel, TopMenu, TopMenuRole};
use makepad_shell::notification::{Notification, NotificationButton};
use makepad_shell::notify::{
    activation_command, NotificationCenter, PendingEntry, ACTIVATION_ACTION_BUTTON,
};
use makepad_shell::reconcile::{AppMenuState, MenuBarUpdate, TrayMenuState, TrayMenuUpdate};
use makepad_shell::tray::{TrayCommandItem, TrayMenuItem, TrayMenuModel};

fn cid(n: u64) -> CommandId {
    CommandId::new(n).unwrap()
}

fn simple_bar(label: &str, enabled: bool) -> MenuBarModel {
    MenuBarModel::new(vec![TopMenu::new(
        "App".to_string(),
        vec![MenuItem::Command(CommandItem {
            id: cid(1),
            label: label.to_string(),
            enabled,
            checked: false,
            shortcut: None,
            role: Some(MenuItemRole::About),
        })],
    )
    .with_role(TopMenuRole::App)])
}

#[test]
fn first_install_is_a_rebuild() {
    let mut state = AppMenuState::new();
    match state.plan_set_menu_bar(simple_bar("A", true), false).unwrap() {
        MenuBarUpdate::Rebuild(built) => {
            assert_eq!(built.menus.len(), 1);
        },
        MenuBarUpdate::Patch(_) => panic!("expected a rebuild"),
    }
}

#[test]
fn same_shape_second_install_is_a_patch() {
    let mut state = AppMenuState::new();
    state.plan_set_menu_bar(simple_bar("A", true), false).unwrap();
    match state.plan_set_menu_bar(simple_bar("A", false), true).unwrap() {
        MenuBarUpdate::Patch(ops) => {
            assert_eq!(ops.len(), 2);
        },
        MenuBarUpdate::Rebuild(_) => panic!("expected a patch"),
    }
}

#[test]
fn stale_root_forces_a_rebuild() {
    let mut state = AppMenuState::new();
    state.plan_set_menu_bar(simple_bar("A", true), false).unwrap();
    match state.plan_set_menu_bar(simple_bar("A", false), false).unwrap() {
        MenuBarUpdate::Rebuild(_) => {},
        MenuBarUpdate::Patch(_) => panic!("expected a rebuild"),
    }
}

#[test]
fn shape_change_forces_a_rebuild() {
    let mut state = AppMenuState::new();
    state.plan_set_menu_bar(simple_bar("A", true), false).unwrap();
    let longer = MenuBarModel::new(vec![
        TopMenu::new("App".to_string(), vec![]).with_role(TopMenuRole::App),
        TopMenu::new("Extra".to_string(), vec![]),
    ]);
    match state.plan_set_menu_bar(longer, true).unwrap() {
        MenuBarUpdate::Rebuild(_) => {},
        MenuBarUpdate::Patch(_) => panic!("expected a rebuild"),
    }
}

#[test]
fn oversized_id_fails_the_plan() {
    let mut state = AppMenuState::new();
    let bad = MenuBarModel::new(vec![TopMenu::new(
        "M".to_string(),
        vec![MenuItem::Command(CommandItem::new(cid(u64::MAX), "X".to_string()))],
    )]);
    assert!(state.plan_set_menu_bar(bad, false).is_err());
}

fn tray_menu(label: &str) -> TrayMenuModel {
    TrayMenuModel::new(vec![TrayMenuItem::Command(TrayCommandItem::new(
        cid(2),
        label.to_string(),
    ))])
}

#[test]
fn tray_same_shape_update_is_a_patch() {
    let mut state = TrayMenuState::new(tray_menu("A"));
    match state.plan_update_menu(tray_menu("B")).unwrap() {
        TrayMenuUpdate::Patch(ops) => assert_eq!(ops.len(), 1),
        TrayMenuUpdate::Rebuild => panic!("expected a patch"),
    }
    assert_eq!(state.model().items.len(), 1);
}

#[test]
fn tray_shape_change_is_a_rebuild() {
    let mut state = TrayMenuState::new(tray_menu("A"));
    let new = TrayMenuModel::new(vec![TrayMenuItem::Separator, TrayMenuItem::Separator]);
    match state.plan_update_menu(new).unwrap() {
        TrayMenuUpdate::Rebuild => {},
        TrayMenuUpdate::Patch(_) => panic!("expected a rebuild"),
    }
    assert_eq!(state.model().items.len(), 2);
}

#[test]
fn notification_identifier_is_synthesized_from_counter() {
    let mut center = NotificationCenter::new();
    let req = center.prepare_show(Notification::new("T".to_string()));
    assert_eq!(req.identifier, "makepad-shell.notification.1");
    let req = center.prepare_show(Notification::new("T".to_string()));
    assert_eq!(req.identifier, "makepad-shell.notification.2");
}

#[test]
fn explicit_identifier_is_kept_and_counter_untouched() {
    let mut center = NotificationCenter::new();
    let req = center.prepare_show(
        Notification::new("T".to_string()).with_identifier("mine".to_string()),
    );
    assert_eq!(req.identifier, "mine");
    let req = center.prepare_show(Notification::new("T".to_string()));
    assert_eq!(req.identifier, "makepad-shell.notification.1");
}

#[test]
fn notification_fields_pass_through() {
    let mut center = NotificationCenter::new();
    let req = center.prepare_show(
        Notification::new("Title".to_string())
            .with_body("Body".to_string())
            .with_subtitle("Sub".to_string())
            .with_action_button(NotificationButton::new(cid(5), "Go".to_string())),
    );
    assert_eq!(req.title, "Title");
    assert_eq!(req.body.as_deref(), Some("Body"));
    assert_eq!(req.subtitle.as_deref(), Some("Sub"));
    assert_eq!(req.action_button_label.as_deref(), Some("Go"));
}

#[test]
fn activation_delivers_at_most_once() {
    let mut center = NotificationCenter::new();
    let req = center.prepare_show(
        Notification::new("T".to_string()).with_default_action(cid(9)),
    );
    let first = center.handle_activation(&req.identifier, 1);
    assert_eq!(first, Some(cid(9)));
    let second = center.handle_activation(&req.identifier, 1);
    assert_eq!(second, None);
}

#[test]
fn activation_without_commands_tracks_nothing() {
    let mut center = NotificationCenter::new();
    let req = center.prepare_show(Notification::new("T".to_string()));
    assert_eq!(center.handle_activation(&req.identifier, 1), None);
}

#[test]
fn action_button_activation_prefers_button_command() {
    let entry = PendingEntry {
        default_command: Some(cid(1)),
        action_command: Some(cid(2)),
    };
    assert_eq!(activation_command(&entry, ACTIVATION_ACTION_BUTTON), Some(cid(2)));
    assert_eq!(activation_command(&entry, 0), Some(cid(1)));
    let only_default = PendingEntry { default_command: Some(cid(1)), action_command: None };
    assert_eq!(
        activation_command(&only_default, ACTIVATION_ACTION_BUTTON),
        Some(cid(1))
    );
    let only_action = PendingEntry { default_command: None, action_command: Some(cid(2)) };
    assert_eq!(activation_command(&only_action, 0), Some(cid(2)));
}
