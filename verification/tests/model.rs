use makepad_shell::command::CommandId;
use makepad_shell::menu::{CommandItem, MenuItem, MenuItemRole, MenuModel, Submenu};
use makepad_shell::notification::{
    Notification, NotificationButton, NotificationSound,
};
use makepad_shell::tray::{
    TrayCommandItem, TrayIcon, TrayMenuItemRole, TrayMenuModel, TrayModel, TraySubmenu,
};

fn cid(n: u64) -> CommandId {
    CommandId::new(n).unwrap()
}

#[test]
fn command_id_rejects_zero() {
    assert!(CommandId::new(0).is_none());
    assert_eq!(cid(7).as_u64(), 7);
    assert_eq!(cid(u64::MAX).as_u64(), u64::MAX);
}

#[test]
fn command_item_defaults() {
    let item = CommandItem::new(cid(1), "Open".to_string());
    assert_eq!(item.label, "Open");
    assert!(item.enabled);
    assert!(!item.checked);
    assert!(item.shortcut.is_none());
    assert!(item.role.is_none());
}

#[test]
fn command_item_with_role() {
    let item = CommandItem::new(cid(1), "Quit".to_string()).with_role(MenuItemRole::Quit);
    assert_eq!(item.role, Some(MenuItemRole::Quit));
    assert!(item.enabled);
}

#[test]
fn submenu_and_model_hold_items() {
    let sub = Submenu::new(
        "More".to_string(),
        vec![MenuItem::Command(CommandItem::new(cid(2), "A".to_string()))],
    );
    assert_eq!(sub.label, "More");
    assert_eq!(sub.items.len(), 1);
    let model = MenuModel::new(vec![MenuItem::Submenu(sub), MenuItem::Separator]);
    assert_eq!(model.items.len(), 2);
}

#[test]
fn notification_builders() {
    let n = Notification::new("Hello".to_string())
        .with_body("Body".to_string())
        .with_subtitle("Sub".to_string())
        .with_identifier("my-id".to_string())
        .with_default_action(cid(9))
        .with_action_button(NotificationButton::new(cid(10), "Go".to_string()))
        .with_sound(NotificationSound::Custom("Ping".to_string()));
    assert_eq!(n.title, "Hello");
    assert_eq!(n.body.as_deref(), Some("Body"));
    assert_eq!(n.subtitle.as_deref(), Some("Sub"));
    assert_eq!(n.identifier.as_deref(), Some("my-id"));
    assert_eq!(n.default_action, Some(cid(9)));
    let button = n.action_button.as_ref().unwrap();
    assert_eq!(button.command, cid(10));
    assert_eq!(button.label, "Go");
    assert_eq!(n.sound, NotificationSound::Custom("Ping".to_string()));
}

#[test]
fn notification_defaults() {
    let n = Notification::new("T".to_string());
    assert!(n.body.is_none());
    assert!(n.subtitle.is_none());
    assert!(n.identifier.is_none());
    assert!(n.default_action.is_none());
    assert!(n.action_button.is_none());
    assert_eq!(n.sound, NotificationSound::Default);
}

#[test]
fn tray_icon_template_flag() {
    let icon = TrayIcon::from_png_bytes(vec![1, 2, 3]);
    let TrayIcon::Png { ref bytes, is_template } = icon;
    assert_eq!(bytes, &vec![1, 2, 3]);
    assert!(!is_template);
    let icon = icon.with_template(true);
    let TrayIcon::Png { ref bytes, is_template } = icon;
    assert_eq!(bytes, &vec![1, 2, 3]);
    assert!(is_template);
}

#[test]
fn tray_model_builders() {
    let item = TrayCommandItem::new(cid(3), "Show".to_string());
    assert!(item.enabled);
    assert!(!item.checked);
    assert!(item.shortcut.is_none());
    assert!(item.role.is_none());
    let item = item.with_role(TrayMenuItemRole::About);
    assert_eq!(item.role, Some(TrayMenuItemRole::About));
    let sub = TraySubmenu::new("S".to_string(), vec![]);
    assert_eq!(sub.label, "S");
    let menu = TrayMenuModel::new(vec![
        makepad_shell::tray::TrayMenuItem::Command(item),
        makepad_shell::tray::TrayMenuItem::Submenu(sub),
    ]);
    let model = TrayModel::new(TrayIcon::from_png_bytes(vec![]), menu);
    assert!(model.tooltip.is_none());
    let model = model.with_tooltip("tip".to_string());
    assert_eq!(model.tooltip.as_deref(), Some("tip"));
}

#[test]
fn menu_items_clone_deeply() {
    let item = MenuItem::Submenu(Submenu::new(
        "Outer".to_string(),
        vec![
            MenuItem::Command(CommandItem::new(cid(5), "Inner".to_string())),
            MenuItem::Separator,
        ],
    ));
    let copy = item.clone();
    assert_eq!(copy, item);
}
