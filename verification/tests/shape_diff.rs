use makepad_shell::command::CommandId;
use makepad_shell::diff::{diff_menu_bars, diff_tray_menus, PatchOp, TrayPatchOp};
use makepad_shell::macos::{MOD_COMMAND, MOD_SHIFT};
use makepad_shell::menu::{CommandItem, MenuItem, MenuItemRole, Submenu};
use makepad_shell::menubar::{MenuBarModel, TopMenu, TopMenuRole};
use makepad_shell::shape::{menu_bar_shape_eq, menu_item_shape_eq, menu_items_shape_eq};
use makepad_shell::shortcut::{Key, Modifiers, Shortcut};
use makepad_shell::tray::{TrayCommandItem, TrayMenuItem, TrayMenuModel};

fn cid(n: u64) -> CommandId {
    CommandId::new(n).unwrap()
}

fn cmd(n: u64, label: &str) -> MenuItem {
    MenuItem::Command(CommandItem::new(cid(n), label.to_string()))
}

fn bar(menus: Vec<TopMenu>) -> MenuBarModel {
    MenuBarModel::new(menus)
}

#[test]
fn shape_eq_is_reflexive_on_example() {
    let item = MenuItem::Submenu(Submenu::new(
        "S".to_string(),
        vec![cmd(1, "A"), MenuItem::Separator],
    ));
    assert!(menu_item_shape_eq(&item, &item));
}

#[test]
fn shape_ignores_volatile_fields() {
    let a = CommandItem {
        id: cid(1),
        label: "A".to_string(),
        enabled: true,
        checked: false,
        shortcut: None,
        role: None,
    };
    let b = CommandItem {
        id: cid(2),
        label: "B".to_string(),
        enabled: false,
        checked: true,
        shortcut: Some(Shortcut { mods: Modifiers::default(), key: Key::Enter }),
        role: None,
    };
    assert!(menu_item_shape_eq(&MenuItem::Command(a), &MenuItem::Command(b)));
}

#[test]
fn shape_detects_variant_role_and_length_changes() {
    let a = cmd(1, "A");
    assert!(!menu_item_shape_eq(&a, &MenuItem::Separator));
    let roled = MenuItem::Command(
        CommandItem::new(cid(1), "A".to_string()).with_role(MenuItemRole::Quit),
    );
    assert!(!menu_item_shape_eq(&a, &roled));
    let one = vec![cmd(1, "A")];
    let two = vec![cmd(1, "A"), cmd(2, "B")];
    assert!(!menu_items_shape_eq(&one, &two));
}

#[test]
fn shape_recurses_into_submenus() {
    let a = MenuItem::Submenu(Submenu::new("S".to_string(), vec![cmd(1, "A")]));
    let b = MenuItem::Submenu(Submenu::new("T".to_string(), vec![MenuItem::Separator]));
    assert!(!menu_item_shape_eq(&a, &b));
    let c = MenuItem::Submenu(Submenu::new("T".to_string(), vec![cmd(9, "Z")]));
    assert!(menu_item_shape_eq(&a, &c));
}

#[test]
fn bar_shape_requires_equal_top_roles() {
    let a = bar(vec![TopMenu::new("A".to_string(), vec![]).with_role(TopMenuRole::File)]);
    let b = bar(vec![TopMenu::new("A".to_string(), vec![]).with_role(TopMenuRole::Edit)]);
    assert!(!menu_bar_shape_eq(&a, &b));
    let c = bar(vec![TopMenu::new("B".to_string(), vec![]).with_role(TopMenuRole::File)]);
    assert!(menu_bar_shape_eq(&a, &c));
}

fn one_cmd_bar(label: &str, enabled: bool, checked: bool, id: u64) -> MenuBarModel {
    bar(vec![TopMenu::new(
        "M".to_string(),
        vec![MenuItem::Command(CommandItem {
            id: cid(id),
            label: label.to_string(),
            enabled,
            checked,
            shortcut: None,
            role: None,
        })],
    )
    .with_role(TopMenuRole::File)])
}

#[test]
fn patch_is_field_minimal() {
    let old = one_cmd_bar("A", true, false, 1);
    let new = one_cmd_bar("A", false, false, 1);
    let ops = diff_menu_bars(&old, &new).unwrap().unwrap();
    assert_eq!(ops, vec![PatchOp::SetEnabled { path: vec![0, 0], enabled: false }]);
}

#[test]
fn patch_of_identical_bars_is_empty() {
    let old = one_cmd_bar("A", true, false, 1);
    let new = one_cmd_bar("A", true, false, 1);
    let ops = diff_menu_bars(&old, &new).unwrap().unwrap();
    assert!(ops.is_empty());
}

#[test]
fn patch_emits_all_changed_fields_in_order() {
    let old = one_cmd_bar("A", true, false, 1);
    let new = one_cmd_bar("B", false, true, 2);
    let ops = diff_menu_bars(&old, &new).unwrap().unwrap();
    assert_eq!(
        ops,
        vec![
            PatchOp::SetLabel { path: vec![0, 0], label: "B".to_string() },
            PatchOp::SetEnabled { path: vec![0, 0], enabled: false },
            PatchOp::SetChecked { path: vec![0, 0], checked: true },
            PatchOp::SetTag { path: vec![0, 0], tag: 2 },
        ]
    );
}

#[test]
fn patch_updates_top_titles() {
    let old = bar(vec![TopMenu::new("Old".to_string(), vec![])]);
    let new = bar(vec![TopMenu::new("New".to_string(), vec![])]);
    let ops = diff_menu_bars(&old, &new).unwrap().unwrap();
    assert_eq!(
        ops,
        vec![PatchOp::SetTopTitle { index: 0, process_name: false, label: "New".to_string() }]
    );
}

#[test]
fn app_menu_title_always_refreshes_to_process_name() {
    let old = bar(vec![TopMenu::new("App".to_string(), vec![]).with_role(TopMenuRole::App)]);
    let new = bar(vec![TopMenu::new("App".to_string(), vec![]).with_role(TopMenuRole::App)]);
    let ops = diff_menu_bars(&old, &new).unwrap().unwrap();
    assert_eq!(
        ops,
        vec![PatchOp::SetTopTitle { index: 0, process_name: true, label: "App".to_string() }]
    );
}

#[test]
fn patch_recurses_with_paths() {
    let old = bar(vec![TopMenu::new(
        "M".to_string(),
        vec![MenuItem::Submenu(Submenu::new("S".to_string(), vec![cmd(1, "A")]))],
    )]);
    let new = bar(vec![TopMenu::new(
        "M".to_string(),
        vec![MenuItem::Submenu(Submenu::new("S".to_string(), vec![cmd(1, "B")]))],
    )]);
    let ops = diff_menu_bars(&old, &new).unwrap().unwrap();
    assert_eq!(
        ops,
        vec![PatchOp::SetLabel { path: vec![0, 0, 0], label: "B".to_string() }]
    );
}

#[test]
fn shape_mismatch_reports_rebuild() {
    let old = bar(vec![TopMenu::new("M".to_string(), vec![cmd(1, "A")])]);
    let new = bar(vec![TopMenu::new("M".to_string(), vec![cmd(1, "A"), cmd(2, "B")])]);
    assert_eq!(diff_menu_bars(&old, &new).unwrap(), None);
}

#[test]
fn oversized_new_id_is_refused() {
    let old = one_cmd_bar("A", true, false, 1);
    let new = one_cmd_bar("A", true, false, u64::MAX);
    assert!(diff_menu_bars(&old, &new).is_err());
}

fn tray_cmd(n: u64, label: &str, shortcut: Option<Shortcut>) -> TrayMenuItem {
    TrayMenuItem::Command(TrayCommandItem {
        id: cid(n),
        label: label.to_string(),
        enabled: true,
        checked: false,
        shortcut,
        role: None,
    })
}

#[test]
fn tray_patch_reassigns_key_equivalent_only_when_shortcut_changed() {
    let old = TrayMenuModel::new(vec![tray_cmd(1, "A", None)]);
    let sc = Shortcut {
        mods: Modifiers { ctrl: false, alt: false, shift: true, meta: true },
        key: Key::Char('K'),
    };
    let new = TrayMenuModel::new(vec![tray_cmd(1, "A", Some(sc))]);
    let ops = diff_tray_menus(&old, &new).unwrap().unwrap();
    assert_eq!(
        ops,
        vec![TrayPatchOp::SetKeyEquivalent {
            path: vec![0],
            key: Some(('k' as u32, MOD_SHIFT + MOD_COMMAND)),
        }]
    );
    let unchanged = diff_tray_menus(&new, &new).unwrap().unwrap();
    assert!(unchanged.is_empty());
}

#[test]
fn tray_patch_field_minimal() {
    let old = TrayMenuModel::new(vec![tray_cmd(1, "A", None)]);
    let new = TrayMenuModel::new(vec![TrayMenuItem::Command(TrayCommandItem {
        id: cid(1),
        label: "A".to_string(),
        enabled: false,
        checked: false,
        shortcut: None,
        role: None,
    })]);
    let ops = diff_tray_menus(&old, &new).unwrap().unwrap();
    assert_eq!(ops, vec![TrayPatchOp::SetEnabled { path: vec![0], enabled: false }]);
}

#[test]
fn tray_shape_mismatch_reports_rebuild() {
    let old = TrayMenuModel::new(vec![tray_cmd(1, "A", None)]);
    let new = TrayMenuModel::new(vec![TrayMenuItem::Separator]);
    assert_eq!(diff_tray_menus(&old, &new).unwrap(), None);
}
