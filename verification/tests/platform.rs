use makepad_shell::command::CommandId;
use makepad_shell::errors::{MacMenuError, WindowsTrayError};
use makepad_shell::idmap::{
    command_id_to_menu_id, command_id_to_tag, menu_id_to_command_id, tag_to_command_id,
};
use makepad_shell::macos::{
    plan_main_menu, plan_ns_command_item, plan_ns_items, plan_ns_tray_command_item,
    role_key_equivalent, role_selector, shortcut_to_key_equivalent, tray_click_action, NsAction,
    NsMenuNode, TrayClick, MOD_COMMAND, MOD_CONTROL, MOD_OPTION, MOD_SHIFT, NS_RIGHT_MOUSE_DOWN,
    NS_RIGHT_MOUSE_UP,
};
use makepad_shell::menu::{CommandItem, MenuItem, MenuItemRole, Submenu};
use makepad_shell::menubar::{MenuBarModel, TopMenu, TopMenuRole};
use makepad_shell::shortcut::{Key, Modifiers, Shortcut};
use makepad_shell::tray::{TrayCommandItem, TrayMenuItemRole};
use makepad_shell::windows::{
    menu_item_flags, plan_win_command_entry, tray_message_action, tray_window_class_wide,
    wide_null, write_wide_z, MF_CHECKED, MF_GRAYED, WM_CONTEXTMENU, WM_LBUTTONDOWN, WM_LBUTTONUP,
    WM_RBUTTONUP,
};

fn cid(n: u64) -> CommandId {
    CommandId::new(n).unwrap()
}

#[test]
fn tag_round_trip() {
    let tag = command_id_to_tag(&cid(42)).unwrap();
    assert_eq!(tag, 42);
    assert_eq!(tag_to_command_id(tag), Some(cid(42)));
    let max = i64::MAX as u64;
    let tag = command_id_to_tag(&cid(max)).unwrap();
    assert_eq!(tag_to_command_id(tag), Some(cid(max)));
}

#[test]
fn non_positive_tags_decode_to_no_command() {
    assert_eq!(tag_to_command_id(0), None);
    assert_eq!(tag_to_command_id(-5), None);
    assert_eq!(tag_to_command_id(i64::MIN), None);
}

#[test]
fn oversized_tag_encode_fails() {
    assert_eq!(
        command_id_to_tag(&cid(i64::MAX as u64 + 1)),
        Err(MacMenuError::BadCommandId)
    );
    assert_eq!(command_id_to_tag(&cid(u64::MAX)), Err(MacMenuError::BadCommandId));
}

#[test]
fn menu_id_round_trip() {
    let m = command_id_to_menu_id(&cid(7)).unwrap();
    assert_eq!(m, 7);
    assert_eq!(menu_id_to_command_id(m), Some(cid(7)));
    assert_eq!(menu_id_to_command_id(0), None);
    assert_eq!(
        command_id_to_menu_id(&cid(u32::MAX as u64 + 1)),
        Err(WindowsTrayError::BadCommandId)
    );
}

#[test]
fn role_selectors_map_to_standard_actions() {
    assert_eq!(role_selector(MenuItemRole::About), Some(NsAction::AboutPanel));
    assert_eq!(role_selector(MenuItemRole::Services), None);
    assert_eq!(role_selector(MenuItemRole::Quit), Some(NsAction::Terminate));
    assert_eq!(role_key_equivalent(MenuItemRole::Quit), Some('q' as u32));
    assert_eq!(role_key_equivalent(MenuItemRole::About), None);
}

#[test]
fn shortcut_key_equivalents() {
    let sc = Shortcut {
        mods: Modifiers { ctrl: true, alt: false, shift: false, meta: true },
        key: Key::Char('A'),
    };
    assert_eq!(
        shortcut_to_key_equivalent(&sc),
        Some(('a' as u32, MOD_CONTROL + MOD_COMMAND))
    );
    let enter = Shortcut { mods: Modifiers::default(), key: Key::Enter };
    assert_eq!(shortcut_to_key_equivalent(&enter), Some((13, 0)));
    let esc = Shortcut { mods: Modifiers::default(), key: Key::Escape };
    assert_eq!(shortcut_to_key_equivalent(&esc), Some((27, 0)));
    let f2 = Shortcut {
        mods: Modifiers { ctrl: false, alt: true, shift: true, meta: false },
        key: Key::F(2),
    };
    assert_eq!(
        shortcut_to_key_equivalent(&f2),
        Some((0xF705, MOD_SHIFT + MOD_OPTION))
    );
    let f13 = Shortcut { mods: Modifiers::default(), key: Key::F(13) };
    assert_eq!(shortcut_to_key_equivalent(&f13), None);
}

#[test]
fn ns_command_plan_for_roled_item() {
    let item = CommandItem::new(cid(3), "Quit".to_string()).with_role(MenuItemRole::Quit);
    let plan = plan_ns_command_item(&item, true).unwrap();
    assert_eq!(plan.action, Some(NsAction::Terminate));
    assert!(plan.set_target);
    assert_eq!(plan.key_code, Some('q' as u32));
    assert!(!plan.services_submenu);
    assert!(plan.enabled);
    assert!(!plan.state_on);
    assert_eq!(plan.tag, 3);
}

#[test]
fn ns_command_plan_for_plain_item_without_target() {
    let item = CommandItem::new(cid(4), "X".to_string());
    let plan = plan_ns_command_item(&item, false).unwrap();
    assert_eq!(plan.action, None);
    assert!(!plan.set_target);
    assert_eq!(plan.key_code, None);
}

#[test]
fn ns_tray_plan_shortcut_overrides_role_default() {
    let sc = Shortcut { mods: Modifiers::default(), key: Key::Char('z') };
    let item = TrayCommandItem {
        id: cid(5),
        label: "Z".to_string(),
        enabled: true,
        checked: true,
        shortcut: Some(sc),
        role: Some(TrayMenuItemRole::Quit),
    };
    let plan = plan_ns_tray_command_item(&item).unwrap();
    assert_eq!(plan.action, Some(NsAction::Terminate));
    assert_eq!(plan.key_equivalent, Some(('z' as u32, 0)));
    assert!(plan.state_on);
    let bare = TrayCommandItem::new(cid(6), "B".to_string());
    let plan = plan_ns_tray_command_item(&bare).unwrap();
    assert_eq!(plan.action, Some(NsAction::Invoke));
    assert_eq!(plan.key_equivalent, None);
    let roled = TrayCommandItem::new(cid(7), "Q".to_string())
        .with_role(TrayMenuItemRole::Quit);
    let plan = plan_ns_tray_command_item(&roled).unwrap();
    assert_eq!(plan.key_equivalent, Some(('q' as u32, MOD_COMMAND)));
}

#[test]
fn tray_clicks_disambiguate() {
    assert_eq!(tray_click_action(Some(NS_RIGHT_MOUSE_DOWN)), TrayClick::ShowMenu);
    assert_eq!(tray_click_action(Some(NS_RIGHT_MOUSE_UP)), TrayClick::ShowMenu);
    assert_eq!(tray_click_action(Some(7)), TrayClick::ShowMenu);
    assert_eq!(tray_click_action(Some(1)), TrayClick::Activate);
    assert_eq!(tray_click_action(None), TrayClick::Activate);
}

#[test]
fn windows_tray_messages_disambiguate() {
    assert_eq!(tray_message_action(WM_LBUTTONDOWN), Some(TrayClick::Activate));
    assert_eq!(tray_message_action(WM_LBUTTONUP), Some(TrayClick::Activate));
    assert_eq!(tray_message_action(WM_RBUTTONUP), Some(TrayClick::ShowMenu));
    assert_eq!(tray_message_action(WM_CONTEXTMENU), Some(TrayClick::ShowMenu));
    assert_eq!(tray_message_action(0x200), None);
}

#[test]
fn windows_flags() {
    assert_eq!(menu_item_flags(true, false), 0);
    assert_eq!(menu_item_flags(false, false), MF_GRAYED);
    assert_eq!(menu_item_flags(true, true), MF_CHECKED);
    assert_eq!(menu_item_flags(false, true), MF_GRAYED + MF_CHECKED);
}

#[test]
fn wide_null_encodes_utf16_with_terminator() {
    assert_eq!(wide_null("ab"), vec![97, 98, 0]);
    assert_eq!(wide_null(""), vec![0]);
    // one astral-plane character becomes a surrogate pair
    assert_eq!(wide_null("\u{1F600}"), vec![0xD83D, 0xDE00, 0]);
}

#[test]
fn write_wide_z_truncates_and_terminates() {
    let mut buf = vec![0xFFFFu16; 4];
    write_wide_z(&mut buf, "abcdef");
    assert_eq!(buf, vec![97, 98, 99, 0]);
    let mut buf = vec![0xFFFFu16; 8];
    write_wide_z(&mut buf, "ab");
    assert_eq!(buf, vec![97, 98, 0, 0, 0, 0, 0, 0]);
    let mut empty: Vec<u16> = vec![];
    write_wide_z(&mut empty, "ab");
    assert!(empty.is_empty());
}

#[test]
fn windows_entry_plan_builds_label_with_shortcut_column() {
    let sc = Shortcut {
        mods: Modifiers { ctrl: true, alt: false, shift: false, meta: false },
        key: Key::Char('s'),
    };
    let item = TrayCommandItem {
        id: cid(8),
        label: "Save".to_string(),
        enabled: false,
        checked: false,
        shortcut: Some(sc),
        role: None,
    };
    let entry = plan_win_command_entry(&item).unwrap();
    assert_eq!(entry.menu_id, 8);
    assert_eq!(entry.flags, MF_GRAYED);
    let expected: Vec<u16> = "Save\tCtrl+S\0".encode_utf16().collect();
    assert_eq!(entry.label, expected);
}

#[test]
fn windows_entry_plan_fkey_label() {
    let sc = Shortcut { mods: Modifiers::default(), key: Key::F(12) };
    let item = TrayCommandItem {
        id: cid(9),
        label: "Go".to_string(),
        enabled: true,
        checked: false,
        shortcut: Some(sc),
        role: None,
    };
    let entry = plan_win_command_entry(&item).unwrap();
    let expected: Vec<u16> = "Go\tF12\0".encode_utf16().collect();
    assert_eq!(entry.label, expected);
}

#[test]
fn ns_plan_walks_the_tree() {
    let items = vec![
        MenuItem::Command(CommandItem::new(cid(1), "A".to_string())),
        MenuItem::Separator,
        MenuItem::Submenu(Submenu::new(
            "More".to_string(),
            vec![MenuItem::Command(CommandItem::new(cid(2), "B".to_string()))],
        )),
    ];
    let nodes = plan_ns_items(&items, true).unwrap();
    assert_eq!(nodes.len(), 3);
    match &nodes[0] {
        NsMenuNode::Command { title, plan } => {
            assert_eq!(title, "A");
            assert_eq!(plan.action, Some(NsAction::Invoke));
            assert_eq!(plan.tag, 1);
        }
        _ => panic!("expected a command node"),
    }
    assert_eq!(nodes[1], NsMenuNode::Separator);
    match &nodes[2] {
        NsMenuNode::Submenu { title, items } => {
            assert_eq!(title, "More");
            assert_eq!(items.len(), 1);
            match &items[0] {
                NsMenuNode::Command { plan, .. } => assert_eq!(plan.tag, 2),
                _ => panic!("expected a command node"),
            }
        }
        _ => panic!("expected a submenu node"),
    }
}

#[test]
fn ns_plan_refuses_oversized_ids_anywhere() {
    let items = vec![MenuItem::Submenu(Submenu::new(
        "S".to_string(),
        vec![MenuItem::Command(CommandItem::new(cid(u64::MAX), "X".to_string()))],
    ))];
    assert!(plan_ns_items(&items, true).is_err());
}

#[test]
fn main_menu_plan_titles_and_default_app_menu() {
    let bar = MenuBarModel::new(vec![
        TopMenu::new("Ignored".to_string(), vec![]).with_role(TopMenuRole::App),
        TopMenu::new("File".to_string(), vec![]).with_role(TopMenuRole::File),
        TopMenu::new("".to_string(), vec![]),
    ]);
    let plan = plan_main_menu(&bar, true).unwrap();
    assert!(!plan.include_default_app_menu);
    assert!(plan.menus[0].process_name);
    assert!(!plan.menus[1].process_name);
    assert_eq!(plan.menus[1].title, "File");
    assert!(plan.menus[2].process_name);

    let bare = MenuBarModel::new(vec![TopMenu::new("File".to_string(), vec![])]);
    let plan = plan_main_menu(&bare, false).unwrap();
    assert!(plan.include_default_app_menu);
}

#[test]
fn tray_window_class_is_wide_and_terminated() {
    let expected: Vec<u16> = "MakepadShellTrayWindow\0".encode_utf16().collect();
    assert_eq!(tray_window_class_wide(), expected);
}
