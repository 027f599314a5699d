use makepad_shell::command::CommandId;
use makepad_shell::menu::{CommandItem, MenuItem, MenuItemRole};
use makepad_shell::menubar::{MenuBarModel, TopMenu, TopMenuRole};
use makepad_shell::normalize::{has_app_menu, normalize_menu_bar, top_menu_order};

fn cid(n: u64) -> CommandId {
    CommandId::new(n).unwrap()
}

fn cmd(n: u64, label: &str) -> MenuItem {
    MenuItem::Command(CommandItem::new(cid(n), label.to_string()))
}

fn roled(n: u64, label: &str, role: MenuItemRole) -> MenuItem {
    MenuItem::Command(CommandItem::new(cid(n), label.to_string()).with_role(role))
}

fn labels(items: &[MenuItem]) -> Vec<String> {
    items
        .iter()
        .map(|i| match i {
            MenuItem::Command(c) => c.label.clone(),
            MenuItem::Submenu(s) => s.label.clone(),
            MenuItem::Separator => "|".to_string(),
        })
        .collect()
}

#[test]
fn priority_order_values() {
    assert_eq!(top_menu_order(Some(TopMenuRole::App)), 0);
    assert_eq!(top_menu_order(Some(TopMenuRole::File)), 1);
    assert_eq!(top_menu_order(Some(TopMenuRole::Edit)), 2);
    assert_eq!(top_menu_order(Some(TopMenuRole::View)), 3);
    assert_eq!(top_menu_order(Some(TopMenuRole::Window)), 4);
    assert_eq!(top_menu_order(Some(TopMenuRole::Help)), 5);
    assert_eq!(top_menu_order(None), 100);
}

#[test]
fn sort_is_stable_by_role_priority() {
    let bar = MenuBarModel::new(vec![
        TopMenu::new("View".to_string(), vec![]).with_role(TopMenuRole::View),
        TopMenu::new("AppMenu".to_string(), vec![]).with_role(TopMenuRole::App),
        TopMenu::new("X".to_string(), vec![]),
        TopMenu::new("File".to_string(), vec![]).with_role(TopMenuRole::File),
    ]);
    let out = normalize_menu_bar(bar);
    let names: Vec<String> = out.menus.iter().map(|m| m.label.clone()).collect();
    assert_eq!(names, vec!["AppMenu", "File", "View", "X"]);
}

#[test]
fn equal_priority_keeps_insertion_order() {
    let bar = MenuBarModel::new(vec![
        TopMenu::new("B".to_string(), vec![]),
        TopMenu::new("A".to_string(), vec![]),
        TopMenu::new("C".to_string(), vec![]),
    ]);
    let out = normalize_menu_bar(bar);
    let names: Vec<String> = out.menus.iter().map(|m| m.label.clone()).collect();
    assert_eq!(names, vec!["B", "A", "C"]);
}

#[test]
fn app_menu_sectioning() {
    let bar = MenuBarModel::new(vec![TopMenu::new(
        "App".to_string(),
        vec![
            cmd(1, "Custom1"),
            roled(2, "About", MenuItemRole::About),
            roled(3, "Preferences", MenuItemRole::Preferences),
            roled(4, "Quit", MenuItemRole::Quit),
            cmd(5, "Custom2"),
        ],
    )
    .with_role(TopMenuRole::App)]);
    let out = normalize_menu_bar(bar);
    assert_eq!(
        labels(&out.menus[0].items),
        vec!["About", "|", "Custom1", "Custom2", "|", "Preferences", "|", "Quit"]
    );
}

#[test]
fn end_to_end_scenario() {
    let bar = MenuBarModel::new(vec![
        TopMenu::new("App".to_string(), vec![
            roled(1, "About", MenuItemRole::About),
            cmd(2, "Custom"),
            roled(3, "Quit", MenuItemRole::Quit),
        ])
        .with_role(TopMenuRole::App),
        TopMenu::new("Extra".to_string(), vec![cmd(4, "E")]),
    ]);
    let out = normalize_menu_bar(bar);
    let names: Vec<String> = out.menus.iter().map(|m| m.label.clone()).collect();
    assert_eq!(names, vec!["App", "Extra"]);
    assert_eq!(labels(&out.menus[0].items), vec!["About", "|", "Custom", "|", "Quit"]);
    assert_eq!(labels(&out.menus[1].items), vec!["E"]);
}

#[test]
fn normalization_is_idempotent_on_example() {
    let bar = MenuBarModel::new(vec![
        TopMenu::new("App".to_string(), vec![
            cmd(1, "C1"),
            MenuItem::Separator,
            roled(2, "About", MenuItemRole::About),
            roled(3, "Hide", MenuItemRole::Hide),
            roled(4, "HideOthers", MenuItemRole::HideOthers),
            roled(5, "Quit", MenuItemRole::Quit),
            roled(6, "Zoom", MenuItemRole::Zoom),
            roled(7, "Minimize", MenuItemRole::Minimize),
        ])
        .with_role(TopMenuRole::App),
        TopMenu::new("Help".to_string(), vec![cmd(8, "H")]).with_role(TopMenuRole::Help),
        TopMenu::new("Zed".to_string(), vec![]),
    ]);
    let once = normalize_menu_bar(bar);
    let twice = normalize_menu_bar(once.clone());
    assert_eq!(twice, once);
}

#[test]
fn separators_inside_app_menu_are_replaced() {
    let bar = MenuBarModel::new(vec![TopMenu::new(
        "App".to_string(),
        vec![
            cmd(1, "C1"),
            MenuItem::Separator,
            cmd(2, "C2"),
            roled(3, "Quit", MenuItemRole::Quit),
        ],
    )
    .with_role(TopMenuRole::App)]);
    let out = normalize_menu_bar(bar);
    assert_eq!(labels(&out.menus[0].items), vec!["C1", "C2", "|", "Quit"]);
}

#[test]
fn hide_group_has_fixed_internal_order() {
    let bar = MenuBarModel::new(vec![TopMenu::new(
        "App".to_string(),
        vec![
            roled(1, "ShowAll", MenuItemRole::ShowAll),
            roled(2, "Hide", MenuItemRole::Hide),
            roled(3, "HideOthers", MenuItemRole::HideOthers),
        ],
    )
    .with_role(TopMenuRole::App)]);
    let out = normalize_menu_bar(bar);
    assert_eq!(labels(&out.menus[0].items), vec!["Hide", "HideOthers", "ShowAll"]);
}

#[test]
fn trailing_roles_keep_first_occurrence_order() {
    let bar = MenuBarModel::new(vec![TopMenu::new(
        "App".to_string(),
        vec![
            roled(1, "Zoom", MenuItemRole::Zoom),
            roled(2, "Minimize", MenuItemRole::Minimize),
            cmd(3, "C"),
        ],
    )
    .with_role(TopMenuRole::App)]);
    let out = normalize_menu_bar(bar);
    assert_eq!(labels(&out.menus[0].items), vec!["C", "|", "Zoom", "|", "Minimize"]);
}

#[test]
fn duplicate_role_falls_into_custom_bucket() {
    let bar = MenuBarModel::new(vec![TopMenu::new(
        "App".to_string(),
        vec![
            roled(1, "QuitA", MenuItemRole::Quit),
            roled(2, "QuitB", MenuItemRole::Quit),
        ],
    )
    .with_role(TopMenuRole::App)]);
    let out = normalize_menu_bar(bar);
    assert_eq!(labels(&out.menus[0].items), vec!["QuitB", "|", "QuitA"]);
}

#[test]
fn non_app_menus_keep_their_items() {
    let bar = MenuBarModel::new(vec![TopMenu::new(
        "File".to_string(),
        vec![roled(1, "About", MenuItemRole::About), MenuItem::Separator, cmd(2, "C")],
    )
    .with_role(TopMenuRole::File)]);
    let out = normalize_menu_bar(bar);
    assert_eq!(labels(&out.menus[0].items), vec!["About", "|", "C"]);
}

#[test]
fn has_app_menu_detects_the_role() {
    let without = MenuBarModel::new(vec![TopMenu::new("F".to_string(), vec![])]);
    assert!(!has_app_menu(&without));
    let with = MenuBarModel::new(vec![
        TopMenu::new("F".to_string(), vec![]),
        TopMenu::new("A".to_string(), vec![]).with_role(TopMenuRole::App),
    ]);
    assert!(has_app_menu(&with));
}
