use vstd::prelude::*;
use crate::menu::{ItemV, MenuItem, MenuItemRole};
use crate::menubar::{MenuBarModel, TopMenuRole, TopMenuV};
use crate::tray::{TrayItemV, TrayMenuItem, TrayMenuItemRole};

verus! {

broadcast use crate::menu::lemma_item_view_submenu, crate::tray::lemma_tray_item_view_submenu;

// Shape equality decides whether two menu trees are congruent in structure —
// same length at every level, same node kind at each position, same role on
// command nodes — while ignoring the volatile attributes (label, enabled,
// checked, shortcut, id). It decides between an in-place patch and a
// full rebuild.

/// Whether two menu nodes have the same shape.
pub open spec fn shape_eq_item(a: ItemV, b: ItemV) -> bool
    decreases a,
{
    match (a, b) {
        (ItemV::Separator, ItemV::Separator) => true,
        (ItemV::Command { role: ra, .. }, ItemV::Command { role: rb, .. }) => ra == rb,
        (ItemV::Submenu { items: ia, .. }, ItemV::Submenu { items: ib, .. }) => ia.len()
            == ib.len() && (forall|i: int|
            0 <= i < ia.len() ==> shape_eq_item(#[trigger] ia[i], ib[i])),
        _ => false,
    }
}

/// Whether two menu item sequences have the same shape, position by position.
pub open spec fn shape_eq_items(a: Seq<ItemV>, b: Seq<ItemV>) -> bool {
    a.len() == b.len() && (forall|i: int|
        0 <= i < a.len() ==> shape_eq_item(#[trigger] a[i], b[i]))
}

/// Whether two menu bars have the same shape: same number of top menus, same
/// top-level role at each position, and shape-equal contents.
pub open spec fn shape_eq_bar(a: Seq<TopMenuV>, b: Seq<TopMenuV>) -> bool {
    a.len() == b.len() && (forall|i: int|
        0 <= i < a.len() ==> (#[trigger] a[i]).role == b[i].role && shape_eq_items(
            a[i].items,
            b[i].items,
        ))
}

/// Every tree is shape-equal to itself.
pub proof fn lemma_shape_eq_item_refl(a: ItemV)
    ensures
        shape_eq_item(a, a),
    decreases a,
{
    match a {
        ItemV::Submenu { items, .. } => {
            assert forall|i: int| 0 <= i < items.len() implies shape_eq_item(
                #[trigger] items[i],
                items[i],
            ) by {
                lemma_shape_eq_item_refl(items[i]);
            }
        },
        _ => {},
    }
}

/// Every item sequence is shape-equal to itself.
pub proof fn lemma_shape_eq_items_refl(s: Seq<ItemV>)
    ensures
        shape_eq_items(s, s),
{
    assert forall|i: int| 0 <= i < s.len() implies shape_eq_item(#[trigger] s[i], s[i]) by {
        lemma_shape_eq_item_refl(s[i]);
    }
}

/// Every menu bar is shape-equal to itself.
pub proof fn lemma_shape_eq_bar_refl(s: Seq<TopMenuV>)
    ensures
        shape_eq_bar(s, s),
{
    assert forall|i: int| 0 <= i < s.len() implies (#[trigger] s[i]).role == s[i].role
        && shape_eq_items(s[i].items, s[i].items) by {
        lemma_shape_eq_items_refl(s[i].items);
    }
}

/// Whether two optional menu roles are the same.
fn menu_role_eq(a: &Option<MenuItemRole>, b: &Option<MenuItemRole>) -> (r: bool)
    ensures
        r == (*a == *b),
{
    match (a, b) {
        (None, None) => true,
        (Some(x), Some(y)) => *x == *y,
        _ => false,
    }
}

/// Whether two menu nodes have the same shape.
pub fn menu_item_shape_eq(a: &MenuItem, b: &MenuItem) -> (r: bool)
    ensures
        r == shape_eq_item(a@, b@),
    decreases *a,
{
    match (a, b) {
        (MenuItem::Separator, MenuItem::Separator) => true,
        (MenuItem::Command(ca), MenuItem::Command(cb)) => menu_role_eq(&ca.role, &cb.role),
        (MenuItem::Submenu(sa), MenuItem::Submenu(sb)) => menu_items_shape_eq(
            &sa.items,
            &sb.items,
        ),
        _ => false,
    }
}

/// Whether two menu item sequences have the same shape.
pub fn menu_items_shape_eq(a: &Vec<MenuItem>, b: &Vec<MenuItem>) -> (r: bool)
    ensures
        r == shape_eq_items(a.deep_view(), b.deep_view()),
    decreases a@,
{
    if a.len() != b.len() {
        return false;
    }
    let mut i: usize = 0;
    while i < a.len()
        invariant
            a.len() == b.len(),
            i <= a.len(),
            forall|j: int|
                0 <= j < i ==> shape_eq_item(#[trigger] a.deep_view()[j], b.deep_view()[j]),
        decreases a.len() - i,
    {
        if !menu_item_shape_eq(&a[i], &b[i]) {
            proof {
                assert(a.deep_view()[i as int] == a@[i as int].deep_view());
                assert(b.deep_view()[i as int] == b@[i as int].deep_view());
            }
            return false;
        }
        i += 1;
    }
    true
}

/// Whether two menu bars have the same shape.
pub fn menu_bar_shape_eq(old: &MenuBarModel, new: &MenuBarModel) -> (r: bool)
    ensures
        r == shape_eq_bar(old@, new@),
{
    if old.menus.len() != new.menus.len() {
        return false;
    }
    let mut i: usize = 0;
    while i < old.menus.len()
        invariant
            old.menus.len() == new.menus.len(),
            i <= old.menus.len(),
            forall|j: int|
                0 <= j < i ==> (#[trigger] old@[j]).role == new@[j].role && shape_eq_items(
                    old@[j].items,
                    new@[j].items,
                ),
        decreases old.menus.len() - i,
    {
        let om = &old.menus[i];
        let nm = &new.menus[i];
        let role_ok = match (&om.role, &nm.role) {
            (None, None) => true,
            (Some(x), Some(y)) => *x == *y,
            _ => false,
        };
        proof {
            assert(old@[i as int] == old.menus@[i as int].deep_view());
            assert(new@[i as int] == new.menus@[i as int].deep_view());
        }
        if !role_ok {
            return false;
        }
        if !menu_items_shape_eq(&om.items, &nm.items) {
            return false;
        }
        i += 1;
    }
    true
}

// The tray family mirrors the menu family; its shape predicate is the same
// comparison over tray nodes.

/// Whether two tray menu nodes have the same shape.
pub open spec fn tray_shape_eq_item(a: TrayItemV, b: TrayItemV) -> bool
    decreases a,
{
    match (a, b) {
        (TrayItemV::Separator, TrayItemV::Separator) => true,
        (TrayItemV::Command { role: ra, .. }, TrayItemV::Command { role: rb, .. }) => ra == rb,
        (TrayItemV::Submenu { items: ia, .. }, TrayItemV::Submenu { items: ib, .. }) => ia.len()
            == ib.len() && (forall|i: int|
            0 <= i < ia.len() ==> tray_shape_eq_item(#[trigger] ia[i], ib[i])),
        _ => false,
    }
}

/// Whether two tray item sequences have the same shape.
pub open spec fn tray_shape_eq_items(a: Seq<TrayItemV>, b: Seq<TrayItemV>) -> bool {
    a.len() == b.len() && (forall|i: int|
        0 <= i < a.len() ==> tray_shape_eq_item(#[trigger] a[i], b[i]))
}

/// Every tray tree is shape-equal to itself.
pub proof fn lemma_tray_shape_eq_item_refl(a: TrayItemV)
    ensures
        tray_shape_eq_item(a, a),
    decreases a,
{
    match a {
        TrayItemV::Submenu { items, .. } => {
            assert forall|i: int| 0 <= i < items.len() implies tray_shape_eq_item(
                #[trigger] items[i],
                items[i],
            ) by {
                lemma_tray_shape_eq_item_refl(items[i]);
            }
        },
        _ => {},
    }
}

/// Every tray item sequence is shape-equal to itself.
pub proof fn lemma_tray_shape_eq_items_refl(s: Seq<TrayItemV>)
    ensures
        tray_shape_eq_items(s, s),
{
    assert forall|i: int| 0 <= i < s.len() implies tray_shape_eq_item(#[trigger] s[i], s[i]) by {
        lemma_tray_shape_eq_item_refl(s[i]);
    }
}

/// Whether two optional tray roles are the same.
fn tray_role_eq(a: &Option<TrayMenuItemRole>, b: &Option<TrayMenuItemRole>) -> (r: bool)
    ensures
        r == (*a == *b),
{
    match (a, b) {
        (None, None) => true,
        (Some(x), Some(y)) => *x == *y,
        _ => false,
    }
}

/// Whether two tray menu nodes have the same shape.
pub fn tray_item_shape_eq(a: &TrayMenuItem, b: &TrayMenuItem) -> (r: bool)
    ensures
        r == tray_shape_eq_item(a@, b@),
    decreases *a,
{
    match (a, b) {
        (TrayMenuItem::Separator, TrayMenuItem::Separator) => true,
        (TrayMenuItem::Command(ca), TrayMenuItem::Command(cb)) => tray_role_eq(
            &ca.role,
            &cb.role,
        ),
        (TrayMenuItem::Submenu(sa), TrayMenuItem::Submenu(sb)) => tray_items_shape_eq(
            &sa.items,
            &sb.items,
        ),
        _ => false,
    }
}

/// Whether two tray item sequences have the same shape.
pub fn tray_items_shape_eq(a: &Vec<TrayMenuItem>, b: &Vec<TrayMenuItem>) -> (r: bool)
    ensures
        r == tray_shape_eq_items(a.deep_view(), b.deep_view()),
    decreases a@,
{
    if a.len() != b.len() {
        return false;
    }
    let mut i: usize = 0;
    while i < a.len()
        invariant
            a.len() == b.len(),
            i <= a.len(),
            forall|j: int|
                0 <= j < i ==> tray_shape_eq_item(#[trigger] a.deep_view()[j], b.deep_view()[j]),
        decreases a.len() - i,
    {
        if !tray_item_shape_eq(&a[i], &b[i]) {
            proof {
                assert(a.deep_view()[i as int] == a@[i as int].deep_view());
                assert(b.deep_view()[i as int] == b@[i as int].deep_view());
            }
            return false;
        }
        i += 1;
    }
    true
}

// Used by the bar-level predicate but stated here once: a top menu role
// comparison is a plain option equality.

/// Whether two optional top-menu roles are the same.
pub fn top_role_eq(a: &Option<TopMenuRole>, b: &Option<TopMenuRole>) -> (r: bool)
    ensures
        r == (*a == *b),
{
    match (a, b) {
        (None, None) => true,
        (Some(x), Some(y)) => *x == *y,
        _ => false,
    }
}

} // verus!
