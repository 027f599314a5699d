use vstd::prelude::*;
use crate::diff::{
    diff_menu_bars, diff_tray_menus, spec_diff_bar, spec_tray_diff, PatchOp, TrayPatchOp,
};
use crate::errors::{MacMenuError, MacTrayError};
use crate::idmap::spec_command_tag;
use crate::menu::{ItemV, MenuItem};
use crate::menubar::{MenuBarModel, TopMenuV};
use crate::normalize::{has_app_menu, normalize_menu_bar, spec_has_app_menu, spec_normalize_bar};
use crate::shape::{shape_eq_bar, tray_shape_eq_items};
use crate::tray::{TrayItemV, TrayMenuItem, TrayMenuModel};

verus! {

broadcast use crate::menu::lemma_item_view_submenu, crate::tray::lemma_tray_item_view_submenu;

// The reconciliation protocol: every install call normalizes the desired
// menu bar, compares it with the previously installed baseline, and asks
// the native layer either for a minimal in-place patch or for a full
// rebuild. The baseline always ends up at the model the native layer is
// told to show.

/// Whether every command id in a menu tree fits the native tag range, so a
/// full build cannot fail on an identifier.
pub open spec fn item_tags_ok(x: ItemV) -> bool
    decreases x,
{
    match x {
        ItemV::Command { id, .. } => spec_command_tag(id) is Some,
        ItemV::Submenu { items, .. } => forall|i: int|
            0 <= i < items.len() ==> item_tags_ok(#[trigger] items[i]),
        ItemV::Separator => true,
    }
}

/// Whether every command id of an item list fits the native tag range.
pub open spec fn items_tags_ok(s: Seq<ItemV>) -> bool {
    forall|i: int| 0 <= i < s.len() ==> item_tags_ok(#[trigger] s[i])
}

/// Whether every command id of a menu bar fits the native tag range.
pub open spec fn bar_tags_ok(s: Seq<TopMenuV>) -> bool {
    forall|i: int| 0 <= i < s.len() ==> items_tags_ok((#[trigger] s[i]).items)
}

/// Whether every command id in one item fits the native tag range.
fn check_item_tags(x: &MenuItem) -> (r: bool)
    ensures
        r == item_tags_ok(x.deep_view()),
    decreases *x,
{
    let ghost xv = x.deep_view();
    match x {
        MenuItem::Separator => {
            proof {
                assert(xv == ItemV::Separator);
                assert(item_tags_ok(xv));
            }
            true
        },
        MenuItem::Command(c) => {
            let fits = c.id.as_u64() <= i64::MAX as u64;
            proof {
                assert(xv == crate::menu::command_item_view(*c));
                assert(fits == item_tags_ok(xv));
            }
            fits
        },
        MenuItem::Submenu(s) => {
            let r = check_items_tags(&s.items);
            proof {
                assert(xv == (ItemV::Submenu {
                    label: s.label@,
                    items: s.items.deep_view(),
                }));
                let d = s.items.deep_view();
                if r {
                    assert(items_tags_ok(d));
                    assert forall|i: int| 0 <= i < d.len() implies item_tags_ok(
                        #[trigger] d[i],
                    ) by {}
                    assert(item_tags_ok(xv));
                } else {
                    assert(!items_tags_ok(d));
                    assert(exists|i: int| 0 <= i < d.len() && !item_tags_ok(#[trigger] d[i]));
                    let i = choose|i: int| 0 <= i < d.len() && !item_tags_ok(#[trigger] d[i]);
                    assert(xv->Submenu_items == d);
                    assert(!item_tags_ok(xv));
                }
                assert(r == item_tags_ok(xv));
            }
            r
        },
    }
}

/// Whether every command id in an item list fits the native tag range.
fn check_items_tags(v: &Vec<MenuItem>) -> (r: bool)
    ensures
        r == items_tags_ok(v.deep_view()),
    decreases v@,
{
    let mut i: usize = 0;
    while i < v.len()
        invariant
            i <= v.len(),
            forall|j: int| 0 <= j < i ==> item_tags_ok(#[trigger] v.deep_view()[j]),
        decreases v.len() - i,
    {
        if !check_item_tags(&v[i]) {
            proof {
                assert(v.deep_view()[i as int] == v@[i as int].deep_view());
            }
            return false;
        }
        i += 1;
    }
    true
}

/// Whether every command id in a menu bar fits the native tag range.
fn check_bar_tags(bar: &MenuBarModel) -> (r: bool)
    ensures
        r == bar_tags_ok(bar@),
{
    let mut i: usize = 0;
    while i < bar.menus.len()
        invariant
            i <= bar.menus.len(),
            forall|j: int| 0 <= j < i ==> items_tags_ok((#[trigger] bar@[j]).items),
        decreases bar.menus.len() - i,
    {
        proof {
            assert(bar@[i as int] == bar.menus@[i as int].deep_view());
        }
        if !check_items_tags(&bar.menus[i].items) {
            return false;
        }
        i += 1;
    }
    true
}

/// What the native layer is asked to do after an install call: apply a
/// minimal patch to the live menu bar, or build the carried model from
/// scratch and install it as the new root.
#[derive(Debug, PartialEq)]
pub enum MenuBarUpdate {
    Patch(Vec<PatchOp>),
    Rebuild(MenuBarModel),
}

/// The installed-menu-bar baseline: the normalized model the live native
/// menu bar was last built from or patched to, kept only while that model
/// holds an App-role menu.
pub struct AppMenuState {
    baseline: Option<MenuBarModel>,
}

impl View for AppMenuState {
    type V = Option<Seq<TopMenuV>>;

    closed spec fn view(&self) -> Option<Seq<TopMenuV>> {
        match self.baseline {
            Some(ref b) => Some(b@),
            None => None,
        }
    }
}

impl AppMenuState {
    /// The state before any menu bar was installed.
    pub fn new() -> (r: Self)
        ensures
            r@ is None,
    {
        AppMenuState { baseline: None }
    }

    /// Decide how to bring the live menu bar to `desired`: normalize it,
    /// and when a baseline is installed, the live root is still the one
    /// the baseline describes, and the shapes agree, answer with the
    /// minimal patch; otherwise answer with a full rebuild of the
    /// normalized model. Fails, leaving the baseline untouched, exactly
    /// when a command id that must reach the native layer exceeds the
    /// native tag range.
    pub fn plan_set_menu_bar(&mut self, desired: MenuBarModel, root_is_current: bool) -> (r:
        Result<MenuBarUpdate, MacMenuError>)
        ensures
            match r {
                Ok(MenuBarUpdate::Patch(ops)) => {
                    let norm = spec_normalize_bar(desired@);
                    &&& old(self)@ matches Some(base) && root_is_current && shape_eq_bar(base, norm)
                        && spec_diff_bar(base, norm) == Some(ops.deep_view())
                    &&& final(self)@ == Some(norm)
                },
                Ok(MenuBarUpdate::Rebuild(bar)) => {
                    let norm = spec_normalize_bar(desired@);
                    &&& bar@ == norm
                    &&& bar_tags_ok(norm)
                    &&& !(old(self)@ matches Some(base) && root_is_current && shape_eq_bar(
                        base,
                        norm,
                    ) && spec_diff_bar(base, norm) is Some)
                    &&& final(self)@ == (if spec_has_app_menu(norm) {
                        Some(norm)
                    } else {
                        Option::<Seq<TopMenuV>>::None
                    })
                },
                Err(e) => {
                    let norm = spec_normalize_bar(desired@);
                    &&& e == MacMenuError::BadCommandId
                    &&& *final(self) == *old(self)
                    &&& !(old(self)@ matches Some(base) && root_is_current && shape_eq_bar(
                        base,
                        norm,
                    ) && spec_diff_bar(base, norm) is Some)
                },
            },
    {
        let norm = normalize_menu_bar(desired);
        if root_is_current {
            let can_patch = match &self.baseline {
                Some(base) => {
                    match diff_menu_bars(base, &norm) {
                        Ok(Some(ops)) => Some(ops),
                        _ => None,
                    }
                },
                None => None,
            };
            if let Some(ops) = can_patch {
                self.baseline = Some(norm);
                return Ok(MenuBarUpdate::Patch(ops));
            }
        }
        if !check_bar_tags(&norm) {
            return Err(MacMenuError::BadCommandId);
        }
        if has_app_menu(&norm) {
            self.baseline = Some(norm.clone());
        } else {
            self.baseline = None;
        }
        Ok(MenuBarUpdate::Rebuild(norm))
    }

    /// Forget the baseline: the live native root no longer matches it (for
    /// example, a native rebuild failed after planning).
    pub fn clear_baseline(&mut self)
        ensures
            final(self)@ is None,
    {
        self.baseline = None;
    }
}

/// What the native layer is asked to do to bring a tray menu up to date.
#[derive(Debug, PartialEq)]
pub enum TrayMenuUpdate {
    Patch(Vec<TrayPatchOp>),
    Rebuild,
}

/// Whether every command id in a tray item fits the native tag range.
pub open spec fn tray_item_tags_ok(x: TrayItemV) -> bool
    decreases x,
{
    match x {
        TrayItemV::Command { id, .. } => spec_command_tag(id) is Some,
        TrayItemV::Submenu { items, .. } => forall|i: int|
            0 <= i < items.len() ==> tray_item_tags_ok(#[trigger] items[i]),
        TrayItemV::Separator => true,
    }
}

/// Whether every command id of a tray item list fits the native tag range.
pub open spec fn tray_items_tags_ok(s: Seq<TrayItemV>) -> bool {
    forall|i: int| 0 <= i < s.len() ==> tray_item_tags_ok(#[trigger] s[i])
}

/// Whether every command id in one tray item fits the native tag range.
fn check_tray_item_tags(x: &TrayMenuItem) -> (r: bool)
    ensures
        r == tray_item_tags_ok(x.deep_view()),
    decreases *x,
{
    let ghost xv = x.deep_view();
    match x {
        TrayMenuItem::Separator => {
            proof {
                assert(xv == TrayItemV::Separator);
            }
            true
        },
        TrayMenuItem::Command(c) => {
            let fits = c.id.as_u64() <= i64::MAX as u64;
            proof {
                assert(xv == crate::tray::tray_command_item_view(*c));
                assert(fits == tray_item_tags_ok(xv));
            }
            fits
        },
        TrayMenuItem::Submenu(s) => {
            let r = check_tray_items_tags(&s.items);
            proof {
                assert(xv == (TrayItemV::Submenu {
                    label: s.label@,
                    items: s.items.deep_view(),
                }));
                let d = s.items.deep_view();
                if r {
                    assert(tray_items_tags_ok(d));
                    assert forall|i: int| 0 <= i < d.len() implies tray_item_tags_ok(
                        #[trigger] d[i],
                    ) by {}
                    assert(tray_item_tags_ok(xv));
                } else {
                    assert(!tray_items_tags_ok(d));
                    assert(exists|i: int|
                        0 <= i < d.len() && !tray_item_tags_ok(#[trigger] d[i]));
                    let i = choose|i: int|
                        0 <= i < d.len() && !tray_item_tags_ok(#[trigger] d[i]);
                    assert(xv->Submenu_items == d);
                    assert(!tray_item_tags_ok(xv));
                }
                assert(r == tray_item_tags_ok(xv));
            }
            r
        },
    }
}

/// Whether every command id in a tray item list fits the native tag range.
fn check_tray_items_tags(v: &Vec<TrayMenuItem>) -> (r: bool)
    ensures
        r == tray_items_tags_ok(v.deep_view()),
    decreases v@,
{
    let mut i: usize = 0;
    while i < v.len()
        invariant
            i <= v.len(),
            forall|j: int| 0 <= j < i ==> tray_item_tags_ok(#[trigger] v.deep_view()[j]),
        decreases v.len() - i,
    {
        if !check_tray_item_tags(&v[i]) {
            proof {
                assert(v.deep_view()[i as int] == v@[i as int].deep_view());
            }
            return false;
        }
        i += 1;
    }
    true
}

/// The model the live tray menu was last built from or patched to.
pub struct TrayMenuState {
    model: TrayMenuModel,
}

impl View for TrayMenuState {
    type V = Seq<TrayItemV>;

    closed spec fn view(&self) -> Seq<TrayItemV> {
        self.model@
    }
}

impl TrayMenuState {
    /// The state of a tray just created from `model`.
    pub fn new(model: TrayMenuModel) -> (r: Self)
        ensures
            r@ == model@,
    {
        TrayMenuState { model }
    }

    /// The model the live tray menu shows.
    pub fn model(&self) -> (r: &TrayMenuModel)
        ensures
            r@ == self@,
    {
        &self.model
    }

    /// Decide how to bring the live tray menu to `menu`: when the shapes
    /// agree, answer with the minimal patch; otherwise answer with a full
    /// rebuild of the new model, available from `model` afterwards. Fails,
    /// leaving the recorded model untouched, exactly when a command id
    /// that must reach the native layer exceeds the native tag range.
    pub fn plan_update_menu(&mut self, menu: TrayMenuModel) -> (r: Result<
        TrayMenuUpdate,
        MacTrayError,
    >)
        ensures
            match r {
                Ok(TrayMenuUpdate::Patch(ops)) => {
                    &&& tray_shape_eq_items(old(self)@, menu@)
                    &&& spec_tray_diff(old(self)@, menu@) == Some(ops.deep_view())
                    &&& final(self)@ == menu@
                },
                Ok(TrayMenuUpdate::Rebuild) => {
                    &&& tray_items_tags_ok(menu@)
                    &&& final(self)@ == menu@
                    &&& !(tray_shape_eq_items(old(self)@, menu@) && spec_tray_diff(
                        old(self)@,
                        menu@,
                    ) is Some)
                },
                Err(e) => {
                    &&& e == MacTrayError::BadCommandId
                    &&& *final(self) == *old(self)
                    &&& !tray_items_tags_ok(menu@)
                    &&& !(tray_shape_eq_items(old(self)@, menu@) && spec_tray_diff(
                        old(self)@,
                        menu@,
                    ) is Some)
                },
            },
    {
        match diff_tray_menus(&self.model, &menu) {
            Ok(Some(ops)) => {
                self.model = menu;
                Ok(TrayMenuUpdate::Patch(ops))
            },
            _ => {
                if !check_tray_items_tags(&menu.items) {
                    return Err(MacTrayError::BadCommandId);
                }
                self.model = menu;
                Ok(TrayMenuUpdate::Rebuild)
            },
        }
    }
}

} // verus!
