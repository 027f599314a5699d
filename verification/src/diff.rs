use vstd::prelude::*;
use crate::errors::MacMenuError;
use crate::idmap::{command_id_to_tag, spec_command_tag};
use crate::menu::{ItemV, MenuItem};
use crate::menubar::{MenuBarModel, TopMenuRole, TopMenuV};
use crate::errors::MacTrayError;
use crate::macos::spec_tray_item_key_equivalent;
use crate::macos::tray_item_key_equivalent;
use crate::shape::{
    menu_bar_shape_eq, shape_eq_bar, shape_eq_item, shape_eq_items, tray_items_shape_eq,
    tray_shape_eq_item, tray_shape_eq_items,
};
use crate::shortcut::Shortcut;
use crate::tray::{TrayItemV, TrayMenuItem, TrayMenuModel};

verus! {

broadcast use crate::menu::lemma_item_view_submenu, crate::tray::lemma_tray_item_view_submenu;

// The diff engine walks an old and a new menu tree of equal shape in
// lock-step and emits one mutation per field that actually changed, so a
// live native menu can be brought up to date without a rebuild and without
// touching fields whose values are already right.

/// One mutation of the live native menu. The path names an item by its
/// index at each level, starting at the items of one top menu; for bar
/// diffs the first path entry is the top-menu index.
#[derive(Debug, PartialEq)]
pub enum PatchOp {
    /// Set an item's title.
    SetLabel { path: Vec<usize>, label: String },
    /// Enable or disable a command item.
    SetEnabled { path: Vec<usize>, enabled: bool },
    /// Set a command item's check state.
    SetChecked { path: Vec<usize>, checked: bool },
    /// Re-tag a command item with a new native identifier.
    SetTag { path: Vec<usize>, tag: i64 },
    /// Set the title of a top-level menu. When `process_name` holds, the
    /// native layer shows the process name instead of the label.
    SetTopTitle { index: usize, process_name: bool, label: String },
}

/// The mathematical value of one mutation.
#[verifier::ext_equal]
pub enum PatchOpV {
    SetLabel { path: Seq<usize>, label: Seq<char> },
    SetEnabled { path: Seq<usize>, enabled: bool },
    SetChecked { path: Seq<usize>, checked: bool },
    SetTag { path: Seq<usize>, tag: i64 },
    SetTopTitle { index: usize, process_name: bool, label: Seq<char> },
}

impl View for PatchOp {
    type V = PatchOpV;

    open spec fn view(&self) -> PatchOpV {
        match *self {
            PatchOp::SetLabel { ref path, ref label } => PatchOpV::SetLabel {
                path: path@,
                label: label@,
            },
            PatchOp::SetEnabled { ref path, enabled } => PatchOpV::SetEnabled {
                path: path@,
                enabled,
            },
            PatchOp::SetChecked { ref path, checked } => PatchOpV::SetChecked {
                path: path@,
                checked,
            },
            PatchOp::SetTag { ref path, tag } => PatchOpV::SetTag { path: path@, tag },
            PatchOp::SetTopTitle { index, process_name, ref label } => PatchOpV::SetTopTitle {
                index,
                process_name,
                label: label@,
            },
        }
    }
}

impl DeepView for PatchOp {
    type V = PatchOpV;

    open spec fn deep_view(&self) -> PatchOpV {
        self.view()
    }
}

/// The mutations that bring one command item up to date: one per changed
/// field, in the fixed order label, enabled, checked, tag. `None` when the
/// new command id does not fit the native tag range.
pub open spec fn spec_diff_command(path: Seq<usize>, o: ItemV, n: ItemV) -> Option<Seq<PatchOpV>> {
    let ops0: Seq<PatchOpV> = if o->Command_label != n->Command_label {
        seq![PatchOpV::SetLabel { path, label: n->Command_label }]
    } else {
        Seq::empty()
    };
    let ops1: Seq<PatchOpV> = if o->Command_enabled != n->Command_enabled {
        ops0.push(PatchOpV::SetEnabled { path, enabled: n->Command_enabled })
    } else {
        ops0
    };
    let ops2: Seq<PatchOpV> = if o->Command_checked != n->Command_checked {
        ops1.push(PatchOpV::SetChecked { path, checked: n->Command_checked })
    } else {
        ops1
    };
    if o->Command_id != n->Command_id {
        match spec_command_tag(n->Command_id) {
            Option::None => Option::None,
            Option::Some(t) => Some(ops2.push(PatchOpV::SetTag { path, tag: t })),
        }
    } else {
        Some(ops2)
    }
}

/// The mutations that bring one item (and everything under it) up to date.
pub open spec fn spec_diff_item(path: Seq<usize>, o: ItemV, n: ItemV) -> Option<Seq<PatchOpV>>
    decreases o, 0int,
{
    match (o, n) {
        (ItemV::Separator, ItemV::Separator) => Some(Seq::empty()),
        (ItemV::Command { .. }, ItemV::Command { .. }) => spec_diff_command(path, o, n),
        (ItemV::Submenu { label: ol, items: oi }, ItemV::Submenu { label: nl, items: ni }) => {
            let head: Seq<PatchOpV> = if ol != nl {
                seq![PatchOpV::SetLabel { path, label: nl }]
            } else {
                Seq::empty()
            };
            match spec_diff_items_from(path, oi, ni, 0) {
                Option::None => Option::None,
                Option::Some(ops) => Some(head + ops),
            }
        },
        _ => Option::None,
    }
}

/// The mutations for the items from position `k` on, walked pairwise.
pub open spec fn spec_diff_items_from(
    path: Seq<usize>,
    o: Seq<ItemV>,
    n: Seq<ItemV>,
    k: int,
) -> Option<Seq<PatchOpV>>
    decreases o, o.len() - k + 1,
{
    if k < 0 || k >= o.len() || k >= n.len() {
        Some(Seq::empty())
    } else {
        match spec_diff_item(path.push(k as usize), o[k], n[k]) {
            Option::None => Option::None,
            Option::Some(ops) => match spec_diff_items_from(path, o, n, k + 1) {
                Option::None => Option::None,
                Option::Some(rest) => Some(ops + rest),
            },
        }
    }
}

/// The title mutation of one top menu: set when the menu carries the App
/// role (the native title is the process name and is refreshed) or when the
/// label changed; the process name is shown for App-role and empty labels.
pub open spec fn spec_top_title_ops(i: usize, o: TopMenuV, n: TopMenuV) -> Seq<PatchOpV> {
    if n.role == Some(TopMenuRole::App) || o.label != n.label {
        seq![
            PatchOpV::SetTopTitle {
                index: i,
                process_name: n.role == Some(TopMenuRole::App) || n.label.len() == 0,
                label: n.label,
            },
        ]
    } else {
        Seq::empty()
    }
}

/// The mutations for the top menus from position `k` on.
pub open spec fn spec_diff_bar_from(o: Seq<TopMenuV>, n: Seq<TopMenuV>, k: int) -> Option<
    Seq<PatchOpV>,
>
    decreases o.len() - k + 1,
{
    if k < 0 || k >= o.len() || k >= n.len() {
        Some(Seq::empty())
    } else {
        let title_ops = spec_top_title_ops(k as usize, o[k], n[k]);
        match spec_diff_items_from(seq![k as usize], o[k].items, n[k].items, 0) {
            Option::None => Option::None,
            Option::Some(ops) => match spec_diff_bar_from(o, n, k + 1) {
                Option::None => Option::None,
                Option::Some(rest) => Some(title_ops + ops + rest),
            },
        }
    }
}

/// The mutations that bring a whole installed menu bar up to date.
pub open spec fn spec_diff_bar(o: Seq<TopMenuV>, n: Seq<TopMenuV>) -> Option<Seq<PatchOpV>> {
    spec_diff_bar_from(o, n, 0)
}

/// Whether two strings hold the same characters.
pub(crate) fn str_eq(a: &String, b: &String) -> (r: bool)
    ensures
        r == (a@ == b@),
{
    String::eq(a, b)
}

/// The mutations for one pair of command items.
fn diff_command(
    path: &Vec<usize>,
    o: &crate::menu::CommandItem,
    n: &crate::menu::CommandItem,
) -> (r: Result<Vec<PatchOp>, MacMenuError>)
    ensures
        match r {
            Ok(ops) => spec_diff_command(path@, o.deep_view(), n.deep_view()) == Some(
                ops.deep_view(),
            ),
            Err(e) => spec_diff_command(path@, o.deep_view(), n.deep_view()) is None && e
                == MacMenuError::BadCommandId,
        },
{
    let mut ops: Vec<PatchOp> = Vec::new();
    let ghost ov = o.deep_view();
    let ghost nv = n.deep_view();
    if !str_eq(&o.label, &n.label) {
        ops.push(PatchOp::SetLabel { path: path.clone(), label: n.label.clone() });
    }
    let ghost ops0 = ops.deep_view();
    if o.enabled != n.enabled {
        ops.push(PatchOp::SetEnabled { path: path.clone(), enabled: n.enabled });
    }
    let ghost ops1 = ops.deep_view();
    if o.checked != n.checked {
        ops.push(PatchOp::SetChecked { path: path.clone(), checked: n.checked });
    }
    let ghost ops2 = ops.deep_view();
    if o.id != n.id {
        match command_id_to_tag(&n.id) {
            Ok(tag) => {
                ops.push(PatchOp::SetTag { path: path.clone(), tag });
            },
            Err(e) => {
                return Err(e);
            },
        }
    }
    proof {
        assert(ops.deep_view() =~= spec_diff_command(path@, ov, nv)->0);
    }
    Ok(ops)
}

/// The mutations for one pair of items of equal shape.
fn diff_item(path: &Vec<usize>, o: &MenuItem, n: &MenuItem) -> (r: Result<
    Vec<PatchOp>,
    MacMenuError,
>)
    requires
        shape_eq_item(o.deep_view(), n.deep_view()),
    ensures
        match r {
            Ok(ops) => spec_diff_item(path@, o.deep_view(), n.deep_view()) == Some(ops.deep_view()),
            Err(e) => spec_diff_item(path@, o.deep_view(), n.deep_view()) is None && e
                == MacMenuError::BadCommandId,
        },
    decreases *o,
{
    match (o, n) {
        (MenuItem::Separator, MenuItem::Separator) => {
            let ops: Vec<PatchOp> = Vec::new();
            proof {
                assert(ops.deep_view() =~= Seq::<PatchOpV>::empty());
            }
            Ok(ops)
        },
        (MenuItem::Command(oc), MenuItem::Command(nc)) => diff_command(path, oc, nc),
        (MenuItem::Submenu(os), MenuItem::Submenu(ns)) => {
            let mut ops: Vec<PatchOp> = Vec::new();
            if !str_eq(&os.label, &ns.label) {
                ops.push(PatchOp::SetLabel { path: path.clone(), label: ns.label.clone() });
            }
            let ghost head = ops.deep_view();
            proof {
                let ov = o.deep_view();
                let nv = n.deep_view();
                if os.label@ != ns.label@ {
                    assert(head =~= seq![
                        PatchOpV::SetLabel { path: path@, label: ns.label@ },
                    ]);
                } else {
                    assert(head =~= Seq::<PatchOpV>::empty());
                }
            }
            match diff_items_from(path, &os.items, &ns.items) {
                Ok(mut rest) => {
                    let ghost restv = rest.deep_view();
                    ops.append(&mut rest);
                    proof {
                        assert(ops.deep_view() =~= head + restv);
                    }
                    Ok(ops)
                },
                Err(e) => Err(e),
            }
        },
        _ => {
            proof {
                assert(false);
            }
            Err(MacMenuError::Unsupported)
        },
    }
}

/// The mutations for a pair of item lists of equal shape.
fn diff_items_from(path: &Vec<usize>, o: &Vec<MenuItem>, n: &Vec<MenuItem>) -> (r: Result<
    Vec<PatchOp>,
    MacMenuError,
>)
    requires
        shape_eq_items(o.deep_view(), n.deep_view()),
    ensures
        match r {
            Ok(ops) => spec_diff_items_from(path@, o.deep_view(), n.deep_view(), 0) == Some(
                ops.deep_view(),
            ),
            Err(e) => spec_diff_items_from(path@, o.deep_view(), n.deep_view(), 0) is None && e
                == MacMenuError::BadCommandId,
        },
    decreases o@,
{
    let ghost ov = o.deep_view();
    let ghost nv = n.deep_view();
    let mut ops: Vec<PatchOp> = Vec::new();
    let mut i: usize = 0;
    proof {
        assert(ops.deep_view() =~= Seq::<PatchOpV>::empty());
    }
    while i < o.len()
        invariant
            shape_eq_items(o.deep_view(), n.deep_view()),
            o.deep_view() == ov,
            n.deep_view() == nv,
            i <= o.len(),
            o.len() == o.deep_view().len(),
            n.len() == n.deep_view().len(),
            // what was emitted so far completes to the whole diff
            forall|full: Seq<PatchOpV>|
                (#[trigger] spec_diff_items_from(path@, ov, nv, i as int)) == Some(full)
                    ==> spec_diff_items_from(path@, ov, nv, 0) == Some(ops.deep_view() + full),
            spec_diff_items_from(path@, ov, nv, i as int) is None ==> spec_diff_items_from(
                path@,
                ov,
                nv,
                0,
            ) is None,
        decreases o.len() - i,
    {
        let mut sub_path = path.clone();
        sub_path.push(i);
        proof {
            assert(sub_path@ =~= path@.push(i));
            assert(shape_eq_item(ov[i as int], nv[i as int]));
            assert(o.deep_view()[i as int] == o@[i as int].deep_view());
            assert(n.deep_view()[i as int] == n@[i as int].deep_view());
        }
        match diff_item(&sub_path, &o[i], &n[i]) {
            Ok(mut item_ops) => {
                let ghost iv = item_ops.deep_view();
                let ghost before = ops.deep_view();
                ops.append(&mut item_ops);
                proof {
                    assert(ops.deep_view() =~= before + iv);
                    assert forall|full: Seq<PatchOpV>|
                        (#[trigger] spec_diff_items_from(path@, ov, nv, i + 1)) == Some(full)
                            implies spec_diff_items_from(path@, ov, nv, 0) == Some(
                        (before + iv) + full,
                    ) by {
                        assert(spec_diff_items_from(path@, ov, nv, i as int) == Some(iv + full));
                        assert(before + (iv + full) =~= (before + iv) + full);
                    }
                    if spec_diff_items_from(path@, ov, nv, i + 1) is None {
                        assert(spec_diff_items_from(path@, ov, nv, i as int) is None);
                    }
                }
            },
            Err(e) => {
                proof {
                    assert(spec_diff_items_from(path@, ov, nv, i as int) is None);
                }
                return Err(e);
            },
        }
        i += 1;
    }
    proof {
        assert(spec_diff_items_from(path@, ov, nv, i as int) == Some(Seq::<PatchOpV>::empty()));
        assert(ops.deep_view() + Seq::<PatchOpV>::empty() =~= ops.deep_view());
    }
    Ok(ops)
}

/// Diff a whole installed menu bar against a new one. `Ok(None)` reports
/// that the bars differ in shape, so only a full rebuild can apply; `Err`
/// reports a changed command id that no native tag can hold; `Ok(Some(ops))`
/// is the exact list of field mutations, one per changed field.
pub fn diff_menu_bars(old: &MenuBarModel, new: &MenuBarModel) -> (r: Result<
    Option<Vec<PatchOp>>,
    MacMenuError,
>)
    ensures
        match r {
            Ok(opt) => match opt {
                Some(ops) => shape_eq_bar(old@, new@) && spec_diff_bar(old@, new@) == Some(
                    ops.deep_view(),
                ),
                None => !shape_eq_bar(old@, new@),
            },
            Err(e) => shape_eq_bar(old@, new@) && spec_diff_bar(old@, new@) is None && e
                == MacMenuError::BadCommandId,
        },
{
    if !menu_bar_shape_eq(old, new) {
        return Ok(None);
    }
    let ghost ov = old@;
    let ghost nv = new@;
    let mut ops: Vec<PatchOp> = Vec::new();
    let mut i: usize = 0;
    proof {
        assert(ops.deep_view() =~= Seq::<PatchOpV>::empty());
    }
    while i < old.menus.len()
        invariant
            shape_eq_bar(old@, new@),
            old@ == ov,
            new@ == nv,
            i <= old.menus.len(),
            old.menus.len() == ov.len(),
            new.menus.len() == nv.len(),
            forall|full: Seq<PatchOpV>|
                (#[trigger] spec_diff_bar_from(ov, nv, i as int)) == Some(full)
                    ==> spec_diff_bar(ov, nv) == Some(ops.deep_view() + full),
            spec_diff_bar_from(ov, nv, i as int) is None ==> spec_diff_bar(ov, nv) is None,
        decreases old.menus.len() - i,
    {
        let om = &old.menus[i];
        let nm = &new.menus[i];
        proof {
            assert(ov[i as int] == old.menus@[i as int].deep_view());
            assert(nv[i as int] == new.menus@[i as int].deep_view());
            assert(ov[i as int].role == nv[i as int].role && shape_eq_items(
                ov[i as int].items,
                nv[i as int].items,
            ));
        }
        let ghost before = ops.deep_view();
        let is_app = match nm.role {
            Some(TopMenuRole::App) => true,
            _ => false,
        };
        if is_app || !str_eq(&om.label, &nm.label) {
            ops.push(
                PatchOp::SetTopTitle {
                    index: i,
                    process_name: is_app || nm.label.as_str().is_empty(),
                    label: nm.label.clone(),
                },
            );
        }
        let ghost with_title = ops.deep_view();
        proof {
            assert(with_title =~= before + spec_top_title_ops(
                i,
                ov[i as int],
                nv[i as int],
            ));
        }
        let mut bar_path: Vec<usize> = Vec::new();
        bar_path.push(i);
        proof {
            assert(bar_path@ =~= seq![i]);
        }
        match diff_items_from(&bar_path, &om.items, &nm.items) {
            Ok(mut menu_ops) => {
                let ghost mv = menu_ops.deep_view();
                ops.append(&mut menu_ops);
                proof {
                    assert(ops.deep_view() =~= (before + spec_top_title_ops(
                        i,
                        ov[i as int],
                        nv[i as int],
                    )) + mv);
                    assert forall|full: Seq<PatchOpV>|
                        (#[trigger] spec_diff_bar_from(ov, nv, i + 1)) == Some(full)
                            implies spec_diff_bar(ov, nv) == Some(ops.deep_view() + full) by {
                        let t = spec_top_title_ops(i, ov[i as int], nv[i as int]);
                        assert(spec_diff_bar_from(ov, nv, i as int) == Some((t + mv) + full));
                        assert(before + ((t + mv) + full) =~= ((before + t) + mv) + full);
                    }
                    if spec_diff_bar_from(ov, nv, i + 1) is None {
                        assert(spec_diff_bar_from(ov, nv, i as int) is None);
                    }
                }
            },
            Err(e) => {
                proof {
                    assert(spec_diff_bar_from(ov, nv, i as int) is None);
                }
                return Err(e);
            },
        }
        i += 1;
    }
    proof {
        assert(spec_diff_bar_from(ov, nv, i as int) == Some(Seq::<PatchOpV>::empty()));
        assert(ops.deep_view() + Seq::<PatchOpV>::empty() =~= ops.deep_view());
    }
    Ok(Some(ops))
}


// The tray diff mirrors the menu diff; a tray command additionally carries
// a key equivalent, recomputed and reassigned only when the explicit
// shortcut changed (the shape check already requires equal roles).

/// One mutation of the live native tray menu.
#[derive(Debug, PartialEq)]
pub enum TrayPatchOp {
    /// Set an item's title.
    SetLabel { path: Vec<usize>, label: String },
    /// Enable or disable a command item.
    SetEnabled { path: Vec<usize>, enabled: bool },
    /// Set a command item's check state.
    SetChecked { path: Vec<usize>, checked: bool },
    /// Re-tag a command item with a new native identifier.
    SetTag { path: Vec<usize>, tag: i64 },
    /// Set a command item's key equivalent and modifier mask; `None` clears
    /// them.
    SetKeyEquivalent { path: Vec<usize>, key: Option<(u32, u64)> },
}

/// The mathematical value of one tray mutation.
#[verifier::ext_equal]
pub enum TrayPatchOpV {
    SetLabel { path: Seq<usize>, label: Seq<char> },
    SetEnabled { path: Seq<usize>, enabled: bool },
    SetChecked { path: Seq<usize>, checked: bool },
    SetTag { path: Seq<usize>, tag: i64 },
    SetKeyEquivalent { path: Seq<usize>, key: Option<(u32, u64)> },
}

impl View for TrayPatchOp {
    type V = TrayPatchOpV;

    open spec fn view(&self) -> TrayPatchOpV {
        match *self {
            TrayPatchOp::SetLabel { ref path, ref label } => TrayPatchOpV::SetLabel {
                path: path@,
                label: label@,
            },
            TrayPatchOp::SetEnabled { ref path, enabled } => TrayPatchOpV::SetEnabled {
                path: path@,
                enabled,
            },
            TrayPatchOp::SetChecked { ref path, checked } => TrayPatchOpV::SetChecked {
                path: path@,
                checked,
            },
            TrayPatchOp::SetTag { ref path, tag } => TrayPatchOpV::SetTag { path: path@, tag },
            TrayPatchOp::SetKeyEquivalent { ref path, key } => TrayPatchOpV::SetKeyEquivalent {
                path: path@,
                key,
            },
        }
    }
}

impl DeepView for TrayPatchOp {
    type V = TrayPatchOpV;

    open spec fn deep_view(&self) -> TrayPatchOpV {
        self.view()
    }
}

/// The mutations that bring one tray command item up to date: the key
/// equivalent when the explicit shortcut changed, then one mutation per
/// changed display field, then the tag. `None` when the new command id
/// does not fit the native tag range.
pub open spec fn spec_tray_diff_command(path: Seq<usize>, o: TrayItemV, n: TrayItemV) -> Option<
    Seq<TrayPatchOpV>,
> {
    let ops0: Seq<TrayPatchOpV> = if o->Command_shortcut != n->Command_shortcut {
        seq![
            TrayPatchOpV::SetKeyEquivalent {
                path,
                key: spec_tray_item_key_equivalent(n->Command_shortcut, n->Command_role),
            },
        ]
    } else {
        Seq::empty()
    };
    let ops1: Seq<TrayPatchOpV> = if o->Command_label != n->Command_label {
        ops0.push(TrayPatchOpV::SetLabel { path, label: n->Command_label })
    } else {
        ops0
    };
    let ops2: Seq<TrayPatchOpV> = if o->Command_enabled != n->Command_enabled {
        ops1.push(TrayPatchOpV::SetEnabled { path, enabled: n->Command_enabled })
    } else {
        ops1
    };
    let ops3: Seq<TrayPatchOpV> = if o->Command_checked != n->Command_checked {
        ops2.push(TrayPatchOpV::SetChecked { path, checked: n->Command_checked })
    } else {
        ops2
    };
    if o->Command_id != n->Command_id {
        match spec_command_tag(n->Command_id) {
            Option::None => Option::None,
            Option::Some(t) => Some(ops3.push(TrayPatchOpV::SetTag { path, tag: t })),
        }
    } else {
        Some(ops3)
    }
}

/// The mutations that bring one tray item (and everything under it) up to
/// date.
pub open spec fn spec_tray_diff_item(path: Seq<usize>, o: TrayItemV, n: TrayItemV) -> Option<
    Seq<TrayPatchOpV>,
>
    decreases o, 0int,
{
    match (o, n) {
        (TrayItemV::Separator, TrayItemV::Separator) => Some(Seq::empty()),
        (TrayItemV::Command { .. }, TrayItemV::Command { .. }) => spec_tray_diff_command(
            path,
            o,
            n,
        ),
        (
            TrayItemV::Submenu { label: ol, items: oi },
            TrayItemV::Submenu { label: nl, items: ni },
        ) => {
            let head: Seq<TrayPatchOpV> = if ol != nl {
                seq![TrayPatchOpV::SetLabel { path, label: nl }]
            } else {
                Seq::empty()
            };
            match spec_tray_diff_items_from(path, oi, ni, 0) {
                Option::None => Option::None,
                Option::Some(ops) => Some(head + ops),
            }
        },
        _ => Option::None,
    }
}

/// The mutations for the tray items from position `k` on, walked pairwise.
pub open spec fn spec_tray_diff_items_from(
    path: Seq<usize>,
    o: Seq<TrayItemV>,
    n: Seq<TrayItemV>,
    k: int,
) -> Option<Seq<TrayPatchOpV>>
    decreases o, o.len() - k + 1,
{
    if k < 0 || k >= o.len() || k >= n.len() {
        Some(Seq::empty())
    } else {
        match spec_tray_diff_item(path.push(k as usize), o[k], n[k]) {
            Option::None => Option::None,
            Option::Some(ops) => match spec_tray_diff_items_from(path, o, n, k + 1) {
                Option::None => Option::None,
                Option::Some(rest) => Some(ops + rest),
            },
        }
    }
}

/// The mutations that bring a whole tray menu up to date.
pub open spec fn spec_tray_diff(o: Seq<TrayItemV>, n: Seq<TrayItemV>) -> Option<
    Seq<TrayPatchOpV>,
> {
    spec_tray_diff_items_from(Seq::empty(), o, n, 0)
}

/// Whether two optional shortcuts are the same.
fn shortcut_opt_eq(a: &Option<Shortcut>, b: &Option<Shortcut>) -> (r: bool)
    ensures
        r == (*a == *b),
{
    match (a, b) {
        (None, None) => true,
        (Some(x), Some(y)) => *x == *y,
        _ => false,
    }
}

/// The mutations for one pair of tray command items.
fn tray_diff_command(
    path: &Vec<usize>,
    o: &crate::tray::TrayCommandItem,
    n: &crate::tray::TrayCommandItem,
) -> (r: Result<Vec<TrayPatchOp>, MacTrayError>)
    ensures
        match r {
            Ok(ops) => spec_tray_diff_command(path@, o.deep_view(), n.deep_view()) == Some(
                ops.deep_view(),
            ),
            Err(e) => spec_tray_diff_command(path@, o.deep_view(), n.deep_view()) is None && e
                == MacTrayError::BadCommandId,
        },
{
    let mut ops: Vec<TrayPatchOp> = Vec::new();
    let ghost ov = o.deep_view();
    let ghost nv = n.deep_view();
    if !shortcut_opt_eq(&o.shortcut, &n.shortcut) {
        let key = tray_item_key_equivalent(&n.shortcut, &n.role);
        ops.push(TrayPatchOp::SetKeyEquivalent { path: path.clone(), key });
    }
    if !str_eq(&o.label, &n.label) {
        ops.push(TrayPatchOp::SetLabel { path: path.clone(), label: n.label.clone() });
    }
    if o.enabled != n.enabled {
        ops.push(TrayPatchOp::SetEnabled { path: path.clone(), enabled: n.enabled });
    }
    if o.checked != n.checked {
        ops.push(TrayPatchOp::SetChecked { path: path.clone(), checked: n.checked });
    }
    if o.id != n.id {
        match command_id_to_tag(&n.id) {
            Ok(tag) => {
                ops.push(TrayPatchOp::SetTag { path: path.clone(), tag });
            },
            Err(_) => {
                return Err(MacTrayError::BadCommandId);
            },
        }
    }
    proof {
        assert(ops.deep_view() =~= spec_tray_diff_command(path@, ov, nv)->0);
    }
    Ok(ops)
}

/// The mutations for one pair of tray items of equal shape.
fn tray_diff_item(path: &Vec<usize>, o: &TrayMenuItem, n: &TrayMenuItem) -> (r: Result<
    Vec<TrayPatchOp>,
    MacTrayError,
>)
    requires
        tray_shape_eq_item(o.deep_view(), n.deep_view()),
    ensures
        match r {
            Ok(ops) => spec_tray_diff_item(path@, o.deep_view(), n.deep_view()) == Some(
                ops.deep_view(),
            ),
            Err(e) => spec_tray_diff_item(path@, o.deep_view(), n.deep_view()) is None && e
                == MacTrayError::BadCommandId,
        },
    decreases *o,
{
    match (o, n) {
        (TrayMenuItem::Separator, TrayMenuItem::Separator) => {
            let ops: Vec<TrayPatchOp> = Vec::new();
            proof {
                assert(ops.deep_view() =~= Seq::<TrayPatchOpV>::empty());
            }
            Ok(ops)
        },
        (TrayMenuItem::Command(oc), TrayMenuItem::Command(nc)) => tray_diff_command(path, oc, nc),
        (TrayMenuItem::Submenu(os), TrayMenuItem::Submenu(ns)) => {
            let mut ops: Vec<TrayPatchOp> = Vec::new();
            if !str_eq(&os.label, &ns.label) {
                ops.push(TrayPatchOp::SetLabel { path: path.clone(), label: ns.label.clone() });
            }
            let ghost head = ops.deep_view();
            proof {
                if os.label@ != ns.label@ {
                    assert(head =~= seq![
                        TrayPatchOpV::SetLabel { path: path@, label: ns.label@ },
                    ]);
                } else {
                    assert(head =~= Seq::<TrayPatchOpV>::empty());
                }
            }
            match tray_diff_items_from(path, &os.items, &ns.items) {
                Ok(mut rest) => {
                    let ghost restv = rest.deep_view();
                    ops.append(&mut rest);
                    proof {
                        assert(ops.deep_view() =~= head + restv);
                    }
                    Ok(ops)
                },
                Err(e) => Err(e),
            }
        },
        _ => {
            proof {
                assert(false);
            }
            Err(MacTrayError::Unsupported)
        },
    }
}

/// The mutations for a pair of tray item lists of equal shape.
fn tray_diff_items_from(path: &Vec<usize>, o: &Vec<TrayMenuItem>, n: &Vec<TrayMenuItem>) -> (r:
    Result<Vec<TrayPatchOp>, MacTrayError>)
    requires
        tray_shape_eq_items(o.deep_view(), n.deep_view()),
    ensures
        match r {
            Ok(ops) => spec_tray_diff_items_from(path@, o.deep_view(), n.deep_view(), 0) == Some(
                ops.deep_view(),
            ),
            Err(e) => spec_tray_diff_items_from(path@, o.deep_view(), n.deep_view(), 0) is None
                && e == MacTrayError::BadCommandId,
        },
    decreases o@,
{
    let ghost ov = o.deep_view();
    let ghost nv = n.deep_view();
    let mut ops: Vec<TrayPatchOp> = Vec::new();
    let mut i: usize = 0;
    proof {
        assert(ops.deep_view() =~= Seq::<TrayPatchOpV>::empty());
    }
    while i < o.len()
        invariant
            tray_shape_eq_items(o.deep_view(), n.deep_view()),
            o.deep_view() == ov,
            n.deep_view() == nv,
            i <= o.len(),
            o.len() == o.deep_view().len(),
            n.len() == n.deep_view().len(),
            forall|full: Seq<TrayPatchOpV>|
                (#[trigger] spec_tray_diff_items_from(path@, ov, nv, i as int)) == Some(full)
                    ==> spec_tray_diff_items_from(path@, ov, nv, 0) == Some(ops.deep_view() + full),
            spec_tray_diff_items_from(path@, ov, nv, i as int) is None
                ==> spec_tray_diff_items_from(path@, ov, nv, 0) is None,
        decreases o.len() - i,
    {
        let mut sub_path = path.clone();
        sub_path.push(i);
        proof {
            assert(sub_path@ =~= path@.push(i));
            assert(tray_shape_eq_item(ov[i as int], nv[i as int]));
            assert(o.deep_view()[i as int] == o@[i as int].deep_view());
            assert(n.deep_view()[i as int] == n@[i as int].deep_view());
        }
        match tray_diff_item(&sub_path, &o[i], &n[i]) {
            Ok(mut item_ops) => {
                let ghost iv = item_ops.deep_view();
                let ghost before = ops.deep_view();
                ops.append(&mut item_ops);
                proof {
                    assert(ops.deep_view() =~= before + iv);
                    assert forall|full: Seq<TrayPatchOpV>|
                        (#[trigger] spec_tray_diff_items_from(path@, ov, nv, i + 1)) == Some(full)
                            implies spec_tray_diff_items_from(path@, ov, nv, 0) == Some(
                        (before + iv) + full,
                    ) by {
                        assert(spec_tray_diff_items_from(path@, ov, nv, i as int) == Some(
                            iv + full,
                        ));
                        assert(before + (iv + full) =~= (before + iv) + full);
                    }
                    if spec_tray_diff_items_from(path@, ov, nv, i + 1) is None {
                        assert(spec_tray_diff_items_from(path@, ov, nv, i as int) is None);
                    }
                }
            },
            Err(e) => {
                proof {
                    assert(spec_tray_diff_items_from(path@, ov, nv, i as int) is None);
                }
                return Err(e);
            },
        }
        i += 1;
    }
    proof {
        assert(spec_tray_diff_items_from(path@, ov, nv, i as int) == Some(
            Seq::<TrayPatchOpV>::empty(),
        ));
        assert(ops.deep_view() + Seq::<TrayPatchOpV>::empty() =~= ops.deep_view());
    }
    Ok(ops)
}

/// Diff an installed tray menu against a new one. `Ok(None)` reports a
/// shape mismatch, so only a full rebuild can apply; `Err` reports a
/// changed command id that no native tag can hold; `Ok(Some(ops))` is the
/// exact list of field mutations.
pub fn diff_tray_menus(old: &TrayMenuModel, new: &TrayMenuModel) -> (r: Result<
    Option<Vec<TrayPatchOp>>,
    MacTrayError,
>)
    ensures
        match r {
            Ok(opt) => match opt {
                Some(ops) => tray_shape_eq_items(old@, new@) && spec_tray_diff(old@, new@) == Some(
                    ops.deep_view(),
                ),
                None => !tray_shape_eq_items(old@, new@),
            },
            Err(e) => tray_shape_eq_items(old@, new@) && spec_tray_diff(old@, new@) is None && e
                == MacTrayError::BadCommandId,
        },
{
    if !tray_items_shape_eq(&old.items, &new.items) {
        return Ok(None);
    }
    let root: Vec<usize> = Vec::new();
    proof {
        assert(root@ =~= Seq::<usize>::empty());
    }
    match tray_diff_items_from(&root, &old.items, &new.items) {
        Ok(ops) => Ok(Some(ops)),
        Err(e) => Err(e),
    }
}

} // verus!
