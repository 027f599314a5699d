use vstd::prelude::*;
use crate::errors::MacMenuError;
use crate::idmap::{command_id_to_tag, spec_command_tag};
use crate::menu::{CommandItem, ItemV, MenuItem, MenuItemRole};
use crate::menubar::{MenuBarModel, TopMenuRole, TopMenuV};
use crate::shortcut::{Key, Shortcut};
use crate::tray::{TrayCommandItem, TrayMenuItemRole};

verus! {

broadcast use crate::menu::lemma_item_view_submenu;

// The computations behind a Cocoa-style menu backend: which standard
// selector a role binds to, which key equivalent a role or shortcut
// renders as, how a command item translates into the native item's fields,
// and how a status-item click is told apart from a context-menu gesture.

/// Modifier masks of the native key-equivalent representation.
pub const MOD_SHIFT: u64 = 0x20000;

pub const MOD_CONTROL: u64 = 0x40000;

pub const MOD_OPTION: u64 = 0x80000;

pub const MOD_COMMAND: u64 = 0x100000;

/// The standard actions a menu item can bind to: the application-dispatch
/// entry point, or one of the platform-standard selectors a role implies.
#[derive(Debug, Clone, Copy, PartialEq, Eq, Structural)]
pub enum NsAction {
    Invoke,
    AboutPanel,
    ShowPreferences,
    Hide,
    HideOthers,
    ShowAll,
    Terminate,
    Miniaturize,
    Zoom,
    ArrangeInFront,
}

/// The selector a menu role binds to; the Services role binds none (its
/// item carries the services submenu instead).
pub open spec fn spec_role_selector(role: MenuItemRole) -> Option<NsAction> {
    match role {
        MenuItemRole::About => Some(NsAction::AboutPanel),
        MenuItemRole::Preferences => Some(NsAction::ShowPreferences),
        MenuItemRole::Services => None,
        MenuItemRole::Hide => Some(NsAction::Hide),
        MenuItemRole::HideOthers => Some(NsAction::HideOthers),
        MenuItemRole::ShowAll => Some(NsAction::ShowAll),
        MenuItemRole::Quit => Some(NsAction::Terminate),
        MenuItemRole::Minimize => Some(NsAction::Miniaturize),
        MenuItemRole::Zoom => Some(NsAction::Zoom),
        MenuItemRole::BringAllToFront => Some(NsAction::ArrangeInFront),
    }
}

/// The selector a menu role binds to.
pub fn role_selector(role: MenuItemRole) -> (r: Option<NsAction>)
    ensures
        r == spec_role_selector(role),
{
    match role {
        MenuItemRole::About => Some(NsAction::AboutPanel),
        MenuItemRole::Preferences => Some(NsAction::ShowPreferences),
        MenuItemRole::Services => None,
        MenuItemRole::Hide => Some(NsAction::Hide),
        MenuItemRole::HideOthers => Some(NsAction::HideOthers),
        MenuItemRole::ShowAll => Some(NsAction::ShowAll),
        MenuItemRole::Quit => Some(NsAction::Terminate),
        MenuItemRole::Minimize => Some(NsAction::Miniaturize),
        MenuItemRole::Zoom => Some(NsAction::Zoom),
        MenuItemRole::BringAllToFront => Some(NsAction::ArrangeInFront),
    }
}

/// The tray-role selector; tray roles mirror menu roles.
pub open spec fn spec_tray_role_selector(role: TrayMenuItemRole) -> Option<NsAction> {
    match role {
        TrayMenuItemRole::About => Some(NsAction::AboutPanel),
        TrayMenuItemRole::Preferences => Some(NsAction::ShowPreferences),
        TrayMenuItemRole::Services => None,
        TrayMenuItemRole::Hide => Some(NsAction::Hide),
        TrayMenuItemRole::HideOthers => Some(NsAction::HideOthers),
        TrayMenuItemRole::ShowAll => Some(NsAction::ShowAll),
        TrayMenuItemRole::Quit => Some(NsAction::Terminate),
        TrayMenuItemRole::Minimize => Some(NsAction::Miniaturize),
        TrayMenuItemRole::Zoom => Some(NsAction::Zoom),
        TrayMenuItemRole::BringAllToFront => Some(NsAction::ArrangeInFront),
    }
}

/// The tray-role selector.
pub fn tray_role_selector(role: TrayMenuItemRole) -> (r: Option<NsAction>)
    ensures
        r == spec_tray_role_selector(role),
{
    match role {
        TrayMenuItemRole::About => Some(NsAction::AboutPanel),
        TrayMenuItemRole::Preferences => Some(NsAction::ShowPreferences),
        TrayMenuItemRole::Services => None,
        TrayMenuItemRole::Hide => Some(NsAction::Hide),
        TrayMenuItemRole::HideOthers => Some(NsAction::HideOthers),
        TrayMenuItemRole::ShowAll => Some(NsAction::ShowAll),
        TrayMenuItemRole::Quit => Some(NsAction::Terminate),
        TrayMenuItemRole::Minimize => Some(NsAction::Miniaturize),
        TrayMenuItemRole::Zoom => Some(NsAction::Zoom),
        TrayMenuItemRole::BringAllToFront => Some(NsAction::ArrangeInFront),
    }
}

/// The default key equivalent a role gives an application-menu item: the
/// bare key character, with the platform's default modifier.
pub open spec fn spec_role_key_equivalent(role: MenuItemRole) -> Option<u32> {
    match role {
        MenuItemRole::Preferences => Some(',' as u32),
        MenuItemRole::Hide => Some('h' as u32),
        MenuItemRole::Quit => Some('q' as u32),
        MenuItemRole::Minimize => Some('m' as u32),
        _ => None,
    }
}

/// The default key equivalent a role gives an application-menu item.
pub fn role_key_equivalent(role: MenuItemRole) -> (r: Option<u32>)
    ensures
        r == spec_role_key_equivalent(role),
{
    match role {
        MenuItemRole::Preferences => Some(44),
        MenuItemRole::Hide => Some(104),
        MenuItemRole::Quit => Some(113),
        MenuItemRole::Minimize => Some(109),
        _ => None,
    }
}

/// The default key equivalent and modifier mask a tray role gives its item.
pub open spec fn spec_tray_role_key_equivalent(role: TrayMenuItemRole) -> Option<(u32, u64)> {
    match role {
        TrayMenuItemRole::Preferences => Some((',' as u32, MOD_COMMAND)),
        TrayMenuItemRole::Hide => Some(('h' as u32, MOD_COMMAND)),
        TrayMenuItemRole::HideOthers => Some(('h' as u32, MOD_COMMAND | MOD_OPTION)),
        TrayMenuItemRole::Quit => Some(('q' as u32, MOD_COMMAND)),
        TrayMenuItemRole::Minimize => Some(('m' as u32, MOD_COMMAND)),
        _ => None,
    }
}

/// The default key equivalent and modifier mask a tray role gives its item.
pub fn tray_role_key_equivalent(role: TrayMenuItemRole) -> (r: Option<(u32, u64)>)
    ensures
        r == spec_tray_role_key_equivalent(role),
{
    match role {
        TrayMenuItemRole::Preferences => Some((44, MOD_COMMAND)),
        TrayMenuItemRole::Hide => Some((104, MOD_COMMAND)),
        TrayMenuItemRole::HideOthers => Some((104, MOD_COMMAND | MOD_OPTION)),
        TrayMenuItemRole::Quit => Some((113, MOD_COMMAND)),
        TrayMenuItemRole::Minimize => Some((109, MOD_COMMAND)),
        _ => None,
    }
}

/// The modifier mask a shortcut's modifier set renders as: the sum of the
/// masks of its set modifiers (the masks are disjoint bits).
pub open spec fn spec_shortcut_mask(s: Shortcut) -> u64 {
    ((if s.mods.shift {
        MOD_SHIFT
    } else {
        0
    }) + (if s.mods.ctrl {
        MOD_CONTROL
    } else {
        0
    }) + (if s.mods.alt {
        MOD_OPTION
    } else {
        0
    }) + (if s.mods.meta {
        MOD_COMMAND
    } else {
        0
    })) as u64
}

/// The character a shortcut's key renders as: printable characters are
/// lowercased when ASCII, Enter and Escape are control characters, and
/// function keys map into the private-use function-key range. Function
/// keys beyond twelve have no representation.
pub open spec fn spec_shortcut_key_code(k: Key) -> Option<u32> {
    match k {
        Key::Char(c) => {
            let v = c as u32;
            if 65 <= v <= 90 {
                Some((v + 32) as u32)
            } else {
                Some(v)
            }
        },
        Key::Enter => Some(13),
        Key::Escape => Some(27),
        Key::F(n) => if 1 <= n <= 12 {
            Some((0xF704 + n - 1) as u32)
        } else {
            None
        },
    }
}

/// The key equivalent and modifier mask an explicit shortcut renders as.
pub open spec fn spec_shortcut_key_equivalent(s: Shortcut) -> Option<(u32, u64)> {
    match spec_shortcut_key_code(s.key) {
        Some(code) => Some((code, spec_shortcut_mask(s))),
        None => None,
    }
}

/// The key equivalent and modifier mask an explicit shortcut renders as.
pub fn shortcut_to_key_equivalent(s: &Shortcut) -> (r: Option<(u32, u64)>)
    ensures
        r == spec_shortcut_key_equivalent(*s),
{
    let code: Option<u32> = match s.key {
        Key::Char(c) => {
            let v = c as u32;
            if 65 <= v && v <= 90 {
                Some(v + 32)
            } else {
                Some(v)
            }
        },
        Key::Enter => Some(13),
        Key::Escape => Some(27),
        Key::F(n) => if 1 <= n && n <= 12 {
            Some(0xF704 + (n as u32) - 1)
        } else {
            None
        },
    };
    match code {
        None => None,
        Some(code) => {
            let mut mask: u64 = 0;
            if s.mods.shift {
                mask = mask + MOD_SHIFT;
            }
            if s.mods.ctrl {
                mask = mask + MOD_CONTROL;
            }
            if s.mods.alt {
                mask = mask + MOD_OPTION;
            }
            if s.mods.meta {
                mask = mask + MOD_COMMAND;
            }
            Some((code, mask))
        },
    }
}

/// The key equivalent a tray command item carries: its explicit shortcut
/// when it has one, else its role's default, else none. An explicit
/// shortcut overrides the role default even when it has no rendering.
pub open spec fn spec_tray_item_key_equivalent(
    shortcut: Option<Shortcut>,
    role: Option<TrayMenuItemRole>,
) -> Option<(u32, u64)> {
    match shortcut {
        Some(s) => spec_shortcut_key_equivalent(s),
        None => match role {
            Some(r) => spec_tray_role_key_equivalent(r),
            None => None,
        },
    }
}

/// The key equivalent a tray command item carries.
pub fn tray_item_key_equivalent(
    shortcut: &Option<Shortcut>,
    role: &Option<TrayMenuItemRole>,
) -> (r: Option<(u32, u64)>)
    ensures
        r == spec_tray_item_key_equivalent(*shortcut, *role),
{
    match shortcut {
        Some(s) => shortcut_to_key_equivalent(s),
        None => match role {
            Some(r) => tray_role_key_equivalent(*r),
            None => None,
        },
    }
}

/// The native fields one application-menu command item builds into.
#[derive(Debug, PartialEq)]
pub struct NsCommandPlan {
    /// The item's action: a role's selector, the application-dispatch entry
    /// point when a target receives commands, or none.
    pub action: Option<NsAction>,
    /// Whether the dispatch target is attached to the item.
    pub set_target: bool,
    /// The key equivalent character, if any.
    pub key_code: Option<u32>,
    /// Whether the item carries the services submenu.
    pub services_submenu: bool,
    /// Whether the item is enabled.
    pub enabled: bool,
    /// Whether the item's state is on (checked).
    pub state_on: bool,
    /// The native tag the command id encodes to.
    pub tag: i64,
}

/// How one application-menu command item builds into a native item. The
/// label passes through unchanged and is not part of the plan. Fails
/// exactly when the command id exceeds the native tag range.
pub fn plan_ns_command_item(cmd: &CommandItem, has_target: bool) -> (r: Result<
    NsCommandPlan,
    MacMenuError,
>)
    ensures
        match r {
            Ok(p) => spec_command_tag(cmd.id) == Some(p.tag) && p == (NsCommandPlan {
                action: match cmd.role {
                    Some(role) => spec_role_selector(role),
                    None => if has_target {
                        Some(NsAction::Invoke)
                    } else {
                        None
                    },
                },
                set_target: has_target,
                key_code: match cmd.role {
                    Some(role) => spec_role_key_equivalent(role),
                    None => None,
                },
                services_submenu: cmd.role == Some(MenuItemRole::Services),
                enabled: cmd.enabled,
                state_on: cmd.checked,
                tag: p.tag,
            }),
            Err(e) => spec_command_tag(cmd.id) is None && e == MacMenuError::BadCommandId,
        },
{
    let tag = match command_id_to_tag(&cmd.id) {
        Ok(t) => t,
        Err(e) => {
            return Err(e);
        },
    };
    let (action, key_code) = match cmd.role {
        Some(role) => (role_selector(role), role_key_equivalent(role)),
        None => (
            if has_target {
                Some(NsAction::Invoke)
            } else {
                None
            },
            None,
        ),
    };
    let services_submenu = match cmd.role {
        Some(MenuItemRole::Services) => true,
        _ => false,
    };
    Ok(
        NsCommandPlan {
            action,
            set_target: has_target,
            key_code,
            services_submenu,
            enabled: cmd.enabled,
            state_on: cmd.checked,
            tag,
        },
    )
}

/// The native fields one tray command item builds into.
#[derive(Debug, PartialEq)]
pub struct NsTrayCommandPlan {
    /// The item's action: a role's selector or the dispatch entry point.
    pub action: Option<NsAction>,
    /// The key equivalent character and modifier mask, if any.
    pub key_equivalent: Option<(u32, u64)>,
    /// Whether the item carries the services submenu.
    pub services_submenu: bool,
    /// Whether the item is enabled.
    pub enabled: bool,
    /// Whether the item's state is on (checked).
    pub state_on: bool,
    /// The native tag the command id encodes to.
    pub tag: i64,
}

/// How one tray command item builds into a native item: unroled items
/// dispatch to the application, an explicit shortcut overrides the role's
/// default key equivalent. Fails exactly when the command id exceeds the
/// native tag range.
pub fn plan_ns_tray_command_item(cmd: &TrayCommandItem) -> (r: Result<
    NsTrayCommandPlan,
    MacMenuError,
>)
    ensures
        match r {
            Ok(p) => spec_command_tag(cmd.id) == Some(p.tag) && p == (NsTrayCommandPlan {
                action: match cmd.role {
                    Some(role) => spec_tray_role_selector(role),
                    None => Some(NsAction::Invoke),
                },
                key_equivalent: spec_tray_item_key_equivalent(cmd.shortcut, cmd.role),
                services_submenu: cmd.role == Some(TrayMenuItemRole::Services),
                enabled: cmd.enabled,
                state_on: cmd.checked,
                tag: p.tag,
            }),
            Err(e) => spec_command_tag(cmd.id) is None && e == MacMenuError::BadCommandId,
        },
{
    let tag = match command_id_to_tag(&cmd.id) {
        Ok(t) => t,
        Err(e) => {
            return Err(e);
        },
    };
    let action = match cmd.role {
        Some(role) => tray_role_selector(role),
        None => Some(NsAction::Invoke),
    };
    let key_equivalent = tray_item_key_equivalent(&cmd.shortcut, &cmd.role);
    let services_submenu = match cmd.role {
        Some(TrayMenuItemRole::Services) => true,
        _ => false,
    };
    Ok(
        NsTrayCommandPlan {
            action,
            key_equivalent,
            services_submenu,
            enabled: cmd.enabled,
            state_on: cmd.checked,
            tag,
        },
    )
}

/// What a status-item click does: left activation brings the application
/// forward and fires the activation callback; a right-button gesture pops
/// the tray menu up instead.
#[derive(Debug, Clone, Copy, PartialEq, Eq, Structural)]
pub enum TrayClick {
    Activate,
    ShowMenu,
}

/// The native event types that count as right-button gestures.
pub const NS_RIGHT_MOUSE_DOWN: i64 = 3;

pub const NS_RIGHT_MOUSE_UP: i64 = 4;

pub const NS_RIGHT_MOUSE_DRAGGED: i64 = 7;

/// Whether an event type is a right-button gesture.
pub open spec fn spec_is_right_click(event_type: i64) -> bool {
    event_type == NS_RIGHT_MOUSE_DOWN || event_type == NS_RIGHT_MOUSE_UP || event_type
        == NS_RIGHT_MOUSE_DRAGGED
}

/// Decide what a status-item click does from the originating event's type;
/// with no current event the click counts as an activation. The decision
/// is re-made per event and keeps no state.
pub fn tray_click_action(event_type: Option<i64>) -> (r: TrayClick)
    ensures
        r == TrayClick::ShowMenu <==> (event_type matches Some(t) && spec_is_right_click(t)),
{
    match event_type {
        Some(t) => {
            if t == NS_RIGHT_MOUSE_DOWN || t == NS_RIGHT_MOUSE_UP || t == NS_RIGHT_MOUSE_DRAGGED {
                TrayClick::ShowMenu
            } else {
                TrayClick::Activate
            }
        },
        None => TrayClick::Activate,
    }
}


// A whole menu tree translated ahead of the native calls: the build planner
// turns a model tree into the exact fields each native item is created
// with, so the imperative walk that allocates native objects carries no
// decisions of its own.

/// One node of a planned native menu tree.
#[derive(Debug, PartialEq)]
pub enum NsMenuNode {
    Separator,
    Command { title: String, plan: NsCommandPlan },
    Submenu { title: String, items: Vec<NsMenuNode> },
}

/// The mathematical value of a planned node.
#[verifier::ext_equal]
pub enum NsNodeV {
    Separator,
    Command { title: Seq<char>, plan: NsCommandPlan },
    Submenu { title: Seq<char>, items: Seq<NsNodeV> },
}

/// The mathematical value of a planned node, recursively.
pub open spec fn ns_node_view(node: NsMenuNode) -> NsNodeV
    decreases node,
{
    match node {
        NsMenuNode::Separator => NsNodeV::Separator,
        NsMenuNode::Command { title, plan } => NsNodeV::Command { title: title@, plan },
        NsMenuNode::Submenu { title, items } => NsNodeV::Submenu {
            title: title@,
            items: Seq::new(
                items@.len(),
                |i: int|
                    if 0 <= i < items@.len() {
                        ns_node_view(items@[i])
                    } else {
                        NsNodeV::Separator
                    },
            ),
        },
    }
}

impl DeepView for NsMenuNode {
    type V = NsNodeV;

    open spec fn deep_view(&self) -> NsNodeV {
        ns_node_view(*self)
    }
}

/// The value of a planned submenu node is its title together with the
/// values of its children, exactly as `Vec::deep_view` produces them.
proof fn lemma_ns_node_view_submenu(title: String, items: Vec<NsMenuNode>)
    ensures
        ns_node_view(NsMenuNode::Submenu { title, items }) == (NsNodeV::Submenu {
            title: title@,
            items: items.deep_view(),
        }),
{
    let lhs = ns_node_view(NsMenuNode::Submenu { title, items })->Submenu_items;
    let rhs = items.deep_view();
    assert(lhs.len() == rhs.len());
    assert forall|i: int| 0 <= i < lhs.len() implies lhs[i] == rhs[i] by {
        assert(lhs[i] == ns_node_view(items@[i]));
        assert(rhs[i] == ns_node_view(items@[i]));
    }
    assert(lhs =~= rhs);
    assert(ns_node_view(NsMenuNode::Submenu { title, items }) =~= NsNodeV::Submenu {
        title: title@,
        items: items.deep_view(),
    });
}

/// The plan one command item builds into.
pub open spec fn spec_plan_command(c: ItemV, has_target: bool, tag: i64) -> NsCommandPlan {
    NsCommandPlan {
        action: match c->Command_role {
            Some(role) => spec_role_selector(role),
            None => if has_target {
                Some(NsAction::Invoke)
            } else {
                None
            },
        },
        set_target: has_target,
        key_code: match c->Command_role {
            Some(role) => spec_role_key_equivalent(role),
            None => None,
        },
        services_submenu: c->Command_role == Some(MenuItemRole::Services),
        enabled: c->Command_enabled,
        state_on: c->Command_checked,
        tag,
    }
}

/// The node one menu item builds into; `None` when a command id does not
/// fit the native tag range.
pub open spec fn spec_plan_item(item: ItemV, has_target: bool) -> Option<NsNodeV>
    decreases item, 0int,
{
    match item {
        ItemV::Separator => Some(NsNodeV::Separator),
        ItemV::Command { .. } => match spec_command_tag(item->Command_id) {
            Option::None => Option::None,
            Option::Some(t) => Some(NsNodeV::Command {
                title: item->Command_label,
                plan: spec_plan_command(item, has_target, t),
            }),
        },
        ItemV::Submenu { label, items } => match spec_plan_items(items, has_target, 0) {
            Option::None => Option::None,
            Option::Some(nodes) => Some(NsNodeV::Submenu { title: label, items: nodes }),
        },
    }
}

/// The nodes the items from position `k` on build into.
pub open spec fn spec_plan_items(items: Seq<ItemV>, has_target: bool, k: int) -> Option<
    Seq<NsNodeV>,
>
    decreases items, items.len() - k + 1,
{
    if k < 0 || k >= items.len() {
        Some(Seq::empty())
    } else {
        match spec_plan_item(items[k], has_target) {
            Option::None => Option::None,
            Option::Some(node) => match spec_plan_items(items, has_target, k + 1) {
                Option::None => Option::None,
                Option::Some(rest) => Some(seq![node] + rest),
            },
        }
    }
}

/// Plan one menu item. Fails exactly when a command id in the subtree does
/// not fit the native tag range.
fn plan_ns_item(item: &MenuItem, has_target: bool) -> (r: Result<NsMenuNode, MacMenuError>)
    ensures
        match r {
            Ok(node) => spec_plan_item(item.deep_view(), has_target) == Some(node.deep_view()),
            Err(e) => spec_plan_item(item.deep_view(), has_target) is None && e
                == MacMenuError::BadCommandId,
        },
    decreases *item,
{
    match item {
        MenuItem::Separator => {
            proof {
                assert(item.deep_view() == ItemV::Separator);
            }
            Ok(NsMenuNode::Separator)
        },
        MenuItem::Command(c) => {
            proof {
                assert(item.deep_view() == crate::menu::command_item_view(*c));
            }
            let plan = match plan_ns_command_item(c, has_target) {
                Ok(p) => p,
                Err(e) => {
                    return Err(e);
                },
            };
            let node = NsMenuNode::Command { title: c.label.clone(), plan };
            proof {
                assert(spec_command_tag(c.id) == Some(plan.tag));
                let expect = NsNodeV::Command {
                    title: c.label@,
                    plan: spec_plan_command(item.deep_view(), has_target, plan.tag),
                };
                assert(plan == spec_plan_command(item.deep_view(), has_target, plan.tag));
                assert(node.deep_view() == expect);
                assert(spec_plan_item(item.deep_view(), has_target) == Some(expect));
            }
            Ok(node)
        },
        MenuItem::Submenu(s) => {
            let nodes = match plan_ns_items(&s.items, has_target) {
                Ok(n) => n,
                Err(e) => {
                    return Err(e);
                },
            };
            let title = s.label.clone();
            let ghost nodes_v = nodes.deep_view();
            let ghost t = title;
            let ghost ns = nodes;
            let node = NsMenuNode::Submenu { title, items: nodes };
            proof {
                lemma_ns_node_view_submenu(t, ns);
                let expect = NsNodeV::Submenu { title: s.label@, items: nodes_v };
                assert(node.deep_view() == expect);
                assert(spec_plan_item(item.deep_view(), has_target) == Some(expect));
            }
            Ok(node)
        },
    }
}

/// Plan the items of one menu level.
pub fn plan_ns_items(items: &Vec<MenuItem>, has_target: bool) -> (r: Result<
    Vec<NsMenuNode>,
    MacMenuError,
>)
    ensures
        match r {
            Ok(nodes) => spec_plan_items(items.deep_view(), has_target, 0) == Some(
                nodes.deep_view(),
            ),
            Err(e) => spec_plan_items(items.deep_view(), has_target, 0) is None && e
                == MacMenuError::BadCommandId,
        },
    decreases items@,
{
    let ghost iv = items.deep_view();
    let mut out: Vec<NsMenuNode> = Vec::new();
    let mut i: usize = 0;
    proof {
        assert(out.deep_view() =~= Seq::<NsNodeV>::empty());
    }
    while i < items.len()
        invariant
            items.deep_view() == iv,
            i <= items.len(),
            items.len() == iv.len(),
            forall|full: Seq<NsNodeV>|
                (#[trigger] spec_plan_items(iv, has_target, i as int)) == Some(full)
                    ==> spec_plan_items(iv, has_target, 0) == Some(out.deep_view() + full),
            spec_plan_items(iv, has_target, i as int) is None ==> spec_plan_items(
                iv,
                has_target,
                0,
            ) is None,
        decreases items.len() - i,
    {
        proof {
            assert(items.deep_view()[i as int] == items@[i as int].deep_view());
        }
        match plan_ns_item(&items[i], has_target) {
            Ok(node) => {
                let ghost nv = node.deep_view();
                let ghost before = out.deep_view();
                out.push(node);
                proof {
                    assert(out.deep_view() =~= before.push(nv));
                    assert forall|full: Seq<NsNodeV>|
                        (#[trigger] spec_plan_items(iv, has_target, i + 1)) == Some(full)
                            implies spec_plan_items(iv, has_target, 0) == Some(
                        before.push(nv) + full,
                    ) by {
                        assert(spec_plan_items(iv, has_target, i as int) == Some(
                            seq![nv] + full,
                        ));
                        assert(before + (seq![nv] + full) =~= before.push(nv) + full);
                    }
                    if spec_plan_items(iv, has_target, i + 1) is None {
                        assert(spec_plan_items(iv, has_target, i as int) is None);
                    }
                }
            },
            Err(e) => {
                proof {
                    assert(spec_plan_items(iv, has_target, i as int) is None);
                }
                return Err(e);
            },
        }
        i += 1;
    }
    proof {
        assert(spec_plan_items(iv, has_target, i as int) == Some(Seq::<NsNodeV>::empty()));
        assert(out.deep_view() + Seq::<NsNodeV>::empty() =~= out.deep_view());
    }
    Ok(out)
}

/// One planned top-level menu: its native title and its planned contents.
/// When `process_name` holds, the native layer titles the menu with the
/// process name (the App-role menu, and menus with empty labels).
#[derive(Debug, PartialEq)]
pub struct NsTopMenuPlan {
    pub process_name: bool,
    pub title: String,
    pub items: Vec<NsMenuNode>,
}

/// The whole planned menu bar. When the model has no App-role menu, the
/// native layer prepends its standard default application menu.
#[derive(Debug, PartialEq)]
pub struct NsMainMenuPlan {
    pub include_default_app_menu: bool,
    pub menus: Vec<NsTopMenuPlan>,
}

/// Plan a whole (already normalized) menu bar for a full native build.
/// Fails exactly when some command id does not fit the native tag range.
pub fn plan_main_menu(bar: &MenuBarModel, has_target: bool) -> (r: Result<
    NsMainMenuPlan,
    MacMenuError,
>)
    ensures
        match r {
            Ok(plan) => {
                &&& plan.include_default_app_menu == !crate::normalize::spec_has_app_menu(bar@)
                &&& plan.menus@.len() == bar@.len()
                &&& forall|i: int|
                    0 <= i < bar@.len() ==> {
                        let m = #[trigger] bar@[i];
                        &&& plan.menus@[i].process_name == (m.role == Some(TopMenuRole::App)
                            || m.label.len() == 0)
                        &&& plan.menus@[i].title@ == m.label
                        &&& spec_plan_items(m.items, has_target, 0) == Some(
                            plan.menus@[i].items.deep_view(),
                        )
                    }
            },
            Err(e) => e == MacMenuError::BadCommandId && (exists|i: int|
                0 <= i < bar@.len() && spec_plan_items(
                    (#[trigger] bar@[i]).items,
                    has_target,
                    0,
                ) is None),
        },
{
    let include_default_app_menu = !crate::normalize::has_app_menu(bar);
    let mut menus: Vec<NsTopMenuPlan> = Vec::new();
    let mut i: usize = 0;
    while i < bar.menus.len()
        invariant
            i <= bar.menus.len(),
            bar.menus.len() == bar@.len(),
            menus@.len() == i,
            forall|j: int|
                0 <= j < i ==> {
                    let m = #[trigger] bar@[j];
                    &&& menus@[j].process_name == (m.role == Some(TopMenuRole::App)
                        || m.label.len() == 0)
                    &&& menus@[j].title@ == m.label
                    &&& spec_plan_items(m.items, has_target, 0) == Some(
                        menus@[j].items.deep_view(),
                    )
                },
        decreases bar.menus.len() - i,
    {
        let m = &bar.menus[i];
        proof {
            assert(bar@[i as int] == bar.menus@[i as int].deep_view());
        }
        let is_app = match m.role {
            Some(TopMenuRole::App) => true,
            _ => false,
        };
        let items = match plan_ns_items(&m.items, has_target) {
            Ok(n) => n,
            Err(e) => {
                return Err(e);
            },
        };
        menus.push(
            NsTopMenuPlan {
                process_name: is_app || m.label.as_str().is_empty(),
                title: m.label.clone(),
                items,
            },
        );
        i += 1;
    }
    Ok(NsMainMenuPlan { include_default_app_menu, menus })
}

} // verus!
