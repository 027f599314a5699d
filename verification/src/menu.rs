use vstd::prelude::*;
use crate::command::CommandId;
use crate::shortcut::Shortcut;

verus! {

/// One node of a menu tree: an invocable command, a nested submenu, or a
/// separator line.
#[derive(Debug, PartialEq)]
pub enum MenuItem {
    Command(CommandItem),
    Submenu(Submenu),
    Separator,
}

/// A command entry of a menu: an application command id, display attributes,
/// and an optional semantic role that binds the entry to a platform-standard
/// action.
#[derive(Debug, PartialEq)]
pub struct CommandItem {
    pub id: CommandId,
    pub label: String,
    pub enabled: bool,
    pub checked: bool,
    pub shortcut: Option<Shortcut>,
    pub role: Option<MenuItemRole>,
}

/// A submenu entry: a label and the ordered children shown under it.
#[derive(Debug, PartialEq)]
pub struct Submenu {
    pub label: String,
    pub items: Vec<MenuItem>,
}

/// The semantic roles a command item may carry. A role maps the item to a
/// platform-standard behavior and placement.
#[derive(Debug, Clone, Copy, PartialEq, Eq, Hash, Structural)]
pub enum MenuItemRole {
    About,
    Preferences,
    Services,
    Hide,
    HideOthers,
    ShowAll,
    Quit,
    Minimize,
    Zoom,
    BringAllToFront,
}

/// An ordered sequence of menu items: the unit installed as a context menu or
/// as the contents of one top-level menu.
#[derive(Debug, PartialEq)]
pub struct MenuModel {
    pub items: Vec<MenuItem>,
}

/// What a shown menu reports back: a command was invoked, or the menu was
/// dismissed without a choice.
#[derive(Debug, Clone, Copy, PartialEq, Eq, Structural)]
pub enum MenuEvent {
    CommandInvoked(CommandId),
    Dismissed,
}

/// The gesture that asked for a context menu.
#[derive(Debug, Clone, Copy, PartialEq, Eq, Structural)]
pub enum MenuTrigger {
    MouseRight,
    TouchLongPress,
    Keyboard,
}

/// The mathematical value of a menu item: the same tree with strings as
/// character sequences and children as sequences.
#[verifier::ext_equal]
pub enum ItemV {
    Command {
        id: CommandId,
        label: Seq<char>,
        enabled: bool,
        checked: bool,
        shortcut: Option<Shortcut>,
        role: Option<MenuItemRole>,
    },
    Submenu { label: Seq<char>, items: Seq<ItemV> },
    Separator,
}

impl ItemV {
    /// The role a node carries: only command nodes have one.
    pub open spec fn role_of(self) -> Option<MenuItemRole> {
        match self {
            ItemV::Command { role, .. } => role,
            _ => None,
        }
    }
}

/// The mathematical value of a command item.
pub open spec fn command_item_view(c: CommandItem) -> ItemV {
    ItemV::Command {
        id: c.id,
        label: c.label@,
        enabled: c.enabled,
        checked: c.checked,
        shortcut: c.shortcut,
        role: c.role,
    }
}

/// The mathematical value of a menu item, recursively.
pub open spec fn item_view(item: MenuItem) -> ItemV
    decreases item,
{
    match item {
        MenuItem::Separator => ItemV::Separator,
        MenuItem::Command(c) => command_item_view(c),
        MenuItem::Submenu(s) => ItemV::Submenu {
            label: s.label@,
            items: Seq::new(
                s.items@.len(),
                |i: int|
                    if 0 <= i < s.items@.len() {
                        item_view(s.items@[i])
                    } else {
                        ItemV::Separator
                    },
            ),
        },
    }
}

/// The value of a submenu node is its label together with the values of its
/// children, exactly as `Vec::deep_view` produces them.
pub broadcast proof fn lemma_item_view_submenu(s: Submenu)
    ensures
        (#[trigger] item_view(MenuItem::Submenu(s))) == (ItemV::Submenu {
            label: s.label@,
            items: s.items.deep_view(),
        }),
{
    let lhs = item_view(MenuItem::Submenu(s))->Submenu_items;
    let rhs = s.items.deep_view();
    assert(lhs.len() == rhs.len());
    assert forall|i: int| 0 <= i < lhs.len() implies lhs[i] == rhs[i] by {
        assert(lhs[i] == item_view(s.items@[i]));
        assert(rhs[i] == item_view(s.items@[i]));
    }
    assert(lhs =~= rhs);
    assert(item_view(MenuItem::Submenu(s)) =~= ItemV::Submenu {
        label: s.label@,
        items: s.items.deep_view(),
    });
}

impl DeepView for MenuItem {
    type V = ItemV;

    open spec fn deep_view(&self) -> ItemV {
        item_view(*self)
    }
}

impl View for MenuItem {
    type V = ItemV;

    open spec fn view(&self) -> ItemV {
        item_view(*self)
    }
}

impl View for MenuModel {
    type V = Seq<ItemV>;

    open spec fn view(&self) -> Seq<ItemV> {
        self.items.deep_view()
    }
}

impl MenuModel {
    /// A menu holding exactly `items`.
    pub fn new(items: Vec<MenuItem>) -> (r: Self)
        ensures
            r@ == items.deep_view(),
    {
        MenuModel { items }
    }
}

impl CommandItem {
    /// A command entry for `id` labelled `label`; enabled, unchecked, with no
    /// shortcut and no role.
    pub fn new(id: CommandId, label: String) -> (r: Self)
        ensures
            r.deep_view() == (ItemV::Command {
                id,
                label: label@,
                enabled: true,
                checked: false,
                shortcut: None,
                role: None,
            }),
    {
        CommandItem { id, label, enabled: true, checked: false, shortcut: None, role: None }
    }

    /// The same entry with its role set to `role`.
    pub fn with_role(self, role: MenuItemRole) -> (r: Self)
        ensures
            r.deep_view() == (ItemV::Command {
                id: self.id,
                label: self.label@,
                enabled: self.enabled,
                checked: self.checked,
                shortcut: self.shortcut,
                role: Some(role),
            }),
    {
        CommandItem { role: Some(role), ..self }
    }
}

impl DeepView for CommandItem {
    type V = ItemV;

    open spec fn deep_view(&self) -> ItemV {
        command_item_view(*self)
    }
}

impl Submenu {
    /// A submenu labelled `label` with children `items`.
    pub fn new(label: String, items: Vec<MenuItem>) -> (r: Self)
        ensures
            r.deep_view() == (ItemV::Submenu { label: label@, items: items.deep_view() }),
    {
        Submenu { label, items }
    }
}

impl DeepView for Submenu {
    type V = ItemV;

    open spec fn deep_view(&self) -> ItemV {
        ItemV::Submenu { label: self.label@, items: self.items.deep_view() }
    }
}


impl Clone for CommandItem {
    /// A deep copy with the same value.
    fn clone(&self) -> (r: Self)
        ensures
            r.deep_view() == self.deep_view(),
    {
        CommandItem {
            id: self.id,
            label: self.label.clone(),
            enabled: self.enabled,
            checked: self.checked,
            shortcut: self.shortcut,
            role: self.role,
        }
    }
}

/// A deep copy of a menu item list with the same value.
pub fn clone_menu_items(v: &Vec<MenuItem>) -> (r: Vec<MenuItem>)
    ensures
        r.deep_view() == v.deep_view(),
    decreases v@,
{
    let mut out: Vec<MenuItem> = Vec::new();
    let mut i: usize = 0;
    while i < v.len()
        invariant
            i <= v.len(),
            out@.len() == i,
            forall|j: int| 0 <= j < i ==> out.deep_view()[j] == v.deep_view()[j],
        decreases v.len() - i,
    {
        let ghost prev = out.deep_view();
        let c = v[i].clone();
        out.push(c);
        proof {
            assert(out.deep_view() =~= prev.push(v@[i as int].deep_view()));
        }
        i += 1;
    }
    proof {
        assert(out.deep_view() =~= v.deep_view());
    }
    out
}

impl Clone for MenuItem {
    /// A deep copy with the same value.
    fn clone(&self) -> (r: Self)
        ensures
            r.deep_view() == self.deep_view(),
        decreases *self,
    {
        match self {
            MenuItem::Separator => MenuItem::Separator,
            MenuItem::Command(c) => MenuItem::Command(c.clone()),
            MenuItem::Submenu(s) => {
                let items = clone_menu_items(&s.items);
                let label = s.label.clone();
                let ghost sub = Submenu { label, items };
                let r = MenuItem::Submenu(Submenu { label, items });
                proof {
                    lemma_item_view_submenu(sub);
                    lemma_item_view_submenu(*s);
                    assert(r.deep_view() =~= self.deep_view());
                }
                r
            },
        }
    }
}

impl Clone for Submenu {
    /// A deep copy with the same value.
    fn clone(&self) -> (r: Self)
        ensures
            r.deep_view() == self.deep_view(),
    {
        let r = Submenu { label: self.label.clone(), items: clone_menu_items(&self.items) };
        proof {
            assert(r.deep_view() =~= self.deep_view());
        }
        r
    }
}

impl Clone for MenuModel {
    /// A deep copy with the same value.
    fn clone(&self) -> (r: Self)
        ensures
            r@ == self@,
    {
        MenuModel { items: clone_menu_items(&self.items) }
    }
}

} // verus!
