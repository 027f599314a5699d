use vstd::prelude::*;
use crate::command::CommandId;
use crate::shortcut::Shortcut;

verus! {

/// The icon shown in the status area: PNG-encoded bytes plus a flag asking
/// the platform to render it as a template (monochrome mask).
#[derive(Debug, PartialEq)]
pub enum TrayIcon {
    Png { bytes: Vec<u8>, is_template: bool },
}

/// One node of a tray menu tree. The tray family mirrors the menu family but
/// is a separate set of types, as the public surface keeps them apart.
#[derive(Debug, PartialEq)]
pub enum TrayMenuItem {
    Command(TrayCommandItem),
    Submenu(TraySubmenu),
    Separator,
}

/// A command entry of a tray menu.
#[derive(Debug, PartialEq)]
pub struct TrayCommandItem {
    pub id: CommandId,
    pub label: String,
    pub enabled: bool,
    pub checked: bool,
    pub shortcut: Option<Shortcut>,
    pub role: Option<TrayMenuItemRole>,
}

/// The semantic roles a tray command item may carry.
#[derive(Debug, Clone, Copy, PartialEq, Eq, Hash, Structural)]
pub enum TrayMenuItemRole {
    About,
    Preferences,
    Services,
    Hide,
    HideOthers,
    ShowAll,
    Quit,
    Minimize,
    Zoom,
    BringAllToFront,
}

/// A submenu entry of a tray menu.
#[derive(Debug, PartialEq)]
pub struct TraySubmenu {
    pub label: String,
    pub items: Vec<TrayMenuItem>,
}

/// An ordered sequence of tray menu items: the popup shown for the tray icon.
#[derive(Debug, PartialEq)]
pub struct TrayMenuModel {
    pub items: Vec<TrayMenuItem>,
}

/// The full desired state of a tray icon: image, optional tooltip, and menu.
#[derive(Debug, PartialEq)]
pub struct TrayModel {
    pub icon: TrayIcon,
    pub tooltip: Option<String>,
    pub menu: TrayMenuModel,
}

/// The mathematical value of a tray menu item.
#[verifier::ext_equal]
pub enum TrayItemV {
    Command {
        id: CommandId,
        label: Seq<char>,
        enabled: bool,
        checked: bool,
        shortcut: Option<Shortcut>,
        role: Option<TrayMenuItemRole>,
    },
    Submenu { label: Seq<char>, items: Seq<TrayItemV> },
    Separator,
}

/// The mathematical value of a tray icon.
#[verifier::ext_equal]
pub enum TrayIconV {
    Png { bytes: Seq<u8>, is_template: bool },
}

/// The mathematical value of a whole tray model.
#[verifier::ext_equal]
pub struct TrayModelV {
    pub icon: TrayIconV,
    pub tooltip: Option<Seq<char>>,
    pub menu: Seq<TrayItemV>,
}

/// The mathematical value of a tray command item.
pub open spec fn tray_command_item_view(c: TrayCommandItem) -> TrayItemV {
    TrayItemV::Command {
        id: c.id,
        label: c.label@,
        enabled: c.enabled,
        checked: c.checked,
        shortcut: c.shortcut,
        role: c.role,
    }
}

/// The mathematical value of a tray menu item, recursively.
pub open spec fn tray_item_view(item: TrayMenuItem) -> TrayItemV
    decreases item,
{
    match item {
        TrayMenuItem::Separator => TrayItemV::Separator,
        TrayMenuItem::Command(c) => tray_command_item_view(c),
        TrayMenuItem::Submenu(s) => TrayItemV::Submenu {
            label: s.label@,
            items: Seq::new(
                s.items@.len(),
                |i: int|
                    if 0 <= i < s.items@.len() {
                        tray_item_view(s.items@[i])
                    } else {
                        TrayItemV::Separator
                    },
            ),
        },
    }
}

/// The value of a tray submenu node is its label together with the values of
/// its children, exactly as `Vec::deep_view` produces them.
pub broadcast proof fn lemma_tray_item_view_submenu(s: TraySubmenu)
    ensures
        (#[trigger] tray_item_view(TrayMenuItem::Submenu(s))) == (TrayItemV::Submenu {
            label: s.label@,
            items: s.items.deep_view(),
        }),
{
    let lhs = tray_item_view(TrayMenuItem::Submenu(s))->Submenu_items;
    let rhs = s.items.deep_view();
    assert(lhs.len() == rhs.len());
    assert forall|i: int| 0 <= i < lhs.len() implies lhs[i] == rhs[i] by {
        assert(lhs[i] == tray_item_view(s.items@[i]));
        assert(rhs[i] == tray_item_view(s.items@[i]));
    }
    assert(lhs =~= rhs);
    assert(tray_item_view(TrayMenuItem::Submenu(s)) =~= TrayItemV::Submenu {
        label: s.label@,
        items: s.items.deep_view(),
    });
}

impl DeepView for TrayMenuItem {
    type V = TrayItemV;

    open spec fn deep_view(&self) -> TrayItemV {
        tray_item_view(*self)
    }
}

impl View for TrayMenuItem {
    type V = TrayItemV;

    open spec fn view(&self) -> TrayItemV {
        tray_item_view(*self)
    }
}

impl View for TrayIcon {
    type V = TrayIconV;

    open spec fn view(&self) -> TrayIconV {
        match *self {
            TrayIcon::Png { bytes, is_template } => TrayIconV::Png {
                bytes: bytes@,
                is_template,
            },
        }
    }
}

impl View for TrayMenuModel {
    type V = Seq<TrayItemV>;

    open spec fn view(&self) -> Seq<TrayItemV> {
        self.items.deep_view()
    }
}

impl View for TrayModel {
    type V = TrayModelV;

    open spec fn view(&self) -> TrayModelV {
        TrayModelV {
            icon: self.icon@,
            tooltip: match self.tooltip {
                Some(ref t) => Some(t@),
                None => None,
            },
            menu: self.menu@,
        }
    }
}

impl TrayIcon {
    /// An icon from PNG bytes; not rendered as a template.
    pub fn from_png_bytes(bytes: Vec<u8>) -> (r: Self)
        ensures
            r@ == (TrayIconV::Png { bytes: bytes@, is_template: false }),
    {
        TrayIcon::Png { bytes, is_template: false }
    }

    /// The same icon with its template flag set to `is_template`.
    pub fn with_template(self, is_template: bool) -> (r: Self)
        ensures
            r@ == (TrayIconV::Png { bytes: self@->Png_bytes, is_template }),
    {
        match self {
            TrayIcon::Png { bytes, .. } => TrayIcon::Png { bytes, is_template },
        }
    }
}

impl TrayMenuModel {
    /// A tray menu holding exactly `items`.
    pub fn new(items: Vec<TrayMenuItem>) -> (r: Self)
        ensures
            r@ == items.deep_view(),
    {
        TrayMenuModel { items }
    }
}

impl TrayCommandItem {
    /// A tray command entry for `id` labelled `label`; enabled, unchecked,
    /// with no shortcut and no role.
    pub fn new(id: CommandId, label: String) -> (r: Self)
        ensures
            r.deep_view() == (TrayItemV::Command {
                id,
                label: label@,
                enabled: true,
                checked: false,
                shortcut: None,
                role: None,
            }),
    {
        TrayCommandItem { id, label, enabled: true, checked: false, shortcut: None, role: None }
    }

    /// The same entry with its role set to `role`.
    pub fn with_role(self, role: TrayMenuItemRole) -> (r: Self)
        ensures
            r.deep_view() == (TrayItemV::Command {
                id: self.id,
                label: self.label@,
                enabled: self.enabled,
                checked: self.checked,
                shortcut: self.shortcut,
                role: Some(role),
            }),
    {
        TrayCommandItem { role: Some(role), ..self }
    }
}

impl DeepView for TrayCommandItem {
    type V = TrayItemV;

    open spec fn deep_view(&self) -> TrayItemV {
        tray_command_item_view(*self)
    }
}

impl TraySubmenu {
    /// A tray submenu labelled `label` with children `items`.
    pub fn new(label: String, items: Vec<TrayMenuItem>) -> (r: Self)
        ensures
            r.deep_view() == (TrayItemV::Submenu { label: label@, items: items.deep_view() }),
    {
        TraySubmenu { label, items }
    }
}

impl DeepView for TraySubmenu {
    type V = TrayItemV;

    open spec fn deep_view(&self) -> TrayItemV {
        TrayItemV::Submenu { label: self.label@, items: self.items.deep_view() }
    }
}

impl TrayModel {
    /// A tray model with `icon` and `menu` and no tooltip.
    pub fn new(icon: TrayIcon, menu: TrayMenuModel) -> (r: Self)
        ensures
            r@ == (TrayModelV { icon: icon@, tooltip: None, menu: menu@ }),
    {
        TrayModel { icon, tooltip: None, menu }
    }

    /// The same model with its tooltip set to `tooltip`.
    pub fn with_tooltip(self, tooltip: String) -> (r: Self)
        ensures
            r@ == (TrayModelV { icon: self.icon@, tooltip: Some(tooltip@), menu: self.menu@ }),
    {
        TrayModel { tooltip: Some(tooltip), ..self }
    }
}


impl Clone for TrayCommandItem {
    /// A deep copy with the same value.
    fn clone(&self) -> (r: Self)
        ensures
            r.deep_view() == self.deep_view(),
    {
        TrayCommandItem {
            id: self.id,
            label: self.label.clone(),
            enabled: self.enabled,
            checked: self.checked,
            shortcut: self.shortcut,
            role: self.role,
        }
    }
}

/// A deep copy of a tray item list with the same value.
pub fn clone_tray_items(v: &Vec<TrayMenuItem>) -> (r: Vec<TrayMenuItem>)
    ensures
        r.deep_view() == v.deep_view(),
    decreases v@,
{
    let mut out: Vec<TrayMenuItem> = Vec::new();
    let mut i: usize = 0;
    while i < v.len()
        invariant
            i <= v.len(),
            out@.len() == i,
            forall|j: int| 0 <= j < i ==> out.deep_view()[j] == v.deep_view()[j],
        decreases v.len() - i,
    {
        let ghost prev = out.deep_view();
        let c = v[i].clone();
        out.push(c);
        proof {
            assert(out.deep_view() =~= prev.push(v@[i as int].deep_view()));
        }
        i += 1;
    }
    proof {
        assert(out.deep_view() =~= v.deep_view());
    }
    out
}

impl Clone for TrayMenuItem {
    /// A deep copy with the same value.
    fn clone(&self) -> (r: Self)
        ensures
            r.deep_view() == self.deep_view(),
        decreases *self,
    {
        match self {
            TrayMenuItem::Separator => TrayMenuItem::Separator,
            TrayMenuItem::Command(c) => TrayMenuItem::Command(c.clone()),
            TrayMenuItem::Submenu(s) => {
                let items = clone_tray_items(&s.items);
                let label = s.label.clone();
                let ghost sub = TraySubmenu { label, items };
                let r = TrayMenuItem::Submenu(TraySubmenu { label, items });
                proof {
                    lemma_tray_item_view_submenu(sub);
                    lemma_tray_item_view_submenu(*s);
                    assert(r.deep_view() =~= self.deep_view());
                }
                r
            },
        }
    }
}

impl Clone for TraySubmenu {
    /// A deep copy with the same value.
    fn clone(&self) -> (r: Self)
        ensures
            r.deep_view() == self.deep_view(),
    {
        let r = TraySubmenu { label: self.label.clone(), items: clone_tray_items(&self.items) };
        proof {
            assert(r.deep_view() =~= self.deep_view());
        }
        r
    }
}

impl Clone for TrayMenuModel {
    /// A deep copy with the same value.
    fn clone(&self) -> (r: Self)
        ensures
            r@ == self@,
    {
        TrayMenuModel { items: clone_tray_items(&self.items) }
    }
}

impl Clone for TrayIcon {
    /// A deep copy with the same value.
    fn clone(&self) -> (r: Self)
        ensures
            r@ == self@,
    {
        match self {
            TrayIcon::Png { bytes, is_template } => TrayIcon::Png {
                bytes: bytes.clone(),
                is_template: *is_template,
            },
        }
    }
}

} // verus!
