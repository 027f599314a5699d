use vstd::prelude::*;
use crate::menu::{ItemV, MenuItem};

verus! {

/// One top-level menu of the menu bar: a label, its items, and an optional
/// role used for canonical ordering and for marking the application menu.
#[derive(Debug, PartialEq)]
pub struct TopMenu {
    pub label: String,
    pub items: Vec<MenuItem>,
    pub role: Option<TopMenuRole>,
}

/// The semantic roles a top-level menu may carry; they fix the canonical
/// left-to-right order of the menu bar.
#[derive(Debug, Clone, Copy, PartialEq, Eq, Hash, Structural)]
pub enum TopMenuRole {
    App,
    File,
    Edit,
    View,
    Window,
    Help,
}

/// The whole application menu bar: an ordered sequence of top-level menus.
#[derive(Debug, PartialEq)]
pub struct MenuBarModel {
    pub menus: Vec<TopMenu>,
}

/// The mathematical value of a top-level menu.
#[verifier::ext_equal]
pub struct TopMenuV {
    pub label: Seq<char>,
    pub items: Seq<ItemV>,
    pub role: Option<TopMenuRole>,
}

impl DeepView for TopMenu {
    type V = TopMenuV;

    open spec fn deep_view(&self) -> TopMenuV {
        TopMenuV { label: self.label@, items: self.items.deep_view(), role: self.role }
    }
}

impl View for TopMenu {
    type V = TopMenuV;

    open spec fn view(&self) -> TopMenuV {
        self.deep_view()
    }
}

impl View for MenuBarModel {
    type V = Seq<TopMenuV>;

    open spec fn view(&self) -> Seq<TopMenuV> {
        self.menus.deep_view()
    }
}

impl TopMenu {
    /// A top menu labelled `label` holding `items`, with no role.
    pub fn new(label: String, items: Vec<MenuItem>) -> (r: Self)
        ensures
            r@ == (TopMenuV { label: label@, items: items.deep_view(), role: None }),
    {
        TopMenu { label, items, role: None }
    }

    /// The same menu with its role set to `role`.
    pub fn with_role(self, role: TopMenuRole) -> (r: Self)
        ensures
            r@ == (TopMenuV {
                label: self.label@,
                items: self.items.deep_view(),
                role: Some(role),
            }),
    {
        TopMenu { role: Some(role), ..self }
    }
}

impl MenuBarModel {
    /// A menu bar holding exactly `menus`.
    pub fn new(menus: Vec<TopMenu>) -> (r: Self)
        ensures
            r@ == menus.deep_view(),
    {
        MenuBarModel { menus }
    }
}


impl Clone for TopMenu {
    /// A deep copy with the same value.
    fn clone(&self) -> (r: Self)
        ensures
            r.deep_view() == self.deep_view(),
    {
        let r = TopMenu {
            label: self.label.clone(),
            items: crate::menu::clone_menu_items(&self.items),
            role: self.role,
        };
        proof {
            assert(r.deep_view() =~= self.deep_view());
        }
        r
    }
}

impl Clone for MenuBarModel {
    /// A deep copy with the same value.
    fn clone(&self) -> (r: Self)
        ensures
            r@ == self@,
    {
        let mut menus: Vec<TopMenu> = Vec::new();
        let mut i: usize = 0;
        while i < self.menus.len()
            invariant
                i <= self.menus.len(),
                menus@.len() == i,
                forall|j: int| 0 <= j < i ==> menus.deep_view()[j] == self.menus.deep_view()[j],
            decreases self.menus.len() - i,
        {
            let ghost prev = menus.deep_view();
            let m = self.menus[i].clone();
            menus.push(m);
            proof {
                assert(menus.deep_view() =~= prev.push(self.menus@[i as int].deep_view()));
            }
            i += 1;
        }
        proof {
            assert(menus.deep_view() =~= self.menus.deep_view());
        }
        MenuBarModel { menus }
    }
}

} // verus!
