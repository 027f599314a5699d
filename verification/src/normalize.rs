use vstd::prelude::*;
use crate::menu::{ItemV, MenuItem, MenuItemRole, Submenu};
use crate::menubar::{MenuBarModel, TopMenu, TopMenuRole, TopMenuV};

verus! {

broadcast use crate::menu::lemma_item_view_submenu;

// Normalization turns an application-supplied menu bar into the canonical
// form a native shell expects: top menus are stably ordered by a role-derived
// priority, and the items of the menu tagged with the App role are re-grouped
// into fixed sections separated by single separators.

/// The priority a top-menu role sorts by; unroled menus sort last.
pub open spec fn spec_top_menu_order(role: Option<TopMenuRole>) -> int {
    match role {
        Some(TopMenuRole::App) => 0,
        Some(TopMenuRole::File) => 1,
        Some(TopMenuRole::Edit) => 2,
        Some(TopMenuRole::View) => 3,
        Some(TopMenuRole::Window) => 4,
        Some(TopMenuRole::Help) => 5,
        None => 100,
    }
}

/// The priority a top-menu role sorts by.
pub fn top_menu_order(role: Option<TopMenuRole>) -> (r: usize)
    ensures
        r == spec_top_menu_order(role),
{
    match role {
        Some(TopMenuRole::App) => 0,
        Some(TopMenuRole::File) => 1,
        Some(TopMenuRole::Edit) => 2,
        Some(TopMenuRole::View) => 3,
        Some(TopMenuRole::Window) => 4,
        Some(TopMenuRole::Help) => 5,
        None => 100,
    }
}

/// Whether a role falls outside the fixed app-menu sections and is appended
/// as a trailing single-item section instead.
pub open spec fn extra_role(r: MenuItemRole) -> bool {
    r is Minimize || r is Zoom || r is BringAllToFront
}

/// The running state of the single pass that buckets the app menu's direct
/// items: one slot per sectioned role, the trailing roled items in first
/// occurrence order, and the custom items in original order.
#[verifier::ext_equal]
pub struct AppScanV {
    pub about: Option<ItemV>,
    pub prefs: Option<ItemV>,
    pub services: Option<ItemV>,
    pub hide: Option<ItemV>,
    pub hide_others: Option<ItemV>,
    pub show_all: Option<ItemV>,
    pub quit: Option<ItemV>,
    pub extras: Seq<ItemV>,
    pub custom: Seq<ItemV>,
}

/// The scan state before any item was seen.
pub open spec fn scan_empty() -> AppScanV {
    AppScanV {
        about: None,
        prefs: None,
        services: None,
        hide: None,
        hide_others: None,
        show_all: None,
        quit: None,
        extras: Seq::empty(),
        custom: Seq::empty(),
    }
}

/// Whether a trailing-section role already occurred among `extras`.
pub open spec fn seen_extra(extras: Seq<ItemV>, r: MenuItemRole) -> bool {
    exists|i: int| 0 <= i < extras.len() && (#[trigger] extras[i]).role_of() == Some(r)
}

/// Appending one item extends the seen roles by exactly that item's role.
pub proof fn lemma_seen_extra_push(es: Seq<ItemV>, item: ItemV, r: MenuItemRole)
    ensures
        seen_extra(es.push(item), r) == (seen_extra(es, r) || item.role_of() == Some(r)),
{
    let es2 = es.push(item);
    if seen_extra(es, r) {
        let i = choose|i: int| 0 <= i < es.len() && (#[trigger] es[i]).role_of() == Some(r);
        assert(es2[i].role_of() == Some(r));
    }
    if item.role_of() == Some(r) {
        assert(es2[es.len() as int].role_of() == Some(r));
    }
    if seen_extra(es2, r) {
        let i = choose|i: int| 0 <= i < es2.len() && (#[trigger] es2[i]).role_of() == Some(r);
        if i < es.len() {
            assert(es[i].role_of() == Some(r));
        }
    }
}

/// One step of the bucketing pass. The first item carrying a sectioned role
/// claims that role's slot; later items with the same role count as custom.
/// Separators are dropped: the section boundaries replace them.
pub open spec fn scan_step(st: AppScanV, item: ItemV) -> AppScanV {
    if item is Separator {
        st
    } else {
        match item.role_of() {
            None => AppScanV { custom: st.custom.push(item), ..st },
            Some(r) => match r {
                MenuItemRole::About => if st.about is None {
                    AppScanV { about: Some(item), ..st }
                } else {
                    AppScanV { custom: st.custom.push(item), ..st }
                },
                MenuItemRole::Preferences => if st.prefs is None {
                    AppScanV { prefs: Some(item), ..st }
                } else {
                    AppScanV { custom: st.custom.push(item), ..st }
                },
                MenuItemRole::Services => if st.services is None {
                    AppScanV { services: Some(item), ..st }
                } else {
                    AppScanV { custom: st.custom.push(item), ..st }
                },
                MenuItemRole::Hide => if st.hide is None {
                    AppScanV { hide: Some(item), ..st }
                } else {
                    AppScanV { custom: st.custom.push(item), ..st }
                },
                MenuItemRole::HideOthers => if st.hide_others is None {
                    AppScanV { hide_others: Some(item), ..st }
                } else {
                    AppScanV { custom: st.custom.push(item), ..st }
                },
                MenuItemRole::ShowAll => if st.show_all is None {
                    AppScanV { show_all: Some(item), ..st }
                } else {
                    AppScanV { custom: st.custom.push(item), ..st }
                },
                MenuItemRole::Quit => if st.quit is None {
                    AppScanV { quit: Some(item), ..st }
                } else {
                    AppScanV { custom: st.custom.push(item), ..st }
                },
                _ => if !seen_extra(st.extras, r) {
                    AppScanV { extras: st.extras.push(item), ..st }
                } else {
                    AppScanV { custom: st.custom.push(item), ..st }
                },
            },
        }
    }
}

/// The bucketing pass over a sequence of items, from the left.
pub open spec fn scan_items(st: AppScanV, s: Seq<ItemV>) -> AppScanV
    decreases s.len(),
{
    if s.len() == 0 {
        st
    } else {
        scan_items(scan_step(st, s[0]), s.drop_first())
    }
}

/// A slot rendered as a section: empty when the role never occurred.
pub open spec fn opt_section(o: Option<ItemV>) -> Seq<ItemV> {
    match o {
        Some(x) => seq![x],
        None => Seq::empty(),
    }
}

/// The Hide / HideOthers / ShowAll items in that fixed order, each included
/// only when present.
pub open spec fn hide_section(st: AppScanV) -> Seq<ItemV> {
    opt_section(st.hide) + opt_section(st.hide_others) + opt_section(st.show_all)
}

/// The ordered sections of the normalized app menu.
pub open spec fn sections_of(st: AppScanV) -> Seq<Seq<ItemV>> {
    seq![
        opt_section(st.about),
        st.custom,
        opt_section(st.prefs),
        opt_section(st.services),
        hide_section(st),
        opt_section(st.quit),
    ] + st.extras.map_values(|x: ItemV| seq![x])
}

/// Sections joined into one item list, with one separator between adjacent
/// non-empty sections and empty sections skipped entirely.
pub open spec fn join_sections(ss: Seq<Seq<ItemV>>) -> Seq<ItemV>
    decreases ss.len(),
{
    if ss.len() == 0 {
        Seq::empty()
    } else {
        let rest = join_sections(ss.drop_last());
        let last = ss.last();
        if last.len() == 0 {
            rest
        } else if rest.len() == 0 {
            last
        } else {
            rest + seq![ItemV::Separator] + last
        }
    }
}

/// The normalized form of the app menu's direct items.
#[verifier::opaque]
pub open spec fn spec_normalize_app_items(s: Seq<ItemV>) -> Seq<ItemV> {
    join_sections(sections_of(scan_items(scan_empty(), s)))
}

/// The predicate holding of menus with priority `p`.
pub open spec fn prio_is(p: int) -> spec_fn(TopMenuV) -> bool {
    |m: TopMenuV| spec_top_menu_order(m.role) == p
}

/// The menus of priority `p`, in original order.
pub open spec fn bucket(s: Seq<TopMenuV>, p: int) -> Seq<TopMenuV> {
    s.filter(prio_is(p))
}

/// Top menus stably sorted by priority: each priority's menus keep their
/// original relative order.
#[verifier::opaque]
pub open spec fn sort_menus(s: Seq<TopMenuV>) -> Seq<TopMenuV> {
    bucket(s, 0) + bucket(s, 1) + bucket(s, 2) + bucket(s, 3) + bucket(s, 4) + bucket(s, 5)
        + bucket(s, 100)
}

/// A top menu after normalization: only the App-role menu has its items
/// re-sectioned.
pub open spec fn normalize_top(m: TopMenuV) -> TopMenuV {
    if m.role == Some(TopMenuRole::App) {
        TopMenuV { items: spec_normalize_app_items(m.items), ..m }
    } else {
        m
    }
}

/// The normalized form of a whole menu bar.
#[verifier::opaque]
pub open spec fn spec_normalize_bar(s: Seq<TopMenuV>) -> Seq<TopMenuV> {
    sort_menus(s).map_values(|m: TopMenuV| normalize_top(m))
}

/// The view of an optional menu item.
pub open spec fn opt_item_view(o: Option<MenuItem>) -> Option<ItemV> {
    match o {
        Some(ref x) => Some(x.deep_view()),
        None => None,
    }
}

/// The executable counterpart of the bucketing state.
struct AppScan {
    about: Option<MenuItem>,
    prefs: Option<MenuItem>,
    services: Option<MenuItem>,
    hide: Option<MenuItem>,
    hide_others: Option<MenuItem>,
    show_all: Option<MenuItem>,
    quit: Option<MenuItem>,
    extras: Vec<MenuItem>,
    custom: Vec<MenuItem>,
    seen_minimize: bool,
    seen_zoom: bool,
    seen_front: bool,
}

impl View for AppScan {
    type V = AppScanV;

    closed spec fn view(&self) -> AppScanV {
        AppScanV {
            about: opt_item_view(self.about),
            prefs: opt_item_view(self.prefs),
            services: opt_item_view(self.services),
            hide: opt_item_view(self.hide),
            hide_others: opt_item_view(self.hide_others),
            show_all: opt_item_view(self.show_all),
            quit: opt_item_view(self.quit),
            extras: self.extras.deep_view(),
            custom: self.custom.deep_view(),
        }
    }
}

impl AppScan {
    /// The flags cache which trailing roles occurred, so one step needs no
    /// search of the extras already collected.
    spec fn flags_ok(self) -> bool {
        &&& self.seen_minimize == seen_extra(self@.extras, MenuItemRole::Minimize)
        &&& self.seen_zoom == seen_extra(self@.extras, MenuItemRole::Zoom)
        &&& self.seen_front == seen_extra(self@.extras, MenuItemRole::BringAllToFront)
    }

    fn empty() -> (r: Self)
        ensures
            r@ == scan_empty(),
            r.flags_ok(),
    {
        let r = AppScan {
            about: None,
            prefs: None,
            services: None,
            hide: None,
            hide_others: None,
            show_all: None,
            quit: None,
            extras: Vec::new(),
            custom: Vec::new(),
            seen_minimize: false,
            seen_zoom: false,
            seen_front: false,
        };
        proof {
            assert(r@ =~= scan_empty());
        }
        r
    }

    /// Feed one item through the bucketing step.
    fn step(&mut self, item: MenuItem)
        requires
            old(self).flags_ok(),
        ensures
            final(self)@ == scan_step(old(self)@, item.deep_view()),
            final(self).flags_ok(),
    {
        let ghost st0 = self@;
        let ghost iv = item.deep_view();
        match item {
            MenuItem::Separator => {
                proof {
                    assert(self@ =~= scan_step(st0, iv));
                }
            },
            MenuItem::Submenu(s) => {
                self.custom.push(MenuItem::Submenu(s));
                proof {
                    assert(self.custom.deep_view() =~= st0.custom.push(iv));
                    assert(self@ =~= scan_step(st0, iv));
                }
            },
            MenuItem::Command(cmd) => {
                let role = cmd.role;
                match role {
                    None => {
                        self.custom.push(MenuItem::Command(cmd));
                        proof {
                            assert(self.custom.deep_view() =~= st0.custom.push(iv));
                            assert(self@ =~= scan_step(st0, iv));
                        }
                    },
                    Some(MenuItemRole::About) => {
                        if self.about.is_none() {
                            self.about = Some(MenuItem::Command(cmd));
                        } else {
                            self.custom.push(MenuItem::Command(cmd));
                            proof {
                                assert(self.custom.deep_view() =~= st0.custom.push(iv));
                            }
                        }
                        proof {
                            assert(self@ =~= scan_step(st0, iv));
                        }
                    },
                    Some(MenuItemRole::Preferences) => {
                        if self.prefs.is_none() {
                            self.prefs = Some(MenuItem::Command(cmd));
                        } else {
                            self.custom.push(MenuItem::Command(cmd));
                            proof {
                                assert(self.custom.deep_view() =~= st0.custom.push(iv));
                            }
                        }
                        proof {
                            assert(self@ =~= scan_step(st0, iv));
                        }
                    },
                    Some(MenuItemRole::Services) => {
                        if self.services.is_none() {
                            self.services = Some(MenuItem::Command(cmd));
                        } else {
                            self.custom.push(MenuItem::Command(cmd));
                            proof {
                                assert(self.custom.deep_view() =~= st0.custom.push(iv));
                            }
                        }
                        proof {
                            assert(self@ =~= scan_step(st0, iv));
                        }
                    },
                    Some(MenuItemRole::Hide) => {
                        if self.hide.is_none() {
                            self.hide = Some(MenuItem::Command(cmd));
                        } else {
                            self.custom.push(MenuItem::Command(cmd));
                            proof {
                                assert(self.custom.deep_view() =~= st0.custom.push(iv));
                            }
                        }
                        proof {
                            assert(self@ =~= scan_step(st0, iv));
                        }
                    },
                    Some(MenuItemRole::HideOthers) => {
                        if self.hide_others.is_none() {
                            self.hide_others = Some(MenuItem::Command(cmd));
                        } else {
                            self.custom.push(MenuItem::Command(cmd));
                            proof {
                                assert(self.custom.deep_view() =~= st0.custom.push(iv));
                            }
                        }
                        proof {
                            assert(self@ =~= scan_step(st0, iv));
                        }
                    },
                    Some(MenuItemRole::ShowAll) => {
                        if self.show_all.is_none() {
                            self.show_all = Some(MenuItem::Command(cmd));
                        } else {
                            self.custom.push(MenuItem::Command(cmd));
                            proof {
                                assert(self.custom.deep_view() =~= st0.custom.push(iv));
                            }
                        }
                        proof {
                            assert(self@ =~= scan_step(st0, iv));
                        }
                    },
                    Some(MenuItemRole::Quit) => {
                        if self.quit.is_none() {
                            self.quit = Some(MenuItem::Command(cmd));
                        } else {
                            self.custom.push(MenuItem::Command(cmd));
                            proof {
                                assert(self.custom.deep_view() =~= st0.custom.push(iv));
                            }
                        }
                        proof {
                            assert(self@ =~= scan_step(st0, iv));
                        }
                    },
                    Some(MenuItemRole::Minimize) => {
                        if !self.seen_minimize {
                            self.seen_minimize = true;
                            self.extras.push(MenuItem::Command(cmd));
                            proof {
                                assert(self.extras.deep_view() =~= st0.extras.push(iv));
                            }
                        } else {
                            self.custom.push(MenuItem::Command(cmd));
                            proof {
                                assert(self.custom.deep_view() =~= st0.custom.push(iv));
                            }
                        }
                        proof {
                            lemma_seen_extra_push(st0.extras, iv, MenuItemRole::Minimize);
                            lemma_seen_extra_push(st0.extras, iv, MenuItemRole::Zoom);
                            lemma_seen_extra_push(st0.extras, iv, MenuItemRole::BringAllToFront);
                            assert(self@ =~= scan_step(st0, iv));
                        }
                    },
                    Some(MenuItemRole::Zoom) => {
                        if !self.seen_zoom {
                            self.seen_zoom = true;
                            self.extras.push(MenuItem::Command(cmd));
                            proof {
                                assert(self.extras.deep_view() =~= st0.extras.push(iv));
                            }
                        } else {
                            self.custom.push(MenuItem::Command(cmd));
                            proof {
                                assert(self.custom.deep_view() =~= st0.custom.push(iv));
                            }
                        }
                        proof {
                            lemma_seen_extra_push(st0.extras, iv, MenuItemRole::Minimize);
                            lemma_seen_extra_push(st0.extras, iv, MenuItemRole::Zoom);
                            lemma_seen_extra_push(st0.extras, iv, MenuItemRole::BringAllToFront);
                            assert(self@ =~= scan_step(st0, iv));
                        }
                    },
                    Some(MenuItemRole::BringAllToFront) => {
                        if !self.seen_front {
                            self.seen_front = true;
                            self.extras.push(MenuItem::Command(cmd));
                            proof {
                                assert(self.extras.deep_view() =~= st0.extras.push(iv));
                            }
                        } else {
                            self.custom.push(MenuItem::Command(cmd));
                            proof {
                                assert(self.custom.deep_view() =~= st0.custom.push(iv));
                            }
                        }
                        proof {
                            lemma_seen_extra_push(st0.extras, iv, MenuItemRole::Minimize);
                            lemma_seen_extra_push(st0.extras, iv, MenuItemRole::Zoom);
                            lemma_seen_extra_push(st0.extras, iv, MenuItemRole::BringAllToFront);
                            assert(self@ =~= scan_step(st0, iv));
                        }
                    },
                }
            },
        }
    }
}

/// One more section joined onto an already-joined prefix.
pub open spec fn join2(a: Seq<ItemV>, b: Seq<ItemV>) -> Seq<ItemV> {
    if b.len() == 0 {
        a
    } else if a.len() == 0 {
        b
    } else {
        a + seq![ItemV::Separator] + b
    }
}

/// Joining sections one at a time agrees with `join_sections`.
pub proof fn lemma_join_sections_push(ss: Seq<Seq<ItemV>>, t: Seq<ItemV>)
    ensures
        join_sections(ss.push(t)) == join2(join_sections(ss), t),
{
    assert(ss.push(t).drop_last() =~= ss);
    assert(ss.push(t).last() == t);
}

/// Append `section` to the joined output: a separator first when both sides
/// are non-empty, nothing at all when the section is empty.
fn append_section(out: &mut Vec<MenuItem>, section: Vec<MenuItem>)
    ensures
        final(out).deep_view() == join2(old(out).deep_view(), section.deep_view()),
{
    let ghost a = old(out).deep_view();
    let ghost b = section.deep_view();
    let mut section = section;
    if section.len() == 0 {
        proof {
            assert(out.deep_view() =~= join2(a, b));
        }
        return;
    }
    if out.len() > 0 {
        out.push(MenuItem::Separator);
    }
    out.append(&mut section);
    proof {
        assert(out.deep_view() =~= join2(a, b));
    }
}

/// Append a single-item section, or nothing when the slot is empty.
fn append_opt_section(out: &mut Vec<MenuItem>, o: Option<MenuItem>)
    ensures
        final(out).deep_view() == join2(old(out).deep_view(), opt_section(opt_item_view(o))),
{
    let ghost a = old(out).deep_view();
    match o {
        None => {
            proof {
                assert(out.deep_view() =~= join2(a, opt_section(None)));
            }
        },
        Some(item) => {
            let ghost b = opt_section(Some(item.deep_view()));
            if out.len() > 0 {
                out.push(MenuItem::Separator);
            }
            out.push(item);
            proof {
                assert(out.deep_view() =~= join2(a, b));
            }
        },
    }
}

/// Re-section the direct items of the App-role menu: the About item first,
/// then the custom items, Preferences, Services, the Hide group, Quit, and
/// finally each remaining roled item as its own trailing section, in the
/// order those roles first occur, with one separator between adjacent
/// non-empty sections. Trailing sections are deliberately kept in first
/// occurrence order so the result is deterministic.
pub fn normalize_app_menu_items(items: Vec<MenuItem>) -> (r: Vec<MenuItem>)
    ensures
        r.deep_view() == spec_normalize_app_items(items.deep_view()),
{
    let ghost s = items.deep_view();
    let mut rest = items;
    let mut st = AppScan::empty();
    while rest.len() > 0
        invariant
            st.flags_ok(),
            scan_items(st@, rest.deep_view()) == scan_items(scan_empty(), s),
        decreases rest.len(),
    {
        let ghost rv = rest.deep_view();
        let item = rest.remove(0);
        proof {
            assert(rest.deep_view() =~= rv.drop_first());
            assert(rv[0] == item.deep_view());
        }
        st.step(item);
    }
    let ghost stv = st@;
    proof {
        assert(stv == scan_items(scan_empty(), s));
    }
    let AppScan { about, prefs, services, hide, hide_others, show_all, quit, extras, custom, .. } =
        st;
    let mut out: Vec<MenuItem> = Vec::new();
    let ghost mut done: Seq<Seq<ItemV>> = Seq::empty();
    proof {
        assert(out.deep_view() =~= join_sections(done));
    }
    append_opt_section(&mut out, about);
    proof {
        lemma_join_sections_push(done, opt_section(stv.about));
        done = done.push(opt_section(stv.about));
    }
    append_section(&mut out, custom);
    proof {
        lemma_join_sections_push(done, stv.custom);
        done = done.push(stv.custom);
    }
    append_opt_section(&mut out, prefs);
    proof {
        lemma_join_sections_push(done, opt_section(stv.prefs));
        done = done.push(opt_section(stv.prefs));
    }
    append_opt_section(&mut out, services);
    proof {
        lemma_join_sections_push(done, opt_section(stv.services));
        done = done.push(opt_section(stv.services));
    }
    let mut hide_vec: Vec<MenuItem> = Vec::new();
    if let Some(x) = hide {
        hide_vec.push(x);
    }
    if let Some(x) = hide_others {
        hide_vec.push(x);
    }
    if let Some(x) = show_all {
        hide_vec.push(x);
    }
    proof {
        assert(hide_vec.deep_view() =~= hide_section(stv));
    }
    append_section(&mut out, hide_vec);
    proof {
        lemma_join_sections_push(done, hide_section(stv));
        done = done.push(hide_section(stv));
    }
    append_opt_section(&mut out, quit);
    proof {
        lemma_join_sections_push(done, opt_section(stv.quit));
        done = done.push(opt_section(stv.quit));
    }
    let ghost base = done;
    let ghost exs = stv.extras;
    let ghost sing = |x: ItemV| seq![x];
    let mut ex = extras;
    let ghost mut k: int = 0;
    proof {
        assert(ex.deep_view() =~= exs.skip(0));
        assert(exs.take(0).map_values(sing) =~= Seq::<Seq<ItemV>>::empty());
        assert(done =~= base + exs.take(0).map_values(sing));
    }
    while ex.len() > 0
        invariant
            0 <= k <= exs.len(),
            ex.deep_view() == exs.skip(k),
            out.deep_view() == join_sections(done),
            done == base + exs.take(k).map_values(|x: ItemV| seq![x]),
        decreases ex.len(),
    {
        let ghost exv = ex.deep_view();
        let e = ex.remove(0);
        proof {
            assert(ex.deep_view() =~= exv.drop_first());
            assert(exv[0] == e.deep_view());
            assert(e.deep_view() == exs[k]);
            assert(exs.skip(k).drop_first() =~= exs.skip(k + 1));
        }
        append_opt_section(&mut out, Some(e));
        proof {
            lemma_join_sections_push(done, seq![exs[k]]);
            assert(opt_section(Some(exs[k])) =~= seq![exs[k]]);
            done = done.push(seq![exs[k]]);
            let f = |x: ItemV| seq![x];
            assert(exs.take(k + 1).map_values(f) =~= exs.take(k).map_values(f).push(seq![exs[k]]));
            assert((base + exs.take(k).map_values(f)).push(seq![exs[k]]) =~= base + exs.take(k + 1).map_values(f));
            k = k + 1;
        }
    }
    proof {
        reveal(spec_normalize_app_items);
        assert(exs.take(k) =~= exs);
        assert(done =~= sections_of(stv));
        assert(out.deep_view() == spec_normalize_app_items(s));
    }
    out
}

// --- Idempotence ---------------------------------------------------------
//
// Normalizing an already-normalized menu bar changes nothing. The proof
// re-scans the assembled app menu and shows every item lands back in the
// bucket it came from, then shows the priority sort and the per-menu pass
// are stable.

/// Whether no role occurs on two different direct items.
pub open spec fn distinct_roles(s: Seq<ItemV>) -> bool {
    forall|i: int, j: int|
        0 <= i < j < s.len() && (#[trigger] s[i]).role_of() is Some ==> s[i].role_of() != (
        #[trigger] s[j]).role_of()
}

/// Filtering keeps everything when the predicate holds everywhere.
proof fn lemma_filter_all<A>(s: Seq<A>, pred: spec_fn(A) -> bool)
    requires
        forall|i: int| 0 <= i < s.len() ==> pred(#[trigger] s[i]),
    ensures
        s.filter(pred) == s,
    decreases s.len(),
{
    reveal(Seq::filter);
    if s.len() > 0 {
        lemma_filter_all(s.drop_last(), pred);
        assert(s.drop_last().push(s.last()) =~= s);
    }
}

/// Every element of a filtered sequence comes from the original.
proof fn lemma_filter_subset<A>(s: Seq<A>, pred: spec_fn(A) -> bool)
    ensures
        forall|i: int| 0 <= i < s.filter(pred).len() ==> s.contains(#[trigger] s.filter(pred)[i]),
    decreases s.len(),
{
    reveal(Seq::filter);
    if s.len() > 0 {
        lemma_filter_subset(s.drop_last(), pred);
        assert forall|i: int| 0 <= i < s.filter(pred).len() implies s.contains(
            #[trigger] s.filter(pred)[i],
        ) by {
            let f = s.filter(pred);
            let fd = s.drop_last().filter(pred);
            if pred(s.last()) {
                if i < f.len() - 1 {
                    assert(f[i] == fd[i]);
                    assert(s.drop_last().contains(fd[i]));
                    let j = choose|j: int|
                        0 <= j < s.drop_last().len() && s.drop_last()[j] == fd[i];
                    assert(s[j] == fd[i]);
                } else {
                    assert(f[i] == s.last());
                    assert(s[s.len() - 1] == s.last());
                }
            } else {
                assert(f[i] == fd[i]);
                assert(s.drop_last().contains(fd[i]));
                let j = choose|j: int| 0 <= j < s.drop_last().len() && s.drop_last()[j] == fd[i];
                assert(s[j] == fd[i]);
            }
        }
    }
}

/// Scanning a concatenation is scanning the first part, then the second.
proof fn lemma_scan_items_app(st: AppScanV, a: Seq<ItemV>, b: Seq<ItemV>)
    ensures
        scan_items(st, a + b) == scan_items(scan_items(st, a), b),
    decreases a.len(),
{
    if a.len() == 0 {
        assert(a + b =~= b);
    } else {
        assert((a + b)[0] == a[0]);
        assert((a + b).drop_first() =~= a.drop_first() + b);
        lemma_scan_items_app(scan_step(st, a[0]), a.drop_first(), b);
    }
}

/// Scanning a single item is one step.
proof fn lemma_scan_single(st: AppScanV, x: ItemV)
    ensures
        scan_items(st, seq![x]) == scan_step(st, x),
{
    let single = seq![x];
    assert(single.drop_first() =~= Seq::<ItemV>::empty());
    assert(scan_items(scan_step(st, x), Seq::<ItemV>::empty()) == scan_step(st, x));
}

/// The items that are not separators.
pub open spec fn strip_seps(s: Seq<ItemV>) -> Seq<ItemV> {
    s.filter(|x: ItemV| !(x is Separator))
}

/// The scan never looks at separators.
proof fn lemma_scan_skips_seps(st: AppScanV, s: Seq<ItemV>)
    ensures
        scan_items(st, s) == scan_items(st, strip_seps(s)),
    decreases s.len(),
{
    let pred = |x: ItemV| !(x is Separator);
    if s.len() == 0 {
        lemma_filter_empty::<ItemV>(pred);
    } else {
        lemma_filter_cons(s, pred);
        if s[0] is Separator {
            assert(scan_step(st, s[0]) == st);
            lemma_scan_skips_seps(st, s.drop_first());
        } else {
            lemma_scan_skips_seps(scan_step(st, s[0]), s.drop_first());
            assert(strip_seps(s) == seq![s[0]] + strip_seps(s.drop_first()));
            assert((seq![s[0]] + strip_seps(s.drop_first()))[0] == s[0]);
            assert((seq![s[0]] + strip_seps(s.drop_first())).drop_first() =~= strip_seps(
                s.drop_first(),
            ));
        }
    }
}

/// Stripping separators distributes over a join step, and a join introduces
/// only separators.
proof fn lemma_strip_join2(a: Seq<ItemV>, b: Seq<ItemV>)
    ensures
        strip_seps(join2(a, b)) == strip_seps(a) + strip_seps(b),
{
    let pred = |x: ItemV| !(x is Separator);
    if b.len() == 0 {
        lemma_filter_empty::<ItemV>(pred);
        assert(strip_seps(a) + strip_seps(b) =~= strip_seps(a));
    } else if a.len() == 0 {
        lemma_filter_empty::<ItemV>(pred);
        assert(strip_seps(a) + strip_seps(b) =~= strip_seps(b));
    } else {
        let sep = seq![ItemV::Separator];
        Seq::<ItemV>::filter_distributes_over_add(a, sep, pred);
        Seq::<ItemV>::filter_distributes_over_add(a + sep, b, pred);
        lemma_filter_cons(sep, pred);
        lemma_filter_empty::<ItemV>(pred);
        assert(sep.drop_first() =~= Seq::<ItemV>::empty());
        assert(strip_seps(sep) =~= Seq::<ItemV>::empty());
        assert((a + sep) + b =~= a + sep + b);
        assert(strip_seps(a) + strip_seps(sep) =~= strip_seps(a));
    }
}

/// Whether an item carries one of the trailing-section roles.
pub open spec fn is_extra_item(x: ItemV) -> bool {
    match x.role_of() {
        Some(r) => extra_role(r),
        None => false,
    }
}

/// Whether the scan already holds an item for role `r`.
pub open spec fn filled(st: AppScanV, r: MenuItemRole) -> bool {
    match r {
        MenuItemRole::About => st.about is Some,
        MenuItemRole::Preferences => st.prefs is Some,
        MenuItemRole::Services => st.services is Some,
        MenuItemRole::Hide => st.hide is Some,
        MenuItemRole::HideOthers => st.hide_others is Some,
        MenuItemRole::ShowAll => st.show_all is Some,
        MenuItemRole::Quit => st.quit is Some,
        _ => seen_extra(st.extras, r),
    }
}

/// Whether a slot, when occupied, holds an item of its own role.
pub open spec fn slot_role_ok(o: Option<ItemV>, r: MenuItemRole) -> bool {
    match o {
        Some(x) => x.role_of() == Some(r),
        None => true,
    }
}

/// The shape of a scan state reached from distinct-roled input: every slot
/// holds an item of its role, the trailing items carry pairwise distinct
/// trailing roles, and the custom bucket holds only unroled non-separators.
pub open spec fn scan_wf(st: AppScanV) -> bool {
    &&& slot_role_ok(st.about, MenuItemRole::About)
    &&& slot_role_ok(st.prefs, MenuItemRole::Preferences)
    &&& slot_role_ok(st.services, MenuItemRole::Services)
    &&& slot_role_ok(st.hide, MenuItemRole::Hide)
    &&& slot_role_ok(st.hide_others, MenuItemRole::HideOthers)
    &&& slot_role_ok(st.show_all, MenuItemRole::ShowAll)
    &&& slot_role_ok(st.quit, MenuItemRole::Quit)
    &&& forall|i: int| 0 <= i < st.extras.len() ==> is_extra_item(#[trigger] st.extras[i])
    &&& forall|i: int, j: int|
        0 <= i < j < st.extras.len() ==> (#[trigger] st.extras[i]).role_of() != (
        #[trigger] st.extras[j]).role_of()
    &&& forall|i: int|
        0 <= i < st.custom.len() ==> !((#[trigger] st.custom[i]) is Separator)
            && st.custom[i].role_of() is None
}

/// Whether none of the roles occurring in `s` is already filled.
pub open spec fn compat(st: AppScanV, s: Seq<ItemV>) -> bool {
    forall|i: int|
        0 <= i < s.len() ==> match (#[trigger] s[i]).role_of() {
            Some(r) => !filled(st, r),
            None => true,
        }
}

/// One step keeps the scan well formed, and fills exactly the stepped
/// item's role.
proof fn lemma_scan_step_wf(st: AppScanV, item: ItemV)
    requires
        scan_wf(st),
        match item.role_of() {
            Some(r) => !filled(st, r),
            None => true,
        },
    ensures
        scan_wf(scan_step(st, item)),
        forall|r2: MenuItemRole|
            filled(scan_step(st, item), r2) == (filled(st, r2) || item.role_of() == Some(r2)),
{
    let st2 = scan_step(st, item);
    assert forall|r2: MenuItemRole|
        filled(st2, r2) == (filled(st, r2) || item.role_of() == Some(r2)) by {
        if !(item is Separator) {
            match item.role_of() {
                Some(r) => {
                    if extra_role(r) {
                        lemma_seen_extra_push(st.extras, item, r2);
                    }
                },
                None => {},
            }
        }
    }
    if !(item is Separator) {
        match item.role_of() {
            Some(r) => {
                if extra_role(r) {
                    assert(st2.extras == st.extras.push(item));
                    assert forall|i: int| 0 <= i < st2.extras.len() implies is_extra_item(
                        #[trigger] st2.extras[i],
                    ) by {
                        if i < st.extras.len() {
                            assert(is_extra_item(st.extras[i]));
                        }
                    }
                    assert forall|i: int, j: int|
                        0 <= i < j < st2.extras.len() implies (
                    #[trigger] st2.extras[i]).role_of() != (#[trigger] st2.extras[j]).role_of() by {
                        if j < st.extras.len() {
                            assert(st.extras[i].role_of() != st.extras[j].role_of());
                        } else {
                            assert(st2.extras[j] == item);
                            if st.extras[i].role_of() == Some(r) {
                                assert(seen_extra(st.extras, r));
                            }
                        }
                    }
                }
            },
            None => {
                assert(st2.custom == st.custom.push(item));
                assert forall|i: int| 0 <= i < st2.custom.len() implies !((
                #[trigger] st2.custom[i]) is Separator) && st2.custom[i].role_of() is None by {
                    if i < st.custom.len() {
                        assert(!(st.custom[i] is Separator) && st.custom[i].role_of() is None);
                    }
                }
            },
        }
    }
}

/// A scan from a well-formed state over distinct-roled, compatible input
/// stays well formed.
proof fn lemma_scan_items_wf(st: AppScanV, s: Seq<ItemV>)
    requires
        scan_wf(st),
        compat(st, s),
        distinct_roles(s),
    ensures
        scan_wf(scan_items(st, s)),
    decreases s.len(),
{
    if s.len() > 0 {
        let st1 = scan_step(st, s[0]);
        lemma_scan_step_wf(st, s[0]);
        assert forall|i: int|
            0 <= i < s.drop_first().len() implies match (#[trigger] s.drop_first()[i]).role_of() {
            Some(r) => !filled(st1, r),
            None => true,
        } by {
            assert(s.drop_first()[i] == s[i + 1]);
            match s[i + 1].role_of() {
                Some(r) => {
                    assert(!filled(st, r));
                    if s[0].role_of() == Some(r) {
                        assert(s[0].role_of() is Some);
                        assert(s[0].role_of() != s[i + 1].role_of());
                    }
                },
                None => {},
            }
        }
        assert forall|i: int, j: int|
            0 <= i < j < s.drop_first().len() && (#[trigger] s.drop_first()[i]).role_of() is Some
                implies s.drop_first()[i].role_of() != (#[trigger] s.drop_first()[j]).role_of() by {
            assert(s.drop_first()[i] == s[i + 1]);
            assert(s.drop_first()[j] == s[j + 1]);
        }
        lemma_scan_items_wf(st1, s.drop_first());
    }
}

/// Scanning items that are all unroled non-separators only extends the
/// custom bucket.
proof fn lemma_scan_customs(st: AppScanV, c: Seq<ItemV>)
    requires
        forall|i: int|
            0 <= i < c.len() ==> !((#[trigger] c[i]) is Separator) && c[i].role_of() is None,
    ensures
        scan_items(st, c) == (AppScanV { custom: st.custom + c, ..st }),
    decreases c.len(),
{
    if c.len() == 0 {
        assert(st.custom + c =~= st.custom);
        assert(scan_items(st, c) =~= AppScanV { custom: st.custom + c, ..st });
    } else {
        let st1 = scan_step(st, c[0]);
        assert(st1 == AppScanV { custom: st.custom.push(c[0]), ..st });
        lemma_scan_customs(st1, c.drop_first());
        assert(st.custom.push(c[0]) + c.drop_first() =~= st.custom + c);
        assert(scan_items(st, c) =~= AppScanV { custom: st.custom + c, ..st });
    }
}

/// Scanning items with pairwise distinct, unseen trailing roles only
/// extends the trailing bucket, in order.
proof fn lemma_scan_extras(st: AppScanV, es: Seq<ItemV>)
    requires
        forall|i: int| 0 <= i < es.len() ==> is_extra_item(#[trigger] es[i]),
        forall|i: int, j: int|
            0 <= i < j < es.len() ==> (#[trigger] es[i]).role_of() != (#[trigger] es[j]).role_of(),
        forall|i: int, j: int|
            0 <= i < st.extras.len() && 0 <= j < es.len() ==> (
            #[trigger] st.extras[i]).role_of() != (#[trigger] es[j]).role_of(),
    ensures
        scan_items(st, es) == (AppScanV { extras: st.extras + es, ..st }),
    decreases es.len(),
{
    if es.len() == 0 {
        assert(st.extras + es =~= st.extras);
        assert(scan_items(st, es) =~= AppScanV { extras: st.extras + es, ..st });
    } else {
        let e0 = es[0];
        let r = e0.role_of()->0;
        assert(is_extra_item(e0));
        if seen_extra(st.extras, r) {
            let i = choose|i: int|
                0 <= i < st.extras.len() && (#[trigger] st.extras[i]).role_of() == Some(r);
            assert(st.extras[i].role_of() != es[0].role_of());
            assert(false);
        }
        let st1 = scan_step(st, e0);
        assert(st1 == AppScanV { extras: st.extras.push(e0), ..st });
        assert forall|i: int, j: int|
            0 <= i < st1.extras.len() && 0 <= j < es.drop_first().len() implies (
        #[trigger] st1.extras[i]).role_of() != (#[trigger] es.drop_first()[j]).role_of() by {
            assert(es.drop_first()[j] == es[j + 1]);
            if i < st.extras.len() {
                assert(st.extras[i].role_of() != es[j + 1].role_of());
            } else {
                assert(st1.extras[i] == e0);
            }
        }
        assert forall|i: int| 0 <= i < es.drop_first().len() implies is_extra_item(
            #[trigger] es.drop_first()[i],
        ) by {
            assert(es.drop_first()[i] == es[i + 1]);
        }
        assert forall|i: int, j: int|
            0 <= i < j < es.drop_first().len() implies (#[trigger] es.drop_first()[i]).role_of()
            != (#[trigger] es.drop_first()[j]).role_of() by {
            assert(es.drop_first()[i] == es[i + 1]);
            assert(es.drop_first()[j] == es[j + 1]);
        }
        lemma_scan_extras(st1, es.drop_first());
        assert(st.extras.push(e0) + es.drop_first() =~= st.extras + es);
        assert(scan_items(st, es) =~= AppScanV { extras: st.extras + es, ..st });
    }
}

/// All sections laid end to end, without separators between them.
pub open spec fn concat_all(ss: Seq<Seq<ItemV>>) -> Seq<ItemV>
    decreases ss.len(),
{
    if ss.len() == 0 {
        Seq::empty()
    } else {
        concat_all(ss.drop_last()) + ss.last()
    }
}

proof fn lemma_concat_all_push(ss: Seq<Seq<ItemV>>, t: Seq<ItemV>)
    ensures
        concat_all(ss.push(t)) == concat_all(ss) + t,
{
    assert(ss.push(t).drop_last() =~= ss);
    assert(ss.push(t).last() == t);
}

proof fn lemma_concat_all_add(a: Seq<Seq<ItemV>>, b: Seq<Seq<ItemV>>)
    ensures
        concat_all(a + b) == concat_all(a) + concat_all(b),
    decreases b.len(),
{
    if b.len() == 0 {
        assert(a + b =~= a);
        assert(concat_all(a) + concat_all(b) =~= concat_all(a));
    } else {
        assert((a + b).drop_last() =~= a + b.drop_last());
        assert((a + b).last() == b.last());
        lemma_concat_all_add(a, b.drop_last());
        assert((concat_all(a) + concat_all(b.drop_last())) + b.last() =~= concat_all(a) + (
        concat_all(b.drop_last()) + b.last()));
    }
}

proof fn lemma_concat_singletons(es: Seq<ItemV>)
    ensures
        concat_all(es.map_values(|x: ItemV| seq![x])) == es,
    decreases es.len(),
{
    let sing = |x: ItemV| seq![x];
    let m = es.map_values(sing);
    if es.len() == 0 {
        assert(m.len() == 0);
        assert(concat_all(m) =~= es);
    } else {
        assert(m.drop_last() =~= es.drop_last().map_values(sing));
        assert(m.last() == seq![es.last()]);
        lemma_concat_singletons(es.drop_last());
        assert(es.drop_last() + seq![es.last()] =~= es);
    }
}

/// When no section holds a separator, stripping the joined list recovers the
/// sections laid end to end.
proof fn lemma_strip_join_sections(ss: Seq<Seq<ItemV>>)
    requires
        forall|i: int, k: int|
            0 <= i < ss.len() && 0 <= k < (#[trigger] ss[i]).len() ==> !((#[trigger] ss[i][k])
                is Separator),
    ensures
        strip_seps(join_sections(ss)) == concat_all(ss),
    decreases ss.len(),
{
    let pred = |x: ItemV| !(x is Separator);
    if ss.len() == 0 {
        lemma_filter_empty::<ItemV>(pred);
    } else {
        assert forall|i: int, k: int|
            0 <= i < ss.drop_last().len() && 0 <= k < (#[trigger] ss.drop_last()[i]).len()
                implies !((#[trigger] ss.drop_last()[i][k]) is Separator) by {
            assert(ss.drop_last()[i] == ss[i]);
        }
        lemma_strip_join_sections(ss.drop_last());
        lemma_strip_join2(join_sections(ss.drop_last()), ss.last());
        assert(ss[ss.len() - 1] == ss.last());
        lemma_filter_all(ss.last(), pred);
    }
}

/// Scanning one optional slot section is at most one step.
proof fn lemma_scan_opt(st: AppScanV, o: Option<ItemV>)
    ensures
        scan_items(st, opt_section(o)) == (match o {
            None => st,
            Some(x) => scan_step(st, x),
        }),
{
    match o {
        None => {
            assert(scan_items(st, Seq::<ItemV>::empty()) == st);
        },
        Some(x) => {
            lemma_scan_single(st, x);
        },
    }
}

/// Re-sectioning the direct items of an app menu is idempotent, provided no
/// role occurs on two different items. Normalizing an already normalized
/// item list returns it unchanged.
pub proof fn lemma_normalize_app_items_idempotent(s: Seq<ItemV>)
    requires
        distinct_roles(s),
    ensures
        spec_normalize_app_items(spec_normalize_app_items(s)) == spec_normalize_app_items(s),
{
    reveal(spec_normalize_app_items);
    let empty = scan_empty();
    let st = scan_items(empty, s);
    assert forall|i: int|
        0 <= i < s.len() implies match (#[trigger] s[i]).role_of() {
        Some(r) => !filled(empty, r),
        None => true,
    } by {
        match s[i].role_of() {
            Some(r) => {
                if seen_extra(empty.extras, r) {
                    let w = choose|w: int|
                        0 <= w < empty.extras.len() && (#[trigger] empty.extras[w]).role_of()
                            == Some(r);
                    assert(false);
                }
            },
            None => {},
        }
    }
    lemma_scan_items_wf(empty, s);
    let secs = sections_of(st);
    let out = join_sections(secs);
    let sing = |x: ItemV| seq![x];
    let aa = opt_section(st.about);
    let cc = st.custom;
    let pp = opt_section(st.prefs);
    let vv = opt_section(st.services);
    let hh = hide_section(st);
    let qq = opt_section(st.quit);
    let first6 = seq![aa, cc, pp, vv, hh, qq];
    assert(secs == first6 + st.extras.map_values(sing));
    // no section holds a separator
    assert forall|i: int, k: int|
        0 <= i < secs.len() && 0 <= k < (#[trigger] secs[i]).len() implies !((#[trigger] secs[i][k])
        is Separator) by {
        if i >= 6 {
            assert(secs[i] == st.extras.map_values(sing)[i - 6]);
            assert(secs[i] == seq![st.extras[i - 6]]);
            assert(is_extra_item(st.extras[i - 6]));
        } else {
            assert(i == 0 || i == 1 || i == 2 || i == 3 || i == 4 || i == 5);
        }
    }
    lemma_strip_join_sections(secs);
    // the stripped output is the sections laid end to end
    lemma_concat_all_add(first6, st.extras.map_values(sing));
    lemma_concat_singletons(st.extras);
    let e0: Seq<Seq<ItemV>> = Seq::empty();
    assert(seq![aa] =~= e0.push(aa));
    lemma_concat_all_push(e0, aa);
    assert(concat_all(e0) =~= Seq::<ItemV>::empty());
    assert(concat_all(seq![aa]) =~= aa);
    assert(seq![aa, cc] =~= seq![aa].push(cc));
    lemma_concat_all_push(seq![aa], cc);
    assert(seq![aa, cc, pp] =~= seq![aa, cc].push(pp));
    lemma_concat_all_push(seq![aa, cc], pp);
    assert(seq![aa, cc, pp, vv] =~= seq![aa, cc, pp].push(vv));
    lemma_concat_all_push(seq![aa, cc, pp], vv);
    assert(seq![aa, cc, pp, vv, hh] =~= seq![aa, cc, pp, vv].push(hh));
    lemma_concat_all_push(seq![aa, cc, pp, vv], hh);
    assert(first6 =~= seq![aa, cc, pp, vv, hh].push(qq));
    lemma_concat_all_push(seq![aa, cc, pp, vv, hh], qq);
    let flat6 = aa + cc + pp + vv + hh + qq;
    assert(concat_all(first6) == flat6);
    let flat = flat6 + st.extras;
    assert(strip_seps(out) == flat);
    // scanning the output reproduces the same state
    lemma_scan_skips_seps(empty, out);
    lemma_scan_items_app(empty, flat6, st.extras);
    lemma_scan_items_app(empty, aa + cc + pp + vv + hh, qq);
    lemma_scan_items_app(empty, aa + cc + pp + vv, hh);
    lemma_scan_items_app(empty, aa + cc + pp, vv);
    lemma_scan_items_app(empty, aa + cc, pp);
    lemma_scan_items_app(empty, aa, cc);
    lemma_scan_opt(empty, st.about);
    let st_a = scan_items(empty, aa);
    assert(st_a == (AppScanV { about: st.about, ..empty }));
    lemma_scan_customs(st_a, cc);
    let st_c = scan_items(st_a, cc);
    assert(st_c.custom =~= st.custom);
    assert(st_c == (AppScanV { about: st.about, custom: st.custom, ..empty }));
    lemma_scan_opt(st_c, st.prefs);
    let st_p = scan_items(st_c, pp);
    assert(st_p == (AppScanV { about: st.about, custom: st.custom, prefs: st.prefs, ..empty }));
    lemma_scan_opt(st_p, st.services);
    let st_v = scan_items(st_p, vv);
    assert(st_v == (AppScanV {
        about: st.about,
        custom: st.custom,
        prefs: st.prefs,
        services: st.services,
        ..empty
    }));
    // the hide group is three optional slots in a fixed order
    let h1 = opt_section(st.hide);
    let h2 = opt_section(st.hide_others);
    let h3 = opt_section(st.show_all);
    assert(hh == h1 + h2 + h3);
    lemma_scan_items_app(st_v, h1 + h2, h3);
    lemma_scan_items_app(st_v, h1, h2);
    lemma_scan_opt(st_v, st.hide);
    let st_h1 = scan_items(st_v, h1);
    assert(st_h1 == (AppScanV {
        about: st.about,
        custom: st.custom,
        prefs: st.prefs,
        services: st.services,
        hide: st.hide,
        ..empty
    }));
    lemma_scan_opt(st_h1, st.hide_others);
    let st_h2 = scan_items(st_h1, h2);
    assert(st_h2 == (AppScanV {
        about: st.about,
        custom: st.custom,
        prefs: st.prefs,
        services: st.services,
        hide: st.hide,
        hide_others: st.hide_others,
        ..empty
    }));
    lemma_scan_opt(st_h2, st.show_all);
    let st_h = scan_items(st_v, hh);
    assert(st_h == (AppScanV {
        about: st.about,
        custom: st.custom,
        prefs: st.prefs,
        services: st.services,
        hide: st.hide,
        hide_others: st.hide_others,
        show_all: st.show_all,
        ..empty
    }));
    lemma_scan_opt(st_h, st.quit);
    let st_q = scan_items(st_h, qq);
    assert(st_q == (AppScanV { extras: Seq::empty(), ..st }));
    lemma_scan_extras(st_q, st.extras);
    let st_e = scan_items(st_q, st.extras);
    assert(st_e.extras =~= st.extras);
    assert(st_e =~= st);
    assert(scan_items(empty, flat) == st);
    assert(scan_items(empty, out) == st);
    assert(spec_normalize_app_items(out) == out);
}

/// Filtering drops everything when the predicate holds nowhere.
proof fn lemma_filter_none<A>(s: Seq<A>, pred: spec_fn(A) -> bool)
    requires
        forall|i: int| 0 <= i < s.len() ==> !pred(#[trigger] s[i]),
    ensures
        s.filter(pred) == Seq::<A>::empty(),
    decreases s.len(),
{
    reveal(Seq::filter);
    if s.len() > 0 {
        lemma_filter_none(s.drop_last(), pred);
    }
    assert(s.filter(pred) =~= Seq::<A>::empty());
}

/// An element of a concatenation comes from one of the parts.
proof fn lemma_add_contains<A>(a: Seq<A>, b: Seq<A>, x: A)
    requires
        (a + b).contains(x),
    ensures
        a.contains(x) || b.contains(x),
{
    let k = choose|k: int| 0 <= k < (a + b).len() && (a + b)[k] == x;
    if k < a.len() {
        assert(a[k] == x);
    } else {
        assert(b[k - a.len()] == x);
    }
}

/// Every menu of the sorted bar comes from the unsorted one.
proof fn lemma_sort_menus_membership(s: Seq<TopMenuV>, x: TopMenuV)
    requires
        sort_menus(s).contains(x),
    ensures
        s.contains(x),
{
    reveal(sort_menus);
    assert forall|p: int| bucket(s, p).contains(x) implies s.contains(x) by {
        let k = choose|k: int| 0 <= k < bucket(s, p).len() && bucket(s, p)[k] == x;
        lemma_filter_subset(s, prio_is(p));
        assert(s.contains(bucket(s, p)[k]));
    }
    let a5 = bucket(s, 0) + bucket(s, 1) + bucket(s, 2) + bucket(s, 3) + bucket(s, 4) + bucket(
        s,
        5,
    );
    let a4 = bucket(s, 0) + bucket(s, 1) + bucket(s, 2) + bucket(s, 3) + bucket(s, 4);
    let a3 = bucket(s, 0) + bucket(s, 1) + bucket(s, 2) + bucket(s, 3);
    let a2 = bucket(s, 0) + bucket(s, 1) + bucket(s, 2);
    let a1 = bucket(s, 0) + bucket(s, 1);
    lemma_add_contains(a5, bucket(s, 100), x);
    if a5.contains(x) {
        lemma_add_contains(a4, bucket(s, 5), x);
        if a4.contains(x) {
            lemma_add_contains(a3, bucket(s, 4), x);
            if a3.contains(x) {
                lemma_add_contains(a2, bucket(s, 3), x);
                if a2.contains(x) {
                    lemma_add_contains(a1, bucket(s, 2), x);
                    if a1.contains(x) {
                        lemma_add_contains(bucket(s, 0), bucket(s, 1), x);
                    }
                }
            }
        }
    }
}

/// Re-bucketing commutes with the per-menu pass, because that pass keeps
/// each menu's role.
proof fn lemma_bucket_normalize(x: Seq<TopMenuV>, p: int)
    ensures
        bucket(x.map_values(|m: TopMenuV| normalize_top(m)), p) == bucket(x, p).map_values(
            |m: TopMenuV| normalize_top(m),
        ),
    decreases x.len(),
{
    let cl = |m: TopMenuV| normalize_top(m);
    let mx = x.map_values(cl);
    if x.len() == 0 {
        lemma_filter_empty::<TopMenuV>(prio_is(p));
        assert(mx =~= Seq::<TopMenuV>::empty());
        assert(bucket(x, p).map_values(cl) =~= Seq::<TopMenuV>::empty());
    } else {
        lemma_filter_cons(mx, prio_is(p));
        lemma_filter_cons(x, prio_is(p));
        assert(mx[0] == normalize_top(x[0]));
        assert(mx.drop_first() =~= x.drop_first().map_values(cl));
        lemma_bucket_normalize(x.drop_first(), p);
        assert(normalize_top(x[0]).role == x[0].role);
        if prio_is(p)(x[0]) {
            assert(bucket(mx, p) == seq![normalize_top(x[0])] + bucket(x.drop_first(), p)
                .map_values(cl));
            assert(bucket(x, p) == seq![x[0]] + bucket(x.drop_first(), p));
            assert(seq![normalize_top(x[0])] + bucket(x.drop_first(), p).map_values(cl) =~= (
            seq![x[0]] + bucket(x.drop_first(), p)).map_values(cl));
        } else {
            assert(bucket(mx, p) == bucket(x.drop_first(), p).map_values(cl));
        }
    }
}

/// A bucket of the sorted bar is the same bucket of the original bar.
proof fn lemma_bucket_sorted(s: Seq<TopMenuV>, p: int)
    requires
        p == 0 || p == 1 || p == 2 || p == 3 || p == 4 || p == 5 || p == 100,
    ensures
        bucket(sort_menus(s), p) == bucket(s, p),
{
    reveal(sort_menus);
    let pred = prio_is(p);
    // each bucket keeps only menus of its own priority
    assert forall|q: int, i: int|
        0 <= i < bucket(s, q).len() implies spec_top_menu_order(
        (#[trigger] bucket(s, q)[i]).role,
    ) == q by {
        Seq::lemma_filter_pred(s, prio_is(q), i);
    }
    let b0 = bucket(s, 0);
    let b1 = bucket(s, 1);
    let b2 = bucket(s, 2);
    let b3 = bucket(s, 3);
    let b4 = bucket(s, 4);
    let b5 = bucket(s, 5);
    let b100 = bucket(s, 100);
    Seq::<TopMenuV>::filter_distributes_over_add(b0, b1, pred);
    Seq::<TopMenuV>::filter_distributes_over_add(b0 + b1, b2, pred);
    Seq::<TopMenuV>::filter_distributes_over_add(b0 + b1 + b2, b3, pred);
    Seq::<TopMenuV>::filter_distributes_over_add(b0 + b1 + b2 + b3, b4, pred);
    Seq::<TopMenuV>::filter_distributes_over_add(b0 + b1 + b2 + b3 + b4, b5, pred);
    Seq::<TopMenuV>::filter_distributes_over_add(b0 + b1 + b2 + b3 + b4 + b5, b100, pred);
    assert forall|q: int|
        (q == 0 || q == 1 || q == 2 || q == 3 || q == 4 || q == 5 || q == 100) && q != p implies #[trigger] bucket(
        s,
        q,
    ).filter(pred) == Seq::<TopMenuV>::empty() by {
        lemma_filter_none(bucket(s, q), pred);
    }
    assert(bucket(s, p).filter(pred) == bucket(s, p)) by {
        lemma_filter_all(bucket(s, p), pred);
    }
    assert(bucket(sort_menus(s), p) == b0.filter(pred) + b1.filter(pred) + b2.filter(pred)
        + b3.filter(pred) + b4.filter(pred) + b5.filter(pred) + b100.filter(pred));
    assert(b0.filter(pred) + b1.filter(pred) + b2.filter(pred) + b3.filter(pred) + b4.filter(pred)
        + b5.filter(pred) + b100.filter(pred) =~= bucket(s, p));
}

/// The per-menu pass is idempotent on a menu whose roles are distinct.
proof fn lemma_normalize_top_idempotent(m: TopMenuV)
    requires
        m.role == Some(TopMenuRole::App) ==> distinct_roles(m.items),
    ensures
        normalize_top(normalize_top(m)) == normalize_top(m),
{
    if m.role == Some(TopMenuRole::App) {
        lemma_normalize_app_items_idempotent(m.items);
        assert(normalize_top(normalize_top(m)) =~= normalize_top(m));
    }
}

/// The normalized bar is already in sorted order.
proof fn lemma_sort_of_normalized(s: Seq<TopMenuV>)
    ensures
        sort_menus(spec_normalize_bar(s)) == spec_normalize_bar(s),
{
    reveal(spec_normalize_bar);
    reveal(sort_menus);
    let cl = |m: TopMenuV| normalize_top(m);
    let t = sort_menus(s);
    let n1 = spec_normalize_bar(s);
    assert(n1 =~= t.map_values(cl));
    assert forall|p: int|
        p == 0 || p == 1 || p == 2 || p == 3 || p == 4 || p == 5 || p == 100 implies #[trigger] bucket(
        n1,
        p,
    ) == bucket(s, p).map_values(cl) by {
        lemma_bucket_normalize(t, p);
        lemma_bucket_sorted(s, p);
        assert(bucket(n1, p) == bucket(t.map_values(cl), p));
    }
    let m0 = bucket(s, 0).map_values(cl);
    let m1 = bucket(s, 1).map_values(cl);
    let m2 = bucket(s, 2).map_values(cl);
    let m3 = bucket(s, 3).map_values(cl);
    let m4 = bucket(s, 4).map_values(cl);
    let m5 = bucket(s, 5).map_values(cl);
    let m100 = bucket(s, 100).map_values(cl);
    assert(sort_menus(n1) == m0 + m1 + m2 + m3 + m4 + m5 + m100);
    assert(m0 + m1 + m2 + m3 + m4 + m5 + m100 =~= t.map_values(cl));
}

/// The normalized bar, menu by menu: the sorted bar with the per-menu pass
/// applied at each position.
proof fn lemma_normalize_bar_unfold(s: Seq<TopMenuV>)
    ensures
        spec_normalize_bar(s).len() == sort_menus(s).len(),
        forall|i: int|
            0 <= i < sort_menus(s).len() ==> spec_normalize_bar(s)[i] == normalize_top(
                #[trigger] sort_menus(s)[i],
            ),
{
    reveal(spec_normalize_bar);
}

/// A bar that is already sorted and fixed by the per-menu pass is fixed by
/// normalization.
#[verifier::rlimit(60)]
proof fn lemma_normalize_bar_of_fixed(x: Seq<TopMenuV>)
    requires
        sort_menus(x) == x,
        forall|i: int| 0 <= i < x.len() ==> normalize_top(#[trigger] x[i]) == x[i],
    ensures
        spec_normalize_bar(x) == x,
{
    lemma_normalize_bar_unfold(x);
    assert forall|i: int| 0 <= i < x.len() implies spec_normalize_bar(x)[i] == x[i] by {
        assert(sort_menus(x)[i] == x[i]);
        assert(spec_normalize_bar(x)[i] == normalize_top(sort_menus(x)[i]));
    }
    assert(spec_normalize_bar(x) =~= x);
}

/// Normalizing a menu bar twice gives the same bar as normalizing it once,
/// provided no App-role menu carries the same role on two direct items.
pub proof fn lemma_normalize_bar_idempotent(s: Seq<TopMenuV>)
    requires
        forall|i: int|
            0 <= i < s.len() && (#[trigger] s[i]).role == Some(TopMenuRole::App)
                ==> distinct_roles(s[i].items),
    ensures
        spec_normalize_bar(spec_normalize_bar(s)) == spec_normalize_bar(s),
{
    let t = sort_menus(s);
    let n1 = spec_normalize_bar(s);
    lemma_sort_of_normalized(s);
    lemma_normalize_bar_unfold(s);
    assert forall|i: int| 0 <= i < n1.len() implies normalize_top(#[trigger] n1[i]) == n1[i] by {
        let m = t[i];
        if m.role == Some(TopMenuRole::App) {
            assert(t.contains(m)) by {
                assert(t[i] == m);
            }
            lemma_sort_menus_membership(s, m);
            let j = choose|j: int| 0 <= j < s.len() && s[j] == m;
            assert(distinct_roles(m.items));
        }
        lemma_normalize_top_idempotent(m);
    }
    lemma_normalize_bar_of_fixed(n1);
}

/// Whether a menu bar holds a menu carrying the App role.
pub open spec fn spec_has_app_menu(s: Seq<TopMenuV>) -> bool {
    exists|i: int| 0 <= i < s.len() && (#[trigger] s[i]).role == Some(TopMenuRole::App)
}

/// Filtering a non-empty sequence keeps the head exactly when the predicate
/// holds of it.
proof fn lemma_filter_cons<A>(s: Seq<A>, pred: spec_fn(A) -> bool)
    requires
        s.len() > 0,
    ensures
        s.filter(pred) == (if pred(s[0]) {
            seq![s[0]] + s.drop_first().filter(pred)
        } else {
            s.drop_first().filter(pred)
        }),
{
    reveal(Seq::filter);
    let single = seq![s[0]];
    assert(s =~= single + s.drop_first());
    Seq::<A>::filter_distributes_over_add(single, s.drop_first(), pred);
    assert(single.drop_last() =~= Seq::<A>::empty());
    assert(Seq::<A>::empty().filter(pred) =~= Seq::<A>::empty());
    assert(single.len() == 1);
    assert(single.last() == s[0]);
    assert(single.drop_last().filter(pred) == Seq::<A>::empty());
    if pred(s[0]) {
        assert(single.filter(pred) =~= seq![s[0]]);
    } else {
        assert(single.filter(pred) =~= Seq::<A>::empty());
        assert(Seq::<A>::empty() + s.drop_first().filter(pred) =~= s.drop_first().filter(pred));
    }
}

/// Filtering the empty sequence yields the empty sequence.
proof fn lemma_filter_empty<A>(pred: spec_fn(A) -> bool)
    ensures
        Seq::<A>::empty().filter(pred) == Seq::<A>::empty(),
{
    reveal(Seq::filter);
    assert(Seq::<A>::empty().filter(pred) =~= Seq::<A>::empty());
}

/// Normalize a whole menu bar: stable-sort the top menus by role priority,
/// then re-section the items of each App-role menu.
pub fn normalize_menu_bar(bar: MenuBarModel) -> (r: MenuBarModel)
    ensures
        r@ == spec_normalize_bar(bar@),
{
    let ghost s = bar@;
    let mut rest = bar.menus;
    let mut b0: Vec<TopMenu> = Vec::new();
    let mut b1: Vec<TopMenu> = Vec::new();
    let mut b2: Vec<TopMenu> = Vec::new();
    let mut b3: Vec<TopMenu> = Vec::new();
    let mut b4: Vec<TopMenu> = Vec::new();
    let mut b5: Vec<TopMenu> = Vec::new();
    let mut b100: Vec<TopMenu> = Vec::new();
    proof {
        assert(rest.deep_view() =~= s);
        assert(b0.deep_view() =~= Seq::<TopMenuV>::empty());
        lemma_filter_empty::<TopMenuV>(prio_is(0));
        lemma_filter_empty::<TopMenuV>(prio_is(1));
        lemma_filter_empty::<TopMenuV>(prio_is(2));
        lemma_filter_empty::<TopMenuV>(prio_is(3));
        lemma_filter_empty::<TopMenuV>(prio_is(4));
        lemma_filter_empty::<TopMenuV>(prio_is(5));
        lemma_filter_empty::<TopMenuV>(prio_is(100));
    }
    while rest.len() > 0
        invariant
            bucket(s, 0) == b0.deep_view() + bucket(rest.deep_view(), 0),
            bucket(s, 1) == b1.deep_view() + bucket(rest.deep_view(), 1),
            bucket(s, 2) == b2.deep_view() + bucket(rest.deep_view(), 2),
            bucket(s, 3) == b3.deep_view() + bucket(rest.deep_view(), 3),
            bucket(s, 4) == b4.deep_view() + bucket(rest.deep_view(), 4),
            bucket(s, 5) == b5.deep_view() + bucket(rest.deep_view(), 5),
            bucket(s, 100) == b100.deep_view() + bucket(rest.deep_view(), 100),
        decreases rest.len(),
    {
        let ghost rv = rest.deep_view();
        let m = rest.remove(0);
        let ghost mv = m.deep_view();
        proof {
            assert(rest.deep_view() =~= rv.drop_first());
            assert(rv[0] == mv);
            lemma_filter_cons(rv, prio_is(0));
            lemma_filter_cons(rv, prio_is(1));
            lemma_filter_cons(rv, prio_is(2));
            lemma_filter_cons(rv, prio_is(3));
            lemma_filter_cons(rv, prio_is(4));
            lemma_filter_cons(rv, prio_is(5));
            lemma_filter_cons(rv, prio_is(100));
        }
        let p = top_menu_order(m.role);
        proof {
            assert(spec_top_menu_order(mv.role) == p as int);
        }
        if p == 0 {
            let ghost bv = b0.deep_view();
            b0.push(m);
            proof {
                assert(b0.deep_view() =~= bv.push(mv));
                assert(bv.push(mv) + bucket(rv.drop_first(), 0) =~= bv + (seq![mv] + bucket(
                    rv.drop_first(),
                    0,
                )));
            }
        } else if p == 1 {
            let ghost bv = b1.deep_view();
            b1.push(m);
            proof {
                assert(b1.deep_view() =~= bv.push(mv));
                assert(bv.push(mv) + bucket(rv.drop_first(), 1) =~= bv + (seq![mv] + bucket(
                    rv.drop_first(),
                    1,
                )));
            }
        } else if p == 2 {
            let ghost bv = b2.deep_view();
            b2.push(m);
            proof {
                assert(b2.deep_view() =~= bv.push(mv));
                assert(bv.push(mv) + bucket(rv.drop_first(), 2) =~= bv + (seq![mv] + bucket(
                    rv.drop_first(),
                    2,
                )));
            }
        } else if p == 3 {
            let ghost bv = b3.deep_view();
            b3.push(m);
            proof {
                assert(b3.deep_view() =~= bv.push(mv));
                assert(bv.push(mv) + bucket(rv.drop_first(), 3) =~= bv + (seq![mv] + bucket(
                    rv.drop_first(),
                    3,
                )));
            }
        } else if p == 4 {
            let ghost bv = b4.deep_view();
            b4.push(m);
            proof {
                assert(b4.deep_view() =~= bv.push(mv));
                assert(bv.push(mv) + bucket(rv.drop_first(), 4) =~= bv + (seq![mv] + bucket(
                    rv.drop_first(),
                    4,
                )));
            }
        } else if p == 5 {
            let ghost bv = b5.deep_view();
            b5.push(m);
            proof {
                assert(b5.deep_view() =~= bv.push(mv));
                assert(bv.push(mv) + bucket(rv.drop_first(), 5) =~= bv + (seq![mv] + bucket(
                    rv.drop_first(),
                    5,
                )));
            }
        } else {
            let ghost bv = b100.deep_view();
            b100.push(m);
            proof {
                assert(b100.deep_view() =~= bv.push(mv));
                assert(bv.push(mv) + bucket(rv.drop_first(), 100) =~= bv + (seq![mv] + bucket(
                    rv.drop_first(),
                    100,
                )));
            }
        }
    }
    proof {
        lemma_filter_empty::<TopMenuV>(prio_is(0));
        lemma_filter_empty::<TopMenuV>(prio_is(1));
        lemma_filter_empty::<TopMenuV>(prio_is(2));
        lemma_filter_empty::<TopMenuV>(prio_is(3));
        lemma_filter_empty::<TopMenuV>(prio_is(4));
        lemma_filter_empty::<TopMenuV>(prio_is(5));
        lemma_filter_empty::<TopMenuV>(prio_is(100));
        assert(rest.deep_view() =~= Seq::<TopMenuV>::empty());
        assert(b0.deep_view() + bucket(rest.deep_view(), 0) =~= b0.deep_view());
        assert(b1.deep_view() + bucket(rest.deep_view(), 1) =~= b1.deep_view());
        assert(b2.deep_view() + bucket(rest.deep_view(), 2) =~= b2.deep_view());
        assert(b3.deep_view() + bucket(rest.deep_view(), 3) =~= b3.deep_view());
        assert(b4.deep_view() + bucket(rest.deep_view(), 4) =~= b4.deep_view());
        assert(b5.deep_view() + bucket(rest.deep_view(), 5) =~= b5.deep_view());
        assert(b100.deep_view() + bucket(rest.deep_view(), 100) =~= b100.deep_view());
    }
    let mut sorted = b0;
    let ghost mut sv = bucket(s, 0);
    let mut b1 = b1;
    sorted.append(&mut b1);
    proof {
        assert(sorted.deep_view() =~= sv + bucket(s, 1));
        sv = sv + bucket(s, 1);
    }
    let mut b2 = b2;
    sorted.append(&mut b2);
    proof {
        assert(sorted.deep_view() =~= sv + bucket(s, 2));
        sv = sv + bucket(s, 2);
    }
    let mut b3 = b3;
    sorted.append(&mut b3);
    proof {
        assert(sorted.deep_view() =~= sv + bucket(s, 3));
        sv = sv + bucket(s, 3);
    }
    let mut b4 = b4;
    sorted.append(&mut b4);
    proof {
        assert(sorted.deep_view() =~= sv + bucket(s, 4));
        sv = sv + bucket(s, 4);
    }
    let mut b5 = b5;
    sorted.append(&mut b5);
    proof {
        assert(sorted.deep_view() =~= sv + bucket(s, 5));
        sv = sv + bucket(s, 5);
    }
    let mut b100 = b100;
    sorted.append(&mut b100);
    proof {
        reveal(sort_menus);
        assert(sorted.deep_view() =~= sv + bucket(s, 100));
        sv = sv + bucket(s, 100);
        assert(sv == sort_menus(s));
    }
    let ghost t = sort_menus(s);
    proof {
        assert(sorted.deep_view() == t);
    }
    let mut rest2 = sorted;
    let mut out: Vec<TopMenu> = Vec::new();
    let ghost mut j: int = 0;
    proof {
        assert(rest2.deep_view() =~= t.skip(0));
    }
    while rest2.len() > 0
        invariant
            0 <= j <= t.len(),
            rest2.deep_view() == t.skip(j),
            out.deep_view().len() == j,
            forall|i: int| 0 <= i < j ==> out.deep_view()[i] == normalize_top(#[trigger] t[i]),
        decreases rest2.len(),
    {
        let ghost rv = rest2.deep_view();
        let m = rest2.remove(0);
        proof {
            assert(rest2.deep_view() =~= rv.drop_first());
            assert(rv[0] == m.deep_view());
            assert(m.deep_view() == t[j]);
            assert(t.skip(j).drop_first() =~= t.skip(j + 1));
        }
        let is_app = match m.role {
            Some(TopMenuRole::App) => true,
            _ => false,
        };
        let TopMenu { label, items, role } = m;
        let nm = if is_app {
            TopMenu { label, items: normalize_app_menu_items(items), role }
        } else {
            TopMenu { label, items, role }
        };
        proof {
            assert(nm.deep_view() =~= normalize_top(t[j]));
        }
        let ghost ov = out.deep_view();
        out.push(nm);
        proof {
            assert(out.deep_view() =~= ov.push(normalize_top(t[j])));
            j = j + 1;
        }
    }
    proof {
        reveal(spec_normalize_bar);
        assert(out.deep_view() =~= spec_normalize_bar(s));
    }
    MenuBarModel { menus: out }
}

/// Whether a menu bar holds a menu carrying the App role.
pub fn has_app_menu(bar: &MenuBarModel) -> (r: bool)
    ensures
        r == spec_has_app_menu(bar@),
{
    let mut i: usize = 0;
    while i < bar.menus.len()
        invariant
            i <= bar.menus.len(),
            forall|j: int| 0 <= j < i ==> (#[trigger] bar@[j]).role != Some(TopMenuRole::App),
        decreases bar.menus.len() - i,
    {
        proof {
            assert(bar@[i as int] == bar.menus@[i as int].deep_view());
        }
        if let Some(role) = bar.menus[i].role {
            if role == TopMenuRole::App {
                return true;
            }
        }
        i += 1;
    }
    false
}

} // verus!
