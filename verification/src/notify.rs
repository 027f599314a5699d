use vstd::prelude::*;
use vstd::pervasive::VecAdditionalExecFns;
use vstd::string::StringExecFns;
use crate::command::CommandId;
use crate::notification::{Notification, NotificationSound};

verus! {

// Delivering a notification's command: a notification that carries any
// command is tracked in a pending table keyed by its identifier until the
// user activates it. The entry is removed on the first activation, so a
// command is delivered at most once even if the platform raises duplicate
// activation events. Identifiers left unset are synthesized from a
// process-wide counter.

/// The commands a delivered notification may trigger: one for the default
/// (body) activation, one for the action button.
#[derive(Debug, Clone, Copy, PartialEq, Eq, Structural)]
pub struct PendingEntry {
    pub default_command: Option<CommandId>,
    pub action_command: Option<CommandId>,
}

/// The activation type the native layer reports when the action button was
/// pressed.
pub const ACTIVATION_ACTION_BUTTON: i64 = 2;

/// The command an activation delivers: the action button prefers the
/// button's command, any other activation prefers the default command;
/// either falls back to the other when its own is absent.
pub open spec fn spec_activation_command(entry: PendingEntry, activation_type: i64) -> Option<
    CommandId,
> {
    if activation_type == ACTIVATION_ACTION_BUTTON {
        match entry.action_command {
            Some(c) => Some(c),
            None => entry.default_command,
        }
    } else {
        match entry.default_command {
            Some(c) => Some(c),
            None => entry.action_command,
        }
    }
}

/// The command an activation delivers.
pub fn activation_command(entry: &PendingEntry, activation_type: i64) -> (r: Option<CommandId>)
    ensures
        r == spec_activation_command(*entry, activation_type),
{
    if activation_type == ACTIVATION_ACTION_BUTTON {
        match entry.action_command {
            Some(c) => Some(c),
            None => entry.default_command,
        }
    } else {
        match entry.default_command {
            Some(c) => Some(c),
            None => entry.action_command,
        }
    }
}

/// The pending-activation table: the entries of notifications that carry a
/// command and were shown but not yet activated, keyed by identifier.
pub struct PendingTable {
    entries: Vec<(String, PendingEntry)>,
}

/// The map an entry list denotes; later entries override earlier ones.
pub open spec fn entries_map(s: Seq<(String, PendingEntry)>) -> Map<Seq<char>, PendingEntry>
    decreases s.len(),
{
    if s.len() == 0 {
        Map::empty()
    } else {
        entries_map(s.drop_last()).insert(s.last().0@, s.last().1)
    }
}

impl View for PendingTable {
    type V = Map<Seq<char>, PendingEntry>;

    closed spec fn view(&self) -> Map<Seq<char>, PendingEntry> {
        entries_map(self.entries@)
    }
}

impl PendingTable {
    /// Whether the stored keys are pairwise distinct.
    pub closed spec fn wf(self) -> bool {
        forall|i: int, j: int|
            0 <= i < j < self.entries@.len() ==> (#[trigger] self.entries@[i]).0@ != (
            #[trigger] self.entries@[j]).0@
    }

    /// An entry list maps exactly its keys.
    proof fn lemma_entries_map_keys(s: Seq<(String, PendingEntry)>)
        ensures
            forall|k: Seq<char>|
                #[trigger] entries_map(s).contains_key(k) <==> exists|i: int|
                    0 <= i < s.len() && (#[trigger] s[i]).0@ == k,
        decreases s.len(),
    {
        if s.len() > 0 {
            Self::lemma_entries_map_keys(s.drop_last());
            let d = s.drop_last();
            assert forall|k: Seq<char>| #[trigger]
                entries_map(s).contains_key(k) implies exists|i: int|
                0 <= i < s.len() && (#[trigger] s[i]).0@ == k by {
                if k == s.last().0@ {
                    assert(s[s.len() - 1].0@ == k);
                } else {
                    assert(entries_map(d).contains_key(k));
                    let i = choose|i: int| 0 <= i < d.len() && (#[trigger] d[i]).0@ == k;
                    assert(s[i].0@ == k);
                }
            }
            assert forall|k: Seq<char>|
                (exists|i: int| 0 <= i < s.len() && (#[trigger] s[i]).0@ == k) implies #[trigger] entries_map(
                s,
            ).contains_key(k) by {
                let i = choose|i: int| 0 <= i < s.len() && (#[trigger] s[i]).0@ == k;
                if i < s.len() - 1 {
                    assert(d[i].0@ == k);
                    assert(entries_map(d).contains_key(k));
                }
            }
        }
    }

    /// With pairwise distinct keys, each key maps to its entry's value.
    proof fn lemma_entries_map_values(s: Seq<(String, PendingEntry)>)
        requires
            forall|i: int, j: int|
                0 <= i < j < s.len() ==> (#[trigger] s[i]).0@ != (#[trigger] s[j]).0@,
        ensures
            forall|i: int|
                0 <= i < s.len() ==> entries_map(s)[(#[trigger] s[i]).0@] == s[i].1,
        decreases s.len(),
    {
        if s.len() > 0 {
            let d = s.drop_last();
            assert forall|i: int, j: int|
                0 <= i < j < d.len() implies (#[trigger] d[i]).0@ != (#[trigger] d[j]).0@ by {
                assert(s[i].0@ != s[j].0@);
            }
            Self::lemma_entries_map_values(d);
            assert forall|i: int| 0 <= i < s.len() implies entries_map(s)[(#[trigger] s[i]).0@]
                == s[i].1 by {
                if i == s.len() - 1 {
                } else {
                    assert(d[i] == s[i]);
                    assert(entries_map(d)[d[i].0@] == d[i].1);
                    assert(s[i].0@ != s[s.len() - 1].0@);
                }
            }
        }
    }

    /// The empty table.
    pub fn new() -> (r: Self)
        ensures
            r@ == Map::<Seq<char>, PendingEntry>::empty(),
            r.wf(),
    {
        PendingTable { entries: Vec::new() }
    }

    /// Record `entry` under `identifier`, replacing any entry already
    /// recorded under it.
    #[verifier::loop_isolation(false)]
    pub fn insert(&mut self, identifier: String, entry: PendingEntry)
        requires
            old(self).wf(),
        ensures
            final(self)@ == old(self)@.insert(identifier@, entry),
            final(self).wf(),
    {
        let ghost s0 = self.entries@;
        proof {
            assert(forall|a: int, b: int|
                0 <= a < b < s0.len() ==> (#[trigger] s0[a]).0@ != (#[trigger] s0[b]).0@);
            Self::lemma_entries_map_keys(s0);
            Self::lemma_entries_map_values(s0);
        }
        let ghost old_map = entries_map(s0);
        let mut i: usize = 0;
        while i < self.entries.len()
            invariant
                i <= self.entries@.len(),
                self.entries@ == s0,
                forall|j: int| 0 <= j < i ==> (#[trigger] s0[j]).0@ != identifier@,
            decreases self.entries@.len() - i,
        {
            if crate::diff::str_eq(&self.entries[i].0, &identifier) {
                self.entries.set(i, (identifier, entry));
                proof {
                    let s1 = self.entries@;
                    assert(s1 == s0.update(i as int, (identifier, entry)));
                    assert(s0[i as int].0@ == identifier@);
                    assert forall|a: int, b: int|
                        0 <= a < b < s1.len() implies (#[trigger] s1[a]).0@ != (
                    #[trigger] s1[b]).0@ by {
                        assert(s0[a].0@ != s0[b].0@);
                        assert(a == i || s1[a] == s0[a]);
                        assert(b == i || s1[b] == s0[b]);
                    }
                    Self::lemma_entries_map_keys(s1);
                    Self::lemma_entries_map_values(s1);
                    assert(entries_map(s1) =~= old_map.insert(identifier@, entry)) by {
                        assert forall|k: Seq<char>|
                            entries_map(s1).contains_key(k) <==> old_map.insert(
                                identifier@,
                                entry,
                            ).contains_key(k) by {
                            if entries_map(s1).contains_key(k) {
                                let a = choose|a: int|
                                    0 <= a < s1.len() && (#[trigger] s1[a]).0@ == k;
                                if a == i {
                                } else {
                                    assert(s0[a].0@ == k);
                                }
                            }
                            if old_map.insert(identifier@, entry).contains_key(k) {
                                if k == identifier@ {
                                    assert(s1[i as int].0@ == k);
                                } else {
                                    assert(old_map.contains_key(k));
                                    let a = choose|a: int|
                                        0 <= a < s0.len() && (#[trigger] s0[a]).0@ == k;
                                    assert(a != i);
                                    assert(s1[a].0@ == k);
                                }
                            }
                        }
                        assert forall|k: Seq<char>|
                            #[trigger] entries_map(s1).contains_key(k) implies entries_map(s1)[k]
                            == old_map.insert(identifier@, entry)[k] by {
                            let a = choose|a: int| 0 <= a < s1.len() && (#[trigger] s1[a]).0@ == k;
                            assert(entries_map(s1)[s1[a].0@] == s1[a].1);
                            if k == identifier@ {
                                assert(a == i) by {
                                    if a != i {
                                        assert(s1[a] == s0[a]);
                                        assert(s0[a].0@ != s0[i as int].0@ || s0[i as int].0@
                                            != s0[a].0@);
                                    }
                                }
                            } else {
                                assert(a != i);
                                assert(s0[a] == s1[a]);
                                assert(old_map[s0[a].0@] == s0[a].1);
                            }
                        }
                    }
                }
                return ;
            }
            i += 1;
        }
        self.entries.push((identifier, entry));
        proof {
            let s1 = self.entries@;
            assert(s1 == s0.push((identifier, entry)));
            assert(s1.drop_last() =~= s0);
            assert(s1.last() == (identifier, entry));
            assert(entries_map(s1) == entries_map(s0).insert(identifier@, entry));
            assert forall|a: int, b: int|
                0 <= a < b < s1.len() implies (#[trigger] s1[a]).0@ != (#[trigger] s1[b]).0@ by {
                if b < s0.len() {
                    assert(s0[a].0@ != s0[b].0@);
                } else {
                    assert(s1[b] == (identifier, entry));
                    assert(s1[a] == s0[a]);
                    assert(s0[a].0@ != identifier@);
                }
            }
        }
    }

    /// Remove and return the entry recorded under `identifier`, if any.
    /// The entry is gone afterwards: a second take of the same identifier
    /// finds nothing.
    #[verifier::loop_isolation(false)]
    pub fn take(&mut self, identifier: &String) -> (r: Option<PendingEntry>)
        requires
            old(self).wf(),
        ensures
            final(self).wf(),
            old(self)@.contains_key(identifier@) ==> (r == Some(old(self)@[identifier@])
                && final(self)@ == old(self)@.remove(identifier@)),
            !old(self)@.contains_key(identifier@) ==> (r is None && final(self)@ == old(self)@),
    {
        let ghost s0 = self.entries@;
        proof {
            assert(forall|a: int, b: int|
                0 <= a < b < s0.len() ==> (#[trigger] s0[a]).0@ != (#[trigger] s0[b]).0@);
            Self::lemma_entries_map_keys(s0);
            Self::lemma_entries_map_values(s0);
        }
        let ghost old_map = entries_map(s0);
        let mut i: usize = 0;
        while i < self.entries.len()
            invariant
                i <= self.entries@.len(),
                self.entries@ == s0,
                forall|j: int| 0 <= j < i ==> (#[trigger] s0[j]).0@ != identifier@,
            decreases self.entries@.len() - i,
        {
            if crate::diff::str_eq(&self.entries[i].0, identifier) {
                let pair = self.entries.remove(i);
                let entry = pair.1;
                proof {
                    let s1 = self.entries@;
                    assert(s1 == s0.remove(i as int));
                    assert(s0[i as int].0@ == identifier@);
                    assert(old_map.contains_key(identifier@));
                    assert(old_map[identifier@] == s0[i as int].1);
                    assert(entry == s0[i as int].1);
                    assert forall|a: int, b: int|
                        0 <= a < b < s1.len() implies (#[trigger] s1[a]).0@ != (
                    #[trigger] s1[b]).0@ by {
                        let a0: int = if a < i { a } else { a + 1 };
                        let b0: int = if b < i { b } else { b + 1 };
                        assert(s1[a] == s0[a0]);
                        assert(s1[b] == s0[b0]);
                        assert(s0[a0].0@ != s0[b0].0@);
                    }
                    Self::lemma_entries_map_keys(s1);
                    Self::lemma_entries_map_values(s1);
                    assert(entries_map(s1) =~= old_map.remove(identifier@)) by {
                        assert forall|k: Seq<char>|
                            entries_map(s1).contains_key(k) <==> old_map.remove(
                                identifier@,
                            ).contains_key(k) by {
                            if entries_map(s1).contains_key(k) {
                                let a = choose|a: int|
                                    0 <= a < s1.len() && (#[trigger] s1[a]).0@ == k;
                                let a0: int = if a < i { a } else { a + 1 };
                                assert(s1[a] == s0[a0]);
                                assert(s0[a0].0@ == k);
                                if k == identifier@ {
                                    assert(a0 != i);
                                    assert(s0[a0].0@ != s0[i as int].0@ || s0[i as int].0@
                                        != s0[a0].0@);
                                    assert(false);
                                }
                            }
                            if old_map.remove(identifier@).contains_key(k) {
                                let a0 = choose|a0: int|
                                    0 <= a0 < s0.len() && (#[trigger] s0[a0]).0@ == k;
                                assert(a0 != i);
                                let a: int = if a0 < i { a0 } else { a0 - 1 };
                                assert(s1[a] == s0[a0]);
                                assert(s1[a].0@ == k);
                            }
                        }
                        assert forall|k: Seq<char>|
                            #[trigger] entries_map(s1).contains_key(k) implies entries_map(s1)[k]
                            == old_map.remove(identifier@)[k] by {
                            let a = choose|a: int| 0 <= a < s1.len() && (#[trigger] s1[a]).0@ == k;
                            let a0: int = if a < i { a } else { a + 1 };
                            assert(s1[a] == s0[a0]);
                            assert(entries_map(s1)[s1[a].0@] == s1[a].1);
                            assert(old_map[s0[a0].0@] == s0[a0].1);
                        }
                    }
                }
                return Some(entry);
            }
            i += 1;
        }
        proof {
            if entries_map(s0).contains_key(identifier@) {
                let a = choose|a: int| 0 <= a < s0.len() && (#[trigger] s0[a]).0@ == identifier@;
                assert(false);
            }
        }
        None
    }
}

/// One pending-table transition on an activation event: the entry under the
/// identifier, if any, is removed and decides the delivered command.
pub open spec fn spec_handle_activation(
    m: Map<Seq<char>, PendingEntry>,
    identifier: Seq<char>,
    activation_type: i64,
) -> (Map<Seq<char>, PendingEntry>, Option<CommandId>) {
    if m.contains_key(identifier) {
        (m.remove(identifier), spec_activation_command(m[identifier], activation_type))
    } else {
        (m, None)
    }
}

/// Handle one activation event: remove the pending entry under the
/// identifier and return the command to deliver, if any.
pub fn handle_activation(table: &mut PendingTable, identifier: &String, activation_type: i64) -> (r:
    Option<CommandId>)
    requires
        old(table).wf(),
    ensures
        final(table).wf(),
        (final(table)@, r) == spec_handle_activation(old(table)@, identifier@, activation_type),
{
    match table.take(identifier) {
        Some(entry) => activation_command(&entry, activation_type),
        None => None,
    }
}

/// A notification's command is delivered at most once: once a first
/// activation event for an identifier has delivered a command, a second
/// activation event for the same identifier delivers none, whatever its
/// type.
pub proof fn lemma_activation_at_most_once(
    m: Map<Seq<char>, PendingEntry>,
    identifier: Seq<char>,
    first_type: i64,
    second_type: i64,
)
    ensures
        ({
            let (m1, r1) = spec_handle_activation(m, identifier, first_type);
            let (m2, r2) = spec_handle_activation(m1, identifier, second_type);
            r1 is Some ==> r2 is None
        }),
{
}


// Synthesized identifiers: a notification shown without an identifier gets
// one made of a fixed prefix and the decimal value of a process-wide
// counter, unique within the process lifetime.

/// The decimal digit character of `d`.
pub open spec fn spec_digit(d: int) -> char {
    if d == 0 {
        '0'
    } else if d == 1 {
        '1'
    } else if d == 2 {
        '2'
    } else if d == 3 {
        '3'
    } else if d == 4 {
        '4'
    } else if d == 5 {
        '5'
    } else if d == 6 {
        '6'
    } else if d == 7 {
        '7'
    } else if d == 8 {
        '8'
    } else {
        '9'
    }
}

/// The decimal digits of a non-negative number, most significant first.
pub open spec fn spec_udec(n: int) -> Seq<char>
    decreases n,
{
    if n < 10 {
        seq![spec_digit(n)]
    } else {
        spec_udec(n / 10).push(spec_digit(n % 10))
    }
}

/// One decimal digit as a string.
fn digit_str(d: u64) -> (r: String)
    requires
        d < 10,
    ensures
        r@ == seq![spec_digit(d as int)],
{
    let r = match d {
        0 => String::from_str("0"),
        1 => String::from_str("1"),
        2 => String::from_str("2"),
        3 => String::from_str("3"),
        4 => String::from_str("4"),
        5 => String::from_str("5"),
        6 => String::from_str("6"),
        7 => String::from_str("7"),
        8 => String::from_str("8"),
        _ => String::from_str("9"),
    };
    proof {
        reveal_strlit("0");
        reveal_strlit("1");
        reveal_strlit("2");
        reveal_strlit("3");
        reveal_strlit("4");
        reveal_strlit("5");
        reveal_strlit("6");
        reveal_strlit("7");
        reveal_strlit("8");
        reveal_strlit("9");
        assert(r@ =~= seq![spec_digit(d as int)]);
    }
    r
}

/// A number written in decimal.
fn u64_to_dec(n: u64) -> (r: String)
    ensures
        r@ == spec_udec(n as int),
    decreases n,
{
    if n < 10 {
        digit_str(n)
    } else {
        let mut s = u64_to_dec(n / 10);
        let d = digit_str(n % 10);
        s.append(d.as_str());
        proof {
            assert(s@ =~= spec_udec(n as int));
        }
        s
    }
}

/// The identifier synthesized for counter value `c`.
pub open spec fn spec_auto_identifier(c: u64) -> Seq<char> {
    "makepad-shell.notification."@ + spec_udec(c as int)
}

/// The counter after one identifier was drawn.
pub open spec fn spec_next_counter(c: u64) -> u64 {
    if c == u64::MAX {
        0
    } else {
        (c + 1) as u64
    }
}

/// What the native layer needs to deliver one notification: the resolved
/// identifier and the displayed fields.
#[derive(Debug, PartialEq)]
pub struct ShowRequest {
    pub identifier: String,
    pub title: String,
    pub subtitle: Option<String>,
    pub body: Option<String>,
    pub action_button_label: Option<String>,
    pub sound: NotificationSound,
}

/// The mathematical value of a delivery request.
#[verifier::ext_equal]
pub struct ShowRequestV {
    pub identifier: Seq<char>,
    pub title: Seq<char>,
    pub subtitle: Option<Seq<char>>,
    pub body: Option<Seq<char>>,
    pub action_button_label: Option<Seq<char>>,
    pub sound: crate::notification::NotificationSoundV,
}

impl View for ShowRequest {
    type V = ShowRequestV;

    open spec fn view(&self) -> ShowRequestV {
        ShowRequestV {
            identifier: self.identifier@,
            title: self.title@,
            subtitle: crate::notification::opt_str_view(self.subtitle),
            body: crate::notification::opt_str_view(self.body),
            action_button_label: crate::notification::opt_str_view(self.action_button_label),
            sound: self.sound@,
        }
    }
}

/// The mathematical value of the notification center's state.
#[verifier::ext_equal]
pub struct NotificationCenterV {
    pub counter: u64,
    pub pending: Map<Seq<char>, PendingEntry>,
}

/// The state behind notification delivery: the identifier counter and the
/// pending-activation table.
pub struct NotificationCenter {
    counter: u64,
    pending: PendingTable,
}

impl View for NotificationCenter {
    type V = NotificationCenterV;

    closed spec fn view(&self) -> NotificationCenterV {
        NotificationCenterV { counter: self.counter, pending: self.pending@ }
    }
}

impl NotificationCenter {
    /// The table keys stay pairwise distinct.
    pub closed spec fn wf(self) -> bool {
        self.pending.wf()
    }

    /// A fresh center: the counter starts at one, nothing is pending.
    pub fn new() -> (r: Self)
        ensures
            r@ == (NotificationCenterV {
                counter: 1,
                pending: Map::<Seq<char>, PendingEntry>::empty(),
            }),
            r.wf(),
    {
        NotificationCenter { counter: 1, pending: PendingTable::new() }
    }

    /// Prepare one notification for delivery: resolve its identifier
    /// (synthesizing one from the counter when unset), and when it carries
    /// any command, record the pending entry under that identifier. The
    /// request holds exactly the notification's displayed fields.
    pub fn prepare_show(&mut self, notification: Notification) -> (r: ShowRequest)
        requires
            old(self).wf(),
        ensures
            final(self).wf(),
            ({
                let n = notification@;
                let ident = match n.identifier {
                    Some(s) => s,
                    None => spec_auto_identifier(old(self)@.counter),
                };
                let entry = PendingEntry {
                    default_command: n.default_action,
                    action_command: match n.action_button {
                        Some(b) => Some(b.command),
                        None => None,
                    },
                };
                &&& r@ == (ShowRequestV {
                    identifier: ident,
                    title: n.title,
                    subtitle: n.subtitle,
                    body: n.body,
                    action_button_label: match n.action_button {
                        Some(b) => Some(b.label),
                        None => None,
                    },
                    sound: n.sound,
                })
                &&& final(self)@.counter == (if n.identifier is None {
                    spec_next_counter(old(self)@.counter)
                } else {
                    old(self)@.counter
                })
                &&& final(self)@.pending == (if n.default_action is Some || n.action_button
                    is Some {
                    old(self)@.pending.insert(ident, entry)
                } else {
                    old(self)@.pending
                })
            }),
    {
        let Notification { title, body, subtitle, identifier, default_action, action_button, sound } =
            notification;
        let identifier = match identifier {
            Some(s) => s,
            None => {
                let c = self.counter;
                if self.counter == u64::MAX {
                    self.counter = 0;
                } else {
                    self.counter = self.counter + 1;
                }
                let mut s = String::from_str("makepad-shell.notification.");
                let dec = u64_to_dec(c);
                s.append(dec.as_str());
                s
            },
        };
        let (action_button_label, action_command) = match action_button {
            Some(b) => (Some(b.label), Some(b.command)),
            None => (None, None),
        };
        let track = match (&default_action, &action_command) {
            (None, None) => false,
            _ => true,
        };
        if track {
            let key = identifier.clone();
            self.pending.insert(
                key,
                PendingEntry { default_command: default_action, action_command },
            );
        }
        ShowRequest { identifier, title, subtitle, body, action_button_label, sound }
    }

    /// Handle one activation event for `identifier`: remove its pending
    /// entry and return the command to deliver, if any.
    pub fn handle_activation(&mut self, identifier: &String, activation_type: i64) -> (r: Option<
        CommandId,
    >)
        requires
            old(self).wf(),
        ensures
            final(self).wf(),
            final(self)@.counter == old(self)@.counter,
            (final(self)@.pending, r) == spec_handle_activation(
                old(self)@.pending,
                identifier@,
                activation_type,
            ),
    {
        match self.pending.take(identifier) {
            Some(entry) => activation_command(&entry, activation_type),
            None => None,
        }
    }
}

} // verus!
