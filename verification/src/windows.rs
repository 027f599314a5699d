use vstd::prelude::*;
use vstd::string::StrSliceExecFns;
use crate::errors::WindowsTrayError;
use crate::idmap::{command_id_to_menu_id, spec_command_menu_id};
use crate::macos::TrayClick;
use crate::shortcut::{Key, Shortcut};
use crate::tray::TrayCommandItem;

verus! {

// The computations behind a Win32-style tray backend: the flag word a menu
// entry is appended with, the wide (UTF-16) label text including the
// shortcut column, the zero-terminated wide strings the native structures
// want, and the mapping from tray window messages to click actions.

/// Flag bits of an appended native menu entry.
pub const MF_GRAYED: u32 = 0x1;

pub const MF_CHECKED: u32 = 0x8;

pub const MF_POPUP: u32 = 0x10;

pub const MF_SEPARATOR: u32 = 0x800;

/// The flag word a command entry is appended with: the grayed bit when it
/// is disabled, the checked bit when it is checked.
pub open spec fn spec_menu_item_flags(enabled: bool, checked: bool) -> u32 {
    ((if enabled {
        0
    } else {
        MF_GRAYED
    }) + (if checked {
        MF_CHECKED
    } else {
        0
    })) as u32
}

/// The flag word a command entry is appended with.
pub fn menu_item_flags(enabled: bool, checked: bool) -> (r: u32)
    ensures
        r == spec_menu_item_flags(enabled, checked),
{
    let mut flags: u32 = 0;
    if !enabled {
        flags = flags + MF_GRAYED;
    }
    if checked {
        flags = flags + MF_CHECKED;
    }
    flags
}

/// The tray window messages that report mouse input on the tray icon.
pub const WM_CONTEXTMENU: u32 = 0x7B;

pub const WM_LBUTTONDOWN: u32 = 0x201;

pub const WM_LBUTTONUP: u32 = 0x202;

pub const WM_LBUTTONDBLCLK: u32 = 0x203;

pub const WM_RBUTTONUP: u32 = 0x205;

/// What a tray message asks for: left-button input activates the
/// application, right-button input or the context-menu message pops the
/// menu up, anything else is ignored.
pub fn tray_message_action(event: u32) -> (r: Option<TrayClick>)
    ensures
        r == Some(TrayClick::Activate) <==> (event == WM_LBUTTONDOWN || event == WM_LBUTTONUP
            || event == WM_LBUTTONDBLCLK),
        r == Some(TrayClick::ShowMenu) <==> (event == WM_RBUTTONUP || event == WM_CONTEXTMENU),
{
    if event == WM_LBUTTONDOWN || event == WM_LBUTTONUP || event == WM_LBUTTONDBLCLK {
        Some(TrayClick::Activate)
    } else if event == WM_RBUTTONUP || event == WM_CONTEXTMENU {
        Some(TrayClick::ShowMenu)
    } else {
        None
    }
}

/// The UTF-16 code units of one scalar value: one unit below 0x10000, a
/// surrogate pair above.
pub open spec fn utf16_scalar(v: u32) -> Seq<u16> {
    if v < 0x10000 {
        seq![v as u16]
    } else {
        seq![
            (0xD800 + (v - 0x10000) / 0x400) as u16,
            (0xDC00 + (v - 0x10000) % 0x400) as u16,
        ]
    }
}

/// The UTF-16 encoding of a character sequence.
pub open spec fn spec_utf16(s: Seq<char>) -> Seq<u16>
    decreases s.len(),
{
    if s.len() == 0 {
        Seq::empty()
    } else {
        utf16_scalar(s[0] as u32) + spec_utf16(s.drop_first())
    }
}

/// Encoding one more character appends its units.
pub proof fn lemma_utf16_snoc(s: Seq<char>, c: char)
    ensures
        spec_utf16(s.push(c)) == spec_utf16(s) + utf16_scalar(c as u32),
    decreases s.len(),
{
    if s.len() == 0 {
        assert(s.push(c)[0] == c);
        assert(s.push(c).drop_first() =~= Seq::<char>::empty());
        assert(spec_utf16(Seq::<char>::empty()) =~= Seq::<u16>::empty());
        assert(spec_utf16(s) + utf16_scalar(c as u32) =~= utf16_scalar(c as u32));
        assert(utf16_scalar(c as u32) + Seq::<u16>::empty() =~= utf16_scalar(c as u32));
        assert(spec_utf16(s.push(c)) == utf16_scalar(c as u32) + spec_utf16(
            s.push(c).drop_first(),
        ));
    } else {
        assert(s.push(c)[0] == s[0]);
        assert(s.push(c).drop_first() =~= s.drop_first().push(c));
        lemma_utf16_snoc(s.drop_first(), c);
        assert(utf16_scalar(s[0] as u32) + (spec_utf16(s.drop_first()) + utf16_scalar(c as u32))
            =~= (utf16_scalar(s[0] as u32) + spec_utf16(s.drop_first())) + utf16_scalar(c as u32));
    }
}

/// Append one character's UTF-16 units.
fn push_utf16_char(out: &mut Vec<u16>, c: char)
    ensures
        final(out)@ == old(out)@ + utf16_scalar(c as u32),
{
    let ghost before = out@;
    let v = c as u32;
    if v < 0x10000 {
        out.push(v as u16);
        proof {
            assert(out@ =~= before + utf16_scalar(c as u32));
        }
    } else {
        let x = v - 0x10000;
        out.push((0xD800 + x / 0x400) as u16);
        out.push((0xDC00 + x % 0x400) as u16);
        proof {
            assert(out@ =~= before + utf16_scalar(c as u32));
        }
    }
}

/// Append the UTF-16 units of a string.
fn push_utf16(out: &mut Vec<u16>, s: &str)
    ensures
        final(out)@ == old(out)@ + spec_utf16(s@),
{
    let ghost before = out@;
    let n = s.unicode_len();
    let mut i: usize = 0;
    proof {
        assert(s@.take(0) =~= Seq::<char>::empty());
        assert(before + spec_utf16(s@.take(0)) =~= before);
    }
    while i < n
        invariant
            i <= n,
            n == s@.len(),
            out@ == before + spec_utf16(s@.take(i as int)),
        decreases n - i,
    {
        let c = s.get_char(i);
        push_utf16_char(out, c);
        proof {
            assert(s@.take(i + 1) =~= s@.take(i as int).push(s@[i as int]));
            lemma_utf16_snoc(s@.take(i as int), s@[i as int]);
            assert(before + (spec_utf16(s@.take(i as int)) + utf16_scalar(s@[i as int] as u32))
                =~= (before + spec_utf16(s@.take(i as int))) + utf16_scalar(s@[i as int] as u32));
        }
        i += 1;
    }
    proof {
        assert(s@.take(n as int) =~= s@);
    }
}

/// A string's UTF-16 units followed by one terminating zero, as the native
/// structures expect.
pub fn wide_null(text: &str) -> (r: Vec<u16>)
    ensures
        r@ == spec_utf16(text@) + seq![0u16],
{
    let mut out: Vec<u16> = Vec::new();
    proof {
        assert(out@ + spec_utf16(text@) =~= spec_utf16(text@));
    }
    push_utf16(&mut out, text);
    out.push(0);
    proof {
        assert(out@ =~= spec_utf16(text@) + seq![0u16]);
    }
    out
}

/// The class name of the hidden window that receives tray messages, as a
/// zero-terminated wide string.
pub fn tray_window_class_wide() -> (r: Vec<u16>)
    ensures
        r@ == spec_utf16("MakepadShellTrayWindow"@) + seq![0u16],
{
    wide_null("MakepadShellTrayWindow")
}

/// Write a zero-terminated copy of `src` into the fixed-size buffer `dst`:
/// the buffer is zeroed, then filled with as many leading units as fit
/// while keeping the final zero.
pub fn write_wide_z(dst: &mut Vec<u16>, src: &str)
    ensures
        final(dst)@.len() == old(dst)@.len(),
        ({
            let units = spec_utf16(src@);
            let max: int = if old(dst)@.len() == 0 {
                0
            } else {
                old(dst)@.len() - 1
            };
            let m: int = if units.len() < max {
                units.len() as int
            } else {
                max
            };
            forall|i: int|
                0 <= i < final(dst)@.len() ==> final(dst)@[i] == (if i < m {
                    units[i]
                } else {
                    0u16
                })
        }),
{
    let ghost units = spec_utf16(src@);
    let len = dst.len();
    let mut k: usize = 0;
    while k < len
        invariant
            k <= len,
            dst@.len() == len,
            forall|i: int| 0 <= i < k ==> dst@[i] == 0u16,
        decreases len - k,
    {
        dst.set(k, 0);
        k += 1;
    }
    let max = if len == 0 {
        0
    } else {
        len - 1
    };
    let n = src.unicode_len();
    let mut i: usize = 0;
    let mut w: usize = 0;
    while i < n && w < max
        invariant
            i <= n,
            n == src@.len(),
            max == (if len == 0 {
                0int
            } else {
                len - 1
            }),
            dst@.len() == len,
            w <= max,
            spec_utf16(src@.take(i as int)).len() >= w,
            forall|j: int|
                0 <= j < w ==> dst@[j] == spec_utf16(src@.take(i as int))[j],
            forall|j: int| w <= j < len ==> dst@[j] == 0u16,
            w < spec_utf16(src@.take(i as int)).len() ==> w == max,
        decreases n - i,
    {
        let c = src.get_char(i);
        let ghost taken = spec_utf16(src@.take(i as int));
        proof {
            assert(src@.take(i + 1) =~= src@.take(i as int).push(src@[i as int]));
            lemma_utf16_snoc(src@.take(i as int), src@[i as int]);
        }
        let v = c as u32;
        if v < 0x10000 {
            if w < max {
                dst.set(w, v as u16);
                w += 1;
            }
        } else {
            let x = v - 0x10000;
            if w < max {
                dst.set(w, (0xD800 + x / 0x400) as u16);
                w += 1;
            }
            if w < max {
                dst.set(w, (0xDC00 + x % 0x400) as u16);
                w += 1;
            }
        }
        i += 1;
    }
    proof {
        let m: int = if units.len() < (if len == 0 {
            0int
        } else {
            len - 1
        }) {
            units.len() as int
        } else {
            if len == 0 {
                0int
            } else {
                len - 1
            }
        };
        if i == n {
            assert(src@.take(n as int) =~= src@);
        }
        assert forall|j: int|
            0 <= j < dst@.len() implies dst@[j] == (if j < m {
            units[j]
        } else {
            0u16
        }) by {
            if j < w {
                if i == n {
                    assert(dst@[j] == spec_utf16(src@.take(i as int))[j]);
                } else {
                    assert(dst@[j] == spec_utf16(src@.take(i as int))[j]);
                    assert(spec_utf16(src@.take(i as int)).is_prefix_of(units)) by {
                        lemma_utf16_prefix(src@, i as int);
                    }
                }
            }
        }
    }
}

/// The encoding of a prefix is a prefix of the encoding.
pub proof fn lemma_utf16_prefix(s: Seq<char>, i: int)
    requires
        0 <= i <= s.len(),
    ensures
        spec_utf16(s.take(i)).is_prefix_of(spec_utf16(s)),
    decreases s.len() - i,
{
    if i == s.len() {
        assert(s.take(i) =~= s);
    } else {
        assert(s.take(i + 1) =~= s.take(i).push(s[i]));
        lemma_utf16_snoc(s.take(i), s[i]);
        lemma_utf16_prefix(s, i + 1);
        assert(spec_utf16(s.take(i)).is_prefix_of(spec_utf16(s.take(i + 1))));
    }
}

/// The decimal digit units of a non-negative number.
pub open spec fn spec_dec_units(n: int) -> Seq<u16>
    decreases n,
{
    if n < 10 {
        seq![(48 + n) as u16]
    } else {
        spec_dec_units(n / 10).push((48 + n % 10) as u16)
    }
}

/// Append the decimal digits of a small number.
fn push_dec_u8(out: &mut Vec<u16>, n: u8)
    ensures
        final(out)@ == old(out)@ + spec_dec_units(n as int),
{
    let ghost before = out@;
    if n < 10 {
        out.push(48 + n as u16);
        proof {
            assert(out@ =~= before + spec_dec_units(n as int));
        }
    } else if n < 100 {
        out.push(48 + (n / 10) as u16);
        out.push(48 + (n % 10) as u16);
        proof {
            assert(spec_dec_units(n as int) == spec_dec_units(n as int / 10).push(
                (48 + n as int % 10) as u16,
            ));
            assert(out@ =~= before + spec_dec_units(n as int));
        }
    } else {
        out.push(48 + (n / 100) as u16);
        out.push(48 + ((n / 10) % 10) as u16);
        out.push(48 + (n % 10) as u16);
        proof {
            assert(spec_dec_units(n as int) == spec_dec_units(n as int / 10).push(
                (48 + n as int % 10) as u16,
            ));
            assert(spec_dec_units(n as int / 10) == spec_dec_units(n as int / 10 / 10).push(
                (48 + (n as int / 10) % 10) as u16,
            ));
            assert(n as int / 10 / 10 == n as int / 100);
            assert(out@ =~= before + spec_dec_units(n as int));
        }
    }
}

/// The uppercased scalar of a key character: ASCII lowercase letters are
/// raised, everything else is unchanged.
pub open spec fn spec_upper_scalar(v: u32) -> u32 {
    if 97 <= v <= 122 {
        (v - 32) as u32
    } else {
        v
    }
}

/// The UTF-16 units of the label text a shortcut key shows.
pub open spec fn spec_key_label_units(k: Key) -> Seq<u16> {
    match k {
        Key::Char(c) => utf16_scalar(spec_upper_scalar(c as u32)),
        Key::Enter => spec_utf16("Enter"@),
        Key::Escape => spec_utf16("Esc"@),
        Key::F(n) => seq![70u16] + spec_dec_units(n as int),
    }
}

/// The UTF-16 units of the modifier prefix a shortcut shows, in the fixed
/// order Ctrl, Alt, Shift, Win, each followed by a plus sign.
pub open spec fn spec_mods_prefix_units(s: Shortcut) -> Seq<u16> {
    (if s.mods.ctrl {
        spec_utf16("Ctrl+"@)
    } else {
        Seq::empty()
    }) + (if s.mods.alt {
        spec_utf16("Alt+"@)
    } else {
        Seq::empty()
    }) + (if s.mods.shift {
        spec_utf16("Shift+"@)
    } else {
        Seq::empty()
    }) + (if s.mods.meta {
        spec_utf16("Win+"@)
    } else {
        Seq::empty()
    })
}

/// The UTF-16 units of the whole shortcut column text.
pub open spec fn spec_shortcut_label_units(s: Shortcut) -> Seq<u16> {
    spec_mods_prefix_units(s) + spec_key_label_units(s.key)
}

/// The shortcut column text of a menu entry, as UTF-16 units.
#[verifier::rlimit(60)]
pub fn shortcut_label_units(s: &Shortcut) -> (r: Vec<u16>)
    ensures
        r@ == spec_shortcut_label_units(*s),
{
    let mut out: Vec<u16> = Vec::new();
    proof {
        assert(out@ =~= Seq::<u16>::empty());
    }
    if s.mods.ctrl {
        push_utf16(&mut out, "Ctrl+");
    }
    if s.mods.alt {
        push_utf16(&mut out, "Alt+");
    }
    if s.mods.shift {
        push_utf16(&mut out, "Shift+");
    }
    if s.mods.meta {
        push_utf16(&mut out, "Win+");
    }
    proof {
        assert(out@ =~= spec_mods_prefix_units(*s));
    }
    match s.key {
        Key::Char(c) => {
            let v = c as u32;
            let u = if 97 <= v && v <= 122 {
                v - 32
            } else {
                v
            };
            let ghost before = out@;
            if u < 0x10000 {
                out.push(u as u16);
            } else {
                let x = u - 0x10000;
                out.push((0xD800 + x / 0x400) as u16);
                out.push((0xDC00 + x % 0x400) as u16);
            }
            proof {
                assert(out@ =~= before + utf16_scalar(spec_upper_scalar(c as u32)));
            }
        },
        Key::Enter => {
            push_utf16(&mut out, "Enter");
        },
        Key::Escape => {
            push_utf16(&mut out, "Esc");
        },
        Key::F(n) => {
            let ghost before = out@;
            out.push(70);
            push_dec_u8(&mut out, n);
            proof {
                assert(out@ =~= before + (seq![70u16] + spec_dec_units(n as int)));
            }
        },
    }
    proof {
        assert(out@ =~= spec_shortcut_label_units(*s));
    }
    out
}

/// The label column a command entry shows: the label itself, and when the
/// entry carries a shortcut, a tab and the shortcut text.
pub open spec fn spec_menu_label_units(label: Seq<char>, shortcut: Option<Shortcut>) -> Seq<u16> {
    spec_utf16(label) + (match shortcut {
        Some(s) => seq![9u16] + spec_shortcut_label_units(s),
        None => Seq::empty(),
    })
}

/// The native fields one tray command entry is appended with.
#[derive(Debug, PartialEq)]
pub struct WinCommandEntry {
    /// The entry's flag word.
    pub flags: u32,
    /// The 32-bit menu id the command id encodes to.
    pub menu_id: u32,
    /// The entry's zero-terminated wide label, shortcut column included.
    pub label: Vec<u16>,
}

/// How one tray command item is appended to a native menu. Fails exactly
/// when the command id does not fit 32 bits.
pub fn plan_win_command_entry(cmd: &TrayCommandItem) -> (r: Result<
    WinCommandEntry,
    WindowsTrayError,
>)
    ensures
        match r {
            Ok(e) => spec_command_menu_id(cmd.id) == Some(e.menu_id) && e.flags
                == spec_menu_item_flags(cmd.enabled, cmd.checked) && e.label@
                == spec_menu_label_units(cmd.label@, cmd.shortcut) + seq![0u16],
            Err(err) => spec_command_menu_id(cmd.id) is None && err
                == WindowsTrayError::BadCommandId,
        },
{
    let menu_id = match command_id_to_menu_id(&cmd.id) {
        Ok(m) => m,
        Err(e) => {
            return Err(e);
        },
    };
    let flags = menu_item_flags(cmd.enabled, cmd.checked);
    let mut label: Vec<u16> = Vec::new();
    proof {
        assert(label@ =~= Seq::<u16>::empty());
    }
    push_utf16(&mut label, cmd.label.as_str());
    match &cmd.shortcut {
        Some(s) => {
            label.push(9);
            let mut tailpart = shortcut_label_units(s);
            label.append(&mut tailpart);
            proof {
                assert(label@ =~= spec_menu_label_units(cmd.label@, cmd.shortcut));
            }
        },
        None => {
            proof {
                assert(label@ =~= spec_menu_label_units(cmd.label@, cmd.shortcut));
            }
        },
    }
    label.push(0);
    proof {
        assert(label@ =~= spec_menu_label_units(cmd.label@, cmd.shortcut) + seq![0u16]);
    }
    Ok(WinCommandEntry { flags, menu_id, label })
}

} // verus!
