//! The system-wide hotkey that brings the dashboard to the front: how a
//! parsed binding is registered with Windows.
use vstd::prelude::*;

verus! {

/// `RegisterHotKey` modifier: either Alt key.
pub const MOD_ALT: u32 = 0x0001;
/// `RegisterHotKey` modifier: either Ctrl key.
pub const MOD_CONTROL: u32 = 0x0002;
/// `RegisterHotKey` modifier: either Shift key.
pub const MOD_SHIFT: u32 = 0x0004;
/// `RegisterHotKey` modifier: auto-repeat does not fire the hotkey again.
pub const MOD_NOREPEAT: u32 = 0x4000;
/// Virtual-key code of the Tab key.
pub const VK_TAB: u32 = 0x09;
/// Virtual-key code of the Enter key.
pub const VK_RETURN: u32 = 0x0D;
/// Virtual-key code of the Esc key.
pub const VK_ESCAPE: u32 = 0x1B;
/// Virtual-key code of the space bar.
pub const VK_SPACE: u32 = 0x20;
/// Virtual-key code of F1; F2 to F24 follow it.
pub const VK_F1: u32 = 0x70;

/// The key of a global hotkey binding.
#[derive(Debug, Clone, Copy, PartialEq, Eq, Structural)]
pub enum GlobalHotkeyKey {
    /// A letter or digit, whose virtual-key code is its upper-case character code.
    Character(char),
    /// The function key F1, F2, ... with the given number.
    Function(u8),
    Tab,
    Esc,
    Enter,
    Space,
}

/// A parsed global hotkey: modifier keys and the key itself.
#[derive(Debug, Clone, Copy, PartialEq, Eq, Structural)]
pub struct GlobalHotkeyBinding {
    pub ctrl: bool,
    pub alt: bool,
    pub shift: bool,
    pub key: GlobalHotkeyKey,
}

/// The modifier flags registered for a binding.
pub open spec fn modifiers_spec(b: GlobalHotkeyBinding) -> u32 {
    MOD_NOREPEAT | (if b.ctrl {
        MOD_CONTROL
    } else {
        0u32
    }) | (if b.alt {
        MOD_ALT
    } else {
        0u32
    }) | (if b.shift {
        MOD_SHIFT
    } else {
        0u32
    })
}

/// The virtual-key code registered for a key.
pub open spec fn virtual_key_spec(key: GlobalHotkeyKey) -> u32 {
    match key {
        GlobalHotkeyKey::Character(c) => c as u32,
        GlobalHotkeyKey::Function(n) => (VK_F1 + n - 1) as u32,
        GlobalHotkeyKey::Tab => VK_TAB,
        GlobalHotkeyKey::Esc => VK_ESCAPE,
        GlobalHotkeyKey::Enter => VK_RETURN,
        GlobalHotkeyKey::Space => VK_SPACE,
    }
}

/// The modifier flags to register for a binding: no auto-repeat, plus one
/// flag per modifier key held.
pub fn hotkey_modifiers(binding: GlobalHotkeyBinding) -> (r: u32)
    ensures
        r == modifiers_spec(binding),
{
    MOD_NOREPEAT | (if binding.ctrl {
        MOD_CONTROL
    } else {
        0
    }) | (if binding.alt {
        MOD_ALT
    } else {
        0
    }) | (if binding.shift {
        MOD_SHIFT
    } else {
        0
    })
}

/// The registered modifier flags say exactly which modifier keys the binding
/// holds, and always ask for no auto-repeat.
pub proof fn lemma_modifiers_encode_binding(b: GlobalHotkeyBinding)
    ensures
        (modifiers_spec(b) & MOD_CONTROL != 0) == b.ctrl,
        (modifiers_spec(b) & MOD_ALT != 0) == b.alt,
        (modifiers_spec(b) & MOD_SHIFT != 0) == b.shift,
        modifiers_spec(b) & MOD_NOREPEAT != 0,
        modifiers_spec(b) & !(MOD_NOREPEAT | MOD_CONTROL | MOD_ALT | MOD_SHIFT) == 0,
{
    let r = modifiers_spec(b);
    let ctrl = b.ctrl;
    let alt = b.alt;
    let shift = b.shift;
    assert((r & 0x0002u32 != 0) == ctrl && (r & 0x0001u32 != 0) == alt && (r & 0x0004u32 != 0)
        == shift && r & 0x4000u32 != 0 && r & !(0x4000u32 | 0x0002u32 | 0x0001u32 | 0x0004u32)
        == 0) by (bit_vector)
        requires
            r == 0x4000u32 | (if ctrl {
                0x0002u32
            } else {
                0u32
            }) | (if alt {
                0x0001u32
            } else {
                0u32
            }) | (if shift {
                0x0004u32
            } else {
                0u32
            }),
    ;
}

/// The virtual-key code to register for a binding's key; function keys count
/// from F1.
pub fn hotkey_virtual_key(binding: GlobalHotkeyBinding) -> (r: u32)
    requires
        binding.key matches GlobalHotkeyKey::Function(n) ==> n >= 1,
    ensures
        r == virtual_key_spec(binding.key),
{
    match binding.key {
        GlobalHotkeyKey::Character(character) => character as u32,
        GlobalHotkeyKey::Function(index) => VK_F1 + (index - 1) as u32,
        GlobalHotkeyKey::Tab => VK_TAB,
        GlobalHotkeyKey::Esc => VK_ESCAPE,
        GlobalHotkeyKey::Enter => VK_RETURN,
        GlobalHotkeyKey::Space => VK_SPACE,
    }
}

/// A letter or digit key as the parser produces it: an ASCII digit or
/// upper-case letter; function keys number F1 to F24.
pub open spec fn registrable_key(key: GlobalHotkeyKey) -> bool {
    match key {
        GlobalHotkeyKey::Character(c) => ('0' <= c <= '9') || ('A' <= c <= 'Z'),
        GlobalHotkeyKey::Function(n) => 1 <= n <= 24,
        _ => true,
    }
}

/// The named keys register as Tab, Esc, Enter and the space bar; a letter or
/// digit registers as its character code, and function key Fn as the n-th
/// code from F1.
pub proof fn lemma_virtual_key_of_each_key(c: char, n: u8)
    requires
        1 <= n <= 24,
    ensures
        virtual_key_spec(GlobalHotkeyKey::Tab) == 0x09,
        virtual_key_spec(GlobalHotkeyKey::Esc) == 0x1B,
        virtual_key_spec(GlobalHotkeyKey::Enter) == 0x0D,
        virtual_key_spec(GlobalHotkeyKey::Space) == 0x20,
        virtual_key_spec(GlobalHotkeyKey::Character(c)) == c as u32,
        virtual_key_spec(GlobalHotkeyKey::Function(n)) == 0x70 + n - 1,
{
}

/// Different registrable keys register different virtual-key codes, so the
/// hotkey Windows reports is the one the binding names.
pub proof fn lemma_virtual_keys_are_distinct(a: GlobalHotkeyKey, b: GlobalHotkeyKey)
    requires
        registrable_key(a),
        registrable_key(b),
        a != b,
    ensures
        virtual_key_spec(a) != virtual_key_spec(b),
{
}

} // verus!
