//! The button that shows a hotkey and captures a new one.
//!
//! While a hotkey is captured, a keyboard hook swallows every key, so that no other application is
//! triggered by accident.

use vstd::prelude::*;
use vstd::string::*;

use crate::text;
use crate::text::{decimal_chars, text_of};

verus! {

pub const MOD_ALT: u32 = 1;

pub const MOD_CONTROL: u32 = 2;

pub const MOD_SHIFT: u32 = 4;

pub const MOD_WIN: u32 = 8;

pub const VK_ESCAPE: u32 = 27;

pub const WM_KEYDOWN: u32 = 0x0100;

pub const WM_KEYUP: u32 = 0x0101;

pub const WM_SYSKEYDOWN: u32 = 0x0104;

pub const WM_SYSKEYUP: u32 = 0x0105;

/// The modifier that a key stands for, the left, the right or either one; zero for other keys.
pub open spec fn modifier_of(vk: u32) -> u32 {
    if vk == 16 || vk == 160 || vk == 161 {
        MOD_SHIFT
    } else if vk == 17 || vk == 162 || vk == 163 {
        MOD_CONTROL
    } else if vk == 18 || vk == 164 || vk == 165 {
        MOD_ALT
    } else if vk == 91 || vk == 92 {
        MOD_WIN
    } else {
        0
    }
}

/// The modifier that a key stands for; zero for other keys.
pub fn modifier_flag(vk: u32) -> (flag: u32)
    ensures
        flag == modifier_of(vk),
{
    match vk {
        16 | 160 | 161 => MOD_SHIFT,
        17 | 162 | 163 => MOD_CONTROL,
        18 | 164 | 165 => MOD_ALT,
        91 | 92 => MOD_WIN,
        _ => 0,
    }
}

/// The states of the modifier keys, as the system tells them: negative while a key is down.
#[derive(Debug, Clone, Copy, PartialEq, Eq, Structural)]
pub struct KeyStates {
    pub control: i16,
    pub alt: i16,
    pub shift: i16,
    pub left_win: i16,
    pub right_win: i16,
}

/// The flag where it is set.
pub open spec fn flag_if(set: bool, flag: u32) -> u32 {
    if set {
        flag
    } else {
        0
    }
}

/// The modifiers that are held down.
pub fn held_modifiers(states: &KeyStates) -> (mods: u32)
    ensures
        mods == flag_if(states.control < 0, MOD_CONTROL) | flag_if(states.alt < 0, MOD_ALT)
            | flag_if(states.shift < 0, MOD_SHIFT) | flag_if(
            states.left_win < 0 || states.right_win < 0,
            MOD_WIN,
        ),
{
    let control: u32 = if states.control < 0 {
        MOD_CONTROL
    } else {
        0
    };
    let alt: u32 = if states.alt < 0 {
        MOD_ALT
    } else {
        0
    };
    let shift: u32 = if states.shift < 0 {
        MOD_SHIFT
    } else {
        0
    };
    let win: u32 = if states.left_win < 0 || states.right_win < 0 {
        MOD_WIN
    } else {
        0
    };
    control | alt | shift | win
}

/// What becomes of a key while a hotkey is captured.
#[derive(Debug, Clone, Copy, PartialEq, Eq)]
pub enum KeyOutcome {
    /// The key goes on to the next hook.
    Pass,
    /// The key is swallowed.
    Swallow,
    /// The key is swallowed, and ends the capture: with modifiers and a key, or cancelled.
    Finish(Option<(u32, u32)>),
}

/// A hotkey that is being captured.
#[derive(Debug, Clone, Copy, PartialEq, Eq, Structural)]
pub struct KeyCapture {
    /// The modifiers that are held down.
    pub modifiers: u32,
}

/// A message of a key that is pressed.
pub open spec fn is_press(msg: u32) -> bool {
    msg == WM_KEYDOWN || msg == WM_SYSKEYDOWN
}

/// A message of a key that is released.
pub open spec fn is_release(msg: u32) -> bool {
    msg == WM_KEYUP || msg == WM_SYSKEYUP
}

impl KeyCapture {
    /// Starts a capture. Modifiers that are held down already count.
    pub fn start(states: &KeyStates) -> (capture: Self)
        ensures
            capture.modifiers == flag_if(states.control < 0, MOD_CONTROL) | flag_if(
                states.alt < 0,
                MOD_ALT,
            ) | flag_if(states.shift < 0, MOD_SHIFT) | flag_if(
                states.left_win < 0 || states.right_win < 0,
                MOD_WIN,
            ),
    {
        KeyCapture { modifiers: held_modifiers(states) }
    }

    /// What becomes of a key.
    pub open spec fn outcome(&self, n_code: i32, msg: u32, vk: u32) -> KeyOutcome {
        if n_code < 0 || !(is_press(msg) || is_release(msg)) {
            KeyOutcome::Pass
        } else if is_press(msg) && vk == VK_ESCAPE {
            KeyOutcome::Finish(None)
        } else if is_press(msg) && modifier_of(vk) == 0 && self.modifiers != 0 {
            KeyOutcome::Finish(Some((self.modifiers, vk)))
        } else {
            KeyOutcome::Swallow
        }
    }

    /// The modifiers held down after a key.
    pub open spec fn held_after(&self, n_code: i32, msg: u32, vk: u32) -> u32 {
        if n_code < 0 || modifier_of(vk) == 0 {
            self.modifiers
        } else if is_press(msg) {
            self.modifiers | modifier_of(vk)
        } else if is_release(msg) {
            self.modifiers & !modifier_of(vk)
        } else {
            self.modifiers
        }
    }

    /// The keyboard hook: Escape cancels, a modifier is taken note of, and any other key completes
    /// the hotkey where a modifier is held down.
    pub fn hook_proc(&mut self, n_code: i32, msg: u32, vk: u32) -> (outcome: KeyOutcome)
        ensures
            outcome == old(self).outcome(n_code, msg, vk),
            final(self).modifiers == old(self).held_after(n_code, msg, vk),
    {
        if n_code >= 0 {
            let mod_flag: u32 = modifier_flag(vk);
            if msg == WM_KEYDOWN || msg == WM_SYSKEYDOWN {
                if vk == VK_ESCAPE {
                    return KeyOutcome::Finish(None);
                }
                if mod_flag != 0 {
                    self.modifiers = self.modifiers | mod_flag;
                    return KeyOutcome::Swallow;
                }
                if self.modifiers != 0 {
                    return KeyOutcome::Finish(Some((self.modifiers, vk)));
                }
                return KeyOutcome::Swallow;
            } else if msg == WM_KEYUP || msg == WM_SYSKEYUP {
                if mod_flag != 0 {
                    self.modifiers = self.modifiers & !mod_flag;
                }
                return KeyOutcome::Swallow;
            }
        }
        KeyOutcome::Pass
    }
}

/// A text in front of a key, where its modifier is set.
pub open spec fn modifier_text(modifiers: u32, flag: u32, name: Seq<char>) -> Seq<char> {
    if modifiers & flag != 0 {
        name + " + "@
    } else {
        Seq::empty()
    }
}

/// The name of a key: a digit or a letter is named by itself, as its code is that of the character.
pub open spec fn key_text(vk: u32) -> Seq<char> {
    if 0x30 <= vk <= 0x39 || 0x41 <= vk <= 0x5A {
        seq![(vk as u8) as char]
    } else if vk == 219 {
        "["@
    } else if vk == 221 {
        "]"@
    } else if vk == 188 {
        ","@
    } else if vk == 190 {
        "."@
    } else if vk == 191 {
        "/"@
    } else if vk == 186 {
        ";"@
    } else if vk == 222 {
        "'"@
    } else if vk == 192 {
        "`"@
    } else {
        "VK_"@ + text::decimal(vk as nat)
    }
}

/// A hotkey in words: the modifiers Win, Ctrl, Alt and Shift in that order, then the key.
pub open spec fn hotkey_text(modifiers: u32, vk: u32) -> Seq<char> {
    modifier_text(modifiers, MOD_WIN, "Win"@) + modifier_text(modifiers, MOD_CONTROL, "Ctrl"@)
        + modifier_text(modifiers, MOD_ALT, "Alt"@) + modifier_text(modifiers, MOD_SHIFT, "Shift"@)
        + key_text(vk)
}

/// The name of a key.
pub fn key_name(vk: u32) -> (name: String)
    ensures
        name@ == key_text(vk),
{
    let mut name: String = String::new();
    if (0x30 <= vk && vk <= 0x39) || (0x41 <= vk && vk <= 0x5A) {
        name.push(vk as u8 as char);
    } else {
        match vk {
            219 => name.append("["),
            221 => name.append("]"),
            188 => name.append(","),
            190 => name.append("."),
            191 => name.append("/"),
            186 => name.append(";"),
            222 => name.append("'"),
            192 => name.append("`"),
            _ => {
                name.append("VK_");
                name.append(text_of(&decimal_chars(vk as u128)).as_str());
            },
        }
    }
    assert(name@ =~= key_text(vk));
    name
}

/// Converts VK code and modifiers to the text displayed.
pub fn format_hotkey(modifiers: u32, vk: u32) -> (shown: String)
    ensures
        shown@ == hotkey_text(modifiers, vk),
{
    let mut shown: String = String::new();
    if modifiers & MOD_WIN != 0 {
        shown.append("Win");
        shown.append(" + ");
    }
    if modifiers & MOD_CONTROL != 0 {
        shown.append("Ctrl");
        shown.append(" + ");
    }
    if modifiers & MOD_ALT != 0 {
        shown.append("Alt");
        shown.append(" + ");
    }
    if modifiers & MOD_SHIFT != 0 {
        shown.append("Shift");
        shown.append(" + ");
    }
    shown.append(key_name(vk).as_str());
    assert(shown@ =~= hotkey_text(modifiers, vk));
    shown
}

/// What the button says: its hotkey, or what to do while one is captured.
pub fn button_label(hotkey: (u32, u32), is_listening: bool) -> (label: String)
    ensures
        is_listening ==> label@ == "Listening... (Press Esc to cancel)"@,
        !is_listening ==> label@ == hotkey_text(hotkey.0, hotkey.1),
{
    if is_listening {
        "Listening... (Press Esc to cancel)".to_owned()
    } else {
        format_hotkey(hotkey.0, hotkey.1)
    }
}

/// A captured hotkey has a modifier, and its key is neither a modifier nor Escape.
pub proof fn law_captured_hotkey_is_usable(
    capture: KeyCapture,
    n_code: i32,
    msg: u32,
    vk: u32,
    captured: (u32, u32),
)
    requires
        capture.outcome(n_code, msg, vk) == KeyOutcome::Finish(Some(captured)),
    ensures
        captured.0 != 0,
        captured.0 == capture.modifiers,
        captured.1 == vk,
        modifier_of(captured.1) == 0,
        captured.1 != VK_ESCAPE,
{
}

/// No key that is pressed or released reaches another application while a hotkey is captured.
pub proof fn law_capture_swallows_keys(capture: KeyCapture, n_code: i32, msg: u32, vk: u32)
    requires
        n_code >= 0,
        is_press(msg) || is_release(msg),
    ensures
        !(capture.outcome(n_code, msg, vk) is Pass),
{
}

/// A modifier that is pressed and released again is not held any more, and the other ones are as
/// they were.
pub proof fn law_released_modifier_is_forgotten(capture: KeyCapture, vk: u32)
    ensures
        ({
            let pressed = KeyCapture { modifiers: capture.held_after(0, WM_KEYDOWN, vk) };
            pressed.held_after(0, WM_KEYUP, vk) == capture.modifiers & !modifier_of(vk)
        }),
{
    let m = capture.modifiers;
    let f = modifier_of(vk);
    assert((m | f) & !f == m & !f) by (bit_vector);
    assert(m & !0u32 == m) by (bit_vector);
}

/// The modifier keys are those of Shift, Ctrl, Alt and Win, each on its own, left or right. Every other
/// key is none.
pub proof fn law_modifier_keys(vk: u32)
    ensures
        modifier_of(vk) == 4 <==> vk == 0x10 || vk == 0xA0 || vk == 0xA1,
        modifier_of(vk) == 2 <==> vk == 0x11 || vk == 0xA2 || vk == 0xA3,
        modifier_of(vk) == 1 <==> vk == 0x12 || vk == 0xA4 || vk == 0xA5,
        modifier_of(vk) == 8 <==> vk == 0x5B || vk == 0x5C,
        modifier_of(vk) == 0 || modifier_of(vk) == 1 || modifier_of(vk) == 2 || modifier_of(vk) == 4
            || modifier_of(vk) == 8,
{
}

/// Each modifier is held exactly if its key is down, whatever the others are, and there are no others.
pub proof fn law_held_modifiers(control: bool, alt: bool, shift: bool, win: bool)
    ensures
        ({
            let held = flag_if(control, MOD_CONTROL) | flag_if(alt, MOD_ALT) | flag_if(
                shift,
                MOD_SHIFT,
            ) | flag_if(win, MOD_WIN);
            &&& held & 1 != 0 <==> alt
            &&& held & 2 != 0 <==> control
            &&& held & 4 != 0 <==> shift
            &&& held & 8 != 0 <==> win
            &&& held & !15u32 == 0
        }),
{
    let c = flag_if(control, MOD_CONTROL);
    let a = flag_if(alt, MOD_ALT);
    let s = flag_if(shift, MOD_SHIFT);
    let w = flag_if(win, MOD_WIN);
    assert((c | a | s | w) & 1 == a && (c | a | s | w) & 2 == c && (c | a | s | w) & 4 == s && (c
        | a | s | w) & 8 == w && (c | a | s | w) & !15u32 == 0) by (bit_vector)
        requires
            c == 0 || c == 2,
            a == 0 || a == 1,
            s == 0 || s == 4,
            w == 0 || w == 8,
    ;
}

/// A key is pressed or released with or without Alt; the messages differ, and what they mean does not.
pub proof fn law_key_messages(capture: KeyCapture, n_code: i32, vk: u32)
    ensures
        capture.outcome(n_code, 0x100, vk) == capture.outcome(n_code, 0x104, vk),
        capture.outcome(n_code, 0x101, vk) == capture.outcome(n_code, 0x105, vk),
        capture.held_after(n_code, 0x100, vk) == capture.held_after(n_code, 0x104, vk),
        capture.held_after(n_code, 0x101, vk) == capture.held_after(n_code, 0x105, vk),
{
}

/// What passes the capture: messages that are none of keys, and those that the system does not want to
/// be handled. They change nothing.
pub proof fn law_what_passes_the_capture(capture: KeyCapture, n_code: i32, msg: u32, vk: u32)
    ensures
        capture.outcome(n_code, msg, vk) == KeyOutcome::Pass <==> n_code < 0 || (msg != 0x100 && msg
            != 0x101 && msg != 0x104 && msg != 0x105),
        capture.outcome(n_code, msg, vk) == KeyOutcome::Pass ==> capture.held_after(n_code, msg, vk)
            == capture.modifiers,
{
}

/// Pressing Escape cancels the capture, whatever is held. Pressing another key that is no modifier ends
/// it with what is held and that key, where anything is held. No other key ends it.
pub proof fn law_what_ends_the_capture(capture: KeyCapture, n_code: i32, msg: u32, vk: u32)
    requires
        n_code >= 0,
    ensures
        capture.outcome(n_code, msg, vk) == KeyOutcome::Finish(None) <==> (msg == 0x100 || msg
            == 0x104) && vk == 27,
        capture.outcome(n_code, msg, vk) == KeyOutcome::Finish(Some((capture.modifiers, vk))) <==> (
        msg == 0x100 || msg == 0x104) && vk != 27 && modifier_of(vk) == 0 && capture.modifiers != 0,
        capture.outcome(n_code, msg, vk) matches KeyOutcome::Finish(Some(hotkey)) ==> hotkey == (
            capture.modifiers,
            vk,
        ),
{
}

/// Pressing a modifier key sets its bit, releasing it clears that bit, and neither touches the others,
/// `others` being any bits without it. Other keys leave all as they are.
pub proof fn law_modifier_keys_change_one_bit(
    capture: KeyCapture,
    n_code: i32,
    vk: u32,
    others: u32,
)
    requires
        n_code >= 0,
        others & modifier_of(vk) == 0,
    ensures
        ({
            let pressed = capture.held_after(n_code, 0x100, vk);
            let released = capture.held_after(n_code, 0x101, vk);
            &&& pressed & modifier_of(vk) == modifier_of(vk)
            &&& released & modifier_of(vk) == 0
            &&& pressed & others == capture.modifiers & others
            &&& released & others == capture.modifiers & others
            &&& modifier_of(vk) == 0 ==> pressed == capture.modifiers && released
                == capture.modifiers
        }),
{
    let m = capture.modifiers;
    let f = modifier_of(vk);
    assert((m | f) & f == f && (m & !f) & f == 0 && m & 0u32 == 0) by (bit_vector);
    assert((m | f) & others == m & others && (m & !f) & others == m & others) by (bit_vector)
        requires
            others & f == 0,
    ;
}

/// A digit or a letter is shown as itself. Eight keys are shown as the sign that they type, and any
/// other by its number.
pub proof fn law_key_names(vk: u32)
    ensures
        (0x30 <= vk <= 0x39 || 0x41 <= vk <= 0x5A) ==> key_text(vk) == seq![vk as char],
        key_text(0xDB) == seq!['['] && key_text(0xDD) == seq![']'],
        key_text(0xBC) == seq![','] && key_text(0xBE) == seq!['.'],
        key_text(0xBF) == seq!['/'] && key_text(0xBA) == seq![';'],
        key_text(0xDE) == seq!['\''] && key_text(0xC0) == seq!['`'],
        key_text(vk).len() > 1 ==> key_text(vk) == seq!['V', 'K', '_'] + text::decimal(vk as nat),
        key_text(vk).len() > 1 <==> !(0x30 <= vk <= 0x39 || 0x41 <= vk <= 0x5A || vk == 0xDB || vk
            == 0xDD || vk == 0xBC || vk == 0xBE || vk == 0xBF || vk == 0xBA || vk == 0xDE || vk
            == 0xC0),
{
    reveal_strlit("[");
    reveal_strlit("]");
    reveal_strlit(",");
    reveal_strlit(".");
    reveal_strlit("/");
    reveal_strlit(";");
    reveal_strlit("'");
    reveal_strlit("`");
    reveal_strlit("VK_");
    assert("["@ =~= seq!['['] && "]"@ =~= seq![']'] && ","@ =~= seq![','] && "."@ =~= seq!['.']);
    assert("/"@ =~= seq!['/'] && ";"@ =~= seq![';'] && "'"@ =~= seq!['\''] && "`"@ =~= seq!['`']);
    assert("VK_"@ =~= seq!['V', 'K', '_']);
}

proof fn lemma_key_character(vk: u32)
    requires
        key_text(vk).len() <= 1,
    ensures
        key_text(vk)[0] as u32 == if 0x30 <= vk <= 0x39 || 0x41 <= vk <= 0x5A {
            vk
        } else if vk == 219 {
            0x5B
        } else if vk == 221 {
            0x5D
        } else if vk == 188 {
            0x2C
        } else if vk == 190 {
            0x2E
        } else if vk == 191 {
            0x2F
        } else if vk == 186 {
            0x3B
        } else if vk == 222 {
            0x27
        } else {
            0x60
        },
        vk == 192 || 0x30 <= vk <= 0x39 || 0x41 <= vk <= 0x5A || vk == 219 || vk == 221 || vk == 188
            || vk == 190 || vk == 191 || vk == 186 || vk == 222,
{
    law_key_names(vk);
}

/// Different keys are shown differently.
pub proof fn law_key_names_differ(a: u32, b: u32)
    requires
        key_text(a) == key_text(b),
    ensures
        a == b,
{
    law_key_names(a);
    law_key_names(b);
    if key_text(a).len() > 1 {
        let prefix = seq!['V', 'K', '_'];
        assert((prefix + text::decimal(a as nat)).skip(3) =~= text::decimal(a as nat));
        assert((prefix + text::decimal(b as nat)).skip(3) =~= text::decimal(b as nat));
        text::lemma_decimal_injective(a as nat, b as nat);
    } else {
        lemma_key_character(a);
        lemma_key_character(b);
        assert(key_text(a)[0] == key_text(b)[0]);
    }
}

/// The modifiers stand before the key in the order Win, Ctrl, Alt, Shift, each where it is set. Other
/// bits are not shown.
pub proof fn law_hotkey_is_shown_with_its_modifiers(modifiers: u32, vk: u32)
    ensures
        modifiers & 15 == 0 ==> hotkey_text(modifiers, vk) == key_text(vk),
        modifiers & 15 == 0 ==> hotkey_text(modifiers | 4, vk) == "Shift + "@ + key_text(vk),
        modifiers & 11 == 0 ==> hotkey_text(modifiers | 1, vk) == "Alt + "@ + hotkey_text(
            modifiers,
            vk,
        ),
        modifiers & 10 == 0 ==> hotkey_text(modifiers | 2, vk) == "Ctrl + "@ + hotkey_text(
            modifiers,
            vk,
        ),
        modifiers & 8 == 0 ==> hotkey_text(modifiers | 8, vk) == "Win + "@ + hotkey_text(
            modifiers,
            vk,
        ),
{
    reveal_strlit(" + ");
    reveal_strlit("Win");
    reveal_strlit("Ctrl");
    reveal_strlit("Alt");
    reveal_strlit("Shift");
    reveal_strlit("Win + ");
    reveal_strlit("Ctrl + ");
    reveal_strlit("Alt + ");
    reveal_strlit("Shift + ");
    assert("Win"@ + " + "@ =~= "Win + "@);
    assert("Ctrl"@ + " + "@ =~= "Ctrl + "@);
    assert("Alt"@ + " + "@ =~= "Alt + "@);
    assert("Shift"@ + " + "@ =~= "Shift + "@);
    let m = modifiers;
    assert(m & 15 == 0 ==> m & 8 == 0 && m & 2 == 0 && m & 1 == 0 && m & 4 == 0) by (bit_vector);
    assert(m & 11 == 0 ==> m & 8 == 0 && m & 2 == 0 && m & 1 == 0) by (bit_vector);
    assert(m & 10 == 0 ==> m & 8 == 0 && m & 2 == 0) by (bit_vector);
    assert((m | 4) & 4 != 0 && (m | 4) & 8 == m & 8 && (m | 4) & 2 == m & 2 && (m | 4) & 1 == m & 1)
        by (bit_vector);
    assert((m | 1) & 1 != 0 && (m | 1) & 8 == m & 8 && (m | 1) & 2 == m & 2 && (m | 1) & 4 == m & 4)
        by (bit_vector);
    assert((m | 2) & 2 != 0 && (m | 2) & 8 == m & 8 && (m | 2) & 1 == m & 1 && (m | 2) & 4 == m & 4)
        by (bit_vector);
    assert((m | 8) & 8 != 0 && (m | 8) & 1 == m & 1 && (m | 8) & 2 == m & 2 && (m | 8) & 4 == m & 4)
        by (bit_vector);
    if m & 15 == 0 {
        assert(hotkey_text(m, vk) =~= key_text(vk));
        assert(hotkey_text(m | 4, vk) =~= "Shift + "@ + key_text(vk));
    }
    if m & 11 == 0 {
        assert(hotkey_text(m | 1, vk) =~= "Alt + "@ + hotkey_text(m, vk));
    }
    if m & 10 == 0 {
        assert(hotkey_text(m | 2, vk) =~= "Ctrl + "@ + hotkey_text(m, vk));
    }
    if m & 8 == 0 {
        assert(hotkey_text(m | 8, vk) =~= "Win + "@ + hotkey_text(m, vk));
    }
}

} // verus!
