//! From the keyboard's virtual keys to the engine's keys.
use crate::composer::SkkEngine;
use crate::config::ConfigModel;
use crate::laws;
use crate::model;
use crate::model::{CompositionModel, EngineModel};
use crate::{CompositionState, InputMode, Key, KeyEvent};
use vstd::prelude::*;

verus! {

pub const VK_BACK: u16 = 0x08;

pub const VK_TAB: u16 = 0x09;

pub const VK_RETURN: u16 = 0x0D;

pub const VK_SHIFT: u16 = 0x10;

pub const VK_CONTROL: u16 = 0x11;

pub const VK_MENU: u16 = 0x12;

pub const VK_CAPITAL: u16 = 0x14;

pub const VK_ESCAPE: u16 = 0x1B;

pub const VK_SPACE: u16 = 0x20;

pub const VK_END: u16 = 0x23;

pub const VK_HOME: u16 = 0x24;

pub const VK_LEFT: u16 = 0x25;

pub const VK_UP: u16 = 0x26;

pub const VK_RIGHT: u16 = 0x27;

pub const VK_DOWN: u16 = 0x28;

pub const VK_DELETE: u16 = 0x2E;

pub const VK_G: u16 = 0x47;

pub const VK_H: u16 = 0x48;

pub const VK_J: u16 = 0x4A;

pub const VK_LCONTROL: u16 = 0xA2;

pub const VK_RCONTROL: u16 = 0xA3;

pub const VK_OEM_1: u16 = 0xBA;

/// The modifier keys that are held.
#[derive(Debug, Clone, Copy, PartialEq, Eq, Structural)]
pub struct Modifiers {
    pub shift: bool,
    pub ctrl: bool,
    pub alt: bool,
}

/// A modifier that another key stands for.
#[derive(Debug, Clone, Copy, PartialEq, Eq, Structural)]
pub enum Forced {
    Nothing,
    Shift,
    Ctrl,
}

/// What an Emacs key does.
#[derive(Debug, Clone, Copy, PartialEq, Eq, Structural)]
pub enum EmacsAction {
    /// Press this key instead.
    SimulateKey(u16),
    /// Delete up to the end of the line.
    KillLine,
}

/// Whether a key is down: the high bit of its byte in the keyboard's state.
pub open spec fn is_down(state: Seq<u8>, vk: u16) -> bool {
    state[vk as int] >= 0x80
}

/// Whether a key is a modifier by itself.
pub open spec fn is_modifier(vk: u16) -> bool {
    vk == VK_SHIFT || vk == VK_CONTROL || vk == VK_MENU
}

/// The modifiers of a keyboard state, with one that another key stands for.
pub open spec fn modifiers_of(state: Seq<u8>, forced: Forced) -> Modifiers {
    Modifiers {
        shift: is_down(state, VK_SHIFT) || forced == Forced::Shift,
        ctrl: is_down(state, VK_CONTROL) || forced == Forced::Ctrl,
        alt: is_down(state, VK_MENU),
    }
}

/// What a key does together with Ctrl, as in Emacs.
pub open spec fn emacs_of(vk: u16) -> Option<EmacsAction> {
    if vk == 0x46 {
        Some(EmacsAction::SimulateKey(VK_RIGHT))
    } else if vk == 0x42 {
        Some(EmacsAction::SimulateKey(VK_LEFT))
    } else if vk == 0x41 {
        Some(EmacsAction::SimulateKey(VK_HOME))
    } else if vk == 0x45 {
        Some(EmacsAction::SimulateKey(VK_END))
    } else if vk == 0x4E {
        Some(EmacsAction::SimulateKey(VK_DOWN))
    } else if vk == 0x50 {
        Some(EmacsAction::SimulateKey(VK_UP))
    } else if vk == 0x44 {
        Some(EmacsAction::SimulateKey(VK_DELETE))
    } else if vk == 0x4B {
        Some(EmacsAction::KillLine)
    } else {
        None
    }
}

/// The engine's key for a virtual key that has no character.
pub open spec fn plain_key(vk: u16) -> Option<Key> {
    if vk == VK_RETURN {
        Some(Key::Enter)
    } else if vk == VK_SPACE {
        Some(Key::Space)
    } else if vk == VK_BACK {
        Some(Key::Backspace)
    } else if vk == VK_ESCAPE {
        Some(Key::Escape)
    } else if vk == VK_TAB {
        Some(Key::Tab)
    } else {
        None
    }
}

/// Whether the keyboard layout has to be asked which character a key is.
pub open spec fn asks_layout(vk: u16, mods: Modifiers) -> bool {
    !is_modifier(vk) && !(mods.ctrl && vk == VK_H) && plain_key(vk) is None
}

/// The engine's key for a virtual key; `translated` is the one unit that the
/// keyboard layout gives for it. Ctrl-H is Backspace. There is none for a
/// modifier, and none where the layout gives no character.
pub open spec fn event_of(vk: u16, mods: Modifiers, translated: Option<u16>) -> Option<KeyEvent> {
    if is_modifier(vk) {
        None
    } else if mods.ctrl && vk == VK_H {
        Some(KeyEvent { key: Key::Backspace, shift: mods.shift, ctrl: false, alt: mods.alt })
    } else {
        let key = match plain_key(vk) {
            Some(k) => Some(k),
            None => match translated {
                Some(unit) => if 0xD800 <= unit <= 0xDFFF {
                    None
                } else {
                    Some(Key::Char(unit as char))
                },
                None => None,
            },
        };
        match key {
            Some(k) => Some(
                KeyEvent { key: k, shift: mods.shift, ctrl: mods.ctrl, alt: mods.alt },
            ),
            None => None,
        }
    }
}

/// Whether Backspace has something to take back in the engine.
pub open spec fn backspace_target(m: EngineModel) -> bool {
    match m.composition {
        CompositionModel::Direct => m.pending.len() > 0,
        CompositionModel::PreComposition { .. } => true,
        CompositionModel::Registration { .. } => true,
        CompositionModel::Conversion { .. } => false,
    }
}

/// The keys A to Z.
pub open spec fn is_letter_key(vk: u16) -> bool {
    0x41 <= vk <= 0x5A
}

/// The keys for punctuation.
pub open spec fn is_symbol_key(vk: u16) -> bool {
    0xBA <= vk <= 0xE4
}

/// The keys 0 to 9.
pub open spec fn is_digit_key(vk: u16) -> bool {
    0x30 <= vk <= 0x39
}

/// Whether a digit is wanted while kana is typed: it chooses a candidate, or is
/// part of a word that is registered.
pub open spec fn digit_wanted(vk: u16, m: EngineModel) -> bool {
    ||| 0x31 <= vk <= 0x39 && m.composition is Conversion
    ||| is_digit_key(vk) && m.composition is Registration
}

/// Whether the engine wants a key.
pub open spec fn eats(vk: u16, shift: bool, ctrl: bool, m: EngineModel) -> bool {
    if is_modifier(vk) {
        false
    } else if ctrl && (vk == VK_SPACE || vk == VK_J || vk == VK_OEM_1) {
        true
    } else if ctrl && !shift && (vk == VK_H || (m.config.emacs_bindings_enabled && emacs_of(
        vk,
    ) is Some)) {
        true
    } else {
        match m.mode {
            InputMode::Hiragana | InputMode::Katakana => if ctrl {
                vk == VK_G && !(m.composition is Direct)
            } else {
                ||| is_letter_key(vk)
                ||| digit_wanted(vk, m)
                ||| vk == VK_BACK && backspace_target(m)
                ||| vk == VK_SPACE || vk == VK_RETURN || vk == VK_ESCAPE || vk == VK_TAB
                ||| is_symbol_key(vk)
            },
            InputMode::ZenkakuAscii => !ctrl && (is_letter_key(vk) || is_digit_key(vk) || vk
                == VK_SPACE || is_symbol_key(vk)),
            _ => false,
        }
    }
}

/// Whether a key is down in the keyboard's state.
pub fn is_key_down(key_state: &[u8; 256], vk: u16) -> (r: bool)
    requires
        vk < 256,
    ensures
        r == is_down(key_state@, vk),
{
    let b: u8 = key_state[vk as usize];
    assert((b & 0x80 != 0) == (b >= 0x80)) by (bit_vector);
    b & 0x80 != 0
}

/// The scan code of a key message: bits 16 to 23 of its parameter.
pub fn scan_code(lparam: u32) -> (r: u32)
    ensures
        r == lparam / 0x10000 % 0x100,
{
    assert((lparam >> 16) & 0xFF == lparam / 0x10000 % 0x100) by (bit_vector);
    (lparam >> 16) & 0xFF
}

/// Whether a key message repeats a key that is held: bit 30 of its parameter.
pub fn is_repeat(lparam: u32) -> (r: bool)
    ensures
        r == (lparam / 0x4000_0000 % 2 == 1),
{
    assert(((lparam >> 30) & 1 != 0) == (lparam / 0x4000_0000 % 2 == 1)) by (bit_vector);
    (lparam >> 30) & 1 != 0
}

/// The modifiers of a keyboard state, with one that another key stands for.
pub fn modifiers(key_state: &[u8; 256], forced: Forced) -> (r: Modifiers)
    ensures
        r == modifiers_of(key_state@, forced),
{
    Modifiers {
        shift: is_key_down(key_state, VK_SHIFT) || forced == Forced::Shift,
        ctrl: is_key_down(key_state, VK_CONTROL) || forced == Forced::Ctrl,
        alt: is_key_down(key_state, VK_MENU),
    }
}

/// Whether a key is a modifier by itself.
pub fn is_modifier_key(vk: u16) -> (r: bool)
    ensures
        r == is_modifier(vk),
{
    vk == VK_SHIFT || vk == VK_CONTROL || vk == VK_MENU
}

/// Whether Backspace has something to take back in the engine.
pub fn has_backspace_target(engine: &SkkEngine) -> (r: bool)
    ensures
        r == backspace_target(engine@),
{
    match engine.composition_state() {
        CompositionState::Direct => engine.has_pending_romaji(),
        CompositionState::PreComposition { .. } => true,
        CompositionState::Registration { .. } => true,
        CompositionState::Conversion { .. } => false,
    }
}

/// What a key does together with Ctrl, as in Emacs; Ctrl-H is the engine's.
pub fn emacs_action(vk: u16) -> (r: Option<EmacsAction>)
    ensures
        r == emacs_of(vk),
{
    match vk {
        0x46 => Some(EmacsAction::SimulateKey(VK_RIGHT)),
        0x42 => Some(EmacsAction::SimulateKey(VK_LEFT)),
        0x41 => Some(EmacsAction::SimulateKey(VK_HOME)),
        0x45 => Some(EmacsAction::SimulateKey(VK_END)),
        0x4E => Some(EmacsAction::SimulateKey(VK_DOWN)),
        0x50 => Some(EmacsAction::SimulateKey(VK_UP)),
        0x44 => Some(EmacsAction::SimulateKey(VK_DELETE)),
        0x4B => Some(EmacsAction::KillLine),
        _ => None,
    }
}

fn plain_key_of(vk: u16) -> (r: Option<Key>)
    ensures
        r == plain_key(vk),
{
    if vk == VK_RETURN {
        Some(Key::Enter)
    } else if vk == VK_SPACE {
        Some(Key::Space)
    } else if vk == VK_BACK {
        Some(Key::Backspace)
    } else if vk == VK_ESCAPE {
        Some(Key::Escape)
    } else if vk == VK_TAB {
        Some(Key::Tab)
    } else {
        None
    }
}

/// Whether the keyboard layout has to be asked which character a key is.
pub fn needs_translation(vk: u16, mods: Modifiers) -> (r: bool)
    ensures
        r == asks_layout(vk, mods),
{
    !is_modifier_key(vk) && !(mods.ctrl && vk == VK_H) && plain_key_of(vk).is_none()
}

/// The keyboard state with which the layout is asked: without Ctrl, so that
/// Ctrl-J is a `j`, and with Shift where another key stands for it.
pub fn translation_state(key_state: &[u8; 256], forced: Forced) -> (r: [u8; 256])
    ensures
        forall|i: int|
            0 <= i < 256 ==> #[trigger] r@[i] == (if is_down(key_state@, VK_CONTROL) && (i
                == VK_CONTROL || i == VK_LCONTROL || i == VK_RCONTROL) {
                0u8
            } else if forced == Forced::Shift && i == VK_SHIFT {
                0x80u8
            } else {
                key_state@[i]
            }),
{
    let mut state: [u8; 256] = *key_state;
    if is_key_down(key_state, VK_CONTROL) {
        state[VK_CONTROL as usize] = 0;
        state[VK_LCONTROL as usize] = 0;
        state[VK_RCONTROL as usize] = 0;
    }
    if forced == Forced::Shift {
        state[VK_SHIFT as usize] = 0x80;
    }
    state
}

/// The engine's key for a virtual key with these modifiers.
pub fn key_event_for(vk: u16, mods: Modifiers, translated: Option<u16>) -> (r: Option<KeyEvent>)
    ensures
        r == event_of(vk, mods, translated),
{
    if is_modifier_key(vk) {
        return None;
    }
    if mods.ctrl && vk == VK_H {
        return Some(
            KeyEvent { key: Key::Backspace, shift: mods.shift, ctrl: false, alt: mods.alt },
        );
    }
    let key = match plain_key_of(vk) {
        Some(k) => k,
        None => match translated {
            Some(unit) => match char::from_u32(unit as u32) {
                Some(ch) => Key::Char(ch),
                None => {
                    return None;
                },
            },
            None => {
                return None;
            },
        },
    };
    Some(KeyEvent { key, shift: mods.shift, ctrl: mods.ctrl, alt: mods.alt })
}

/// The engine's key for a virtual key; `translated` is the one unit that the
/// keyboard layout gives for it.
pub fn to_key_event(vk: u16, key_state: &[u8; 256], translated: Option<u16>) -> (r: Option<
    KeyEvent,
>)
    ensures
        r == event_of(vk, modifiers_of(key_state@, Forced::Nothing), translated),
{
    key_event_for(vk, modifiers(key_state, Forced::Nothing), translated)
}

/// The engine's key for a virtual key while another key stands for Shift.
pub fn to_key_event_with_forced_shift(
    vk: u16,
    key_state: &[u8; 256],
    translated: Option<u16>,
) -> (r: Option<KeyEvent>)
    ensures
        r == event_of(vk, modifiers_of(key_state@, Forced::Shift), translated),
{
    key_event_for(vk, modifiers(key_state, Forced::Shift), translated)
}

/// The engine's key for a virtual key while another key stands for Ctrl.
pub fn to_key_event_with_forced_ctrl(
    vk: u16,
    key_state: &[u8; 256],
    translated: Option<u16>,
) -> (r: Option<KeyEvent>)
    ensures
        r == event_of(vk, modifiers_of(key_state@, Forced::Ctrl), translated),
{
    key_event_for(vk, modifiers(key_state, Forced::Ctrl), translated)
}

/// Whether the engine wants a key, told before the engine takes it.
pub fn should_eat_key(vk: u16, key_state: &[u8; 256], engine: &SkkEngine) -> (r: bool)
    ensures
        r == eats(vk, is_down(key_state@, VK_SHIFT), is_down(key_state@, VK_CONTROL), engine@),
{
    if is_modifier_key(vk) {
        return false;
    }
    let ctrl = is_key_down(key_state, VK_CONTROL);
    let shift = is_key_down(key_state, VK_SHIFT);
    if ctrl && (vk == VK_SPACE || vk == VK_J || vk == VK_OEM_1) {
        return true;
    }
    if ctrl && !shift && (vk == VK_H || (engine.config().emacs_bindings_enabled && emacs_action(
        vk,
    ).is_some())) {
        return true;
    }
    let letter = 0x41 <= vk && vk <= 0x5A;
    let symbol = 0xBA <= vk && vk <= 0xE4;
    let direct = matches!(engine.composition_state(), CompositionState::Direct);
    let choosing = matches!(engine.composition_state(), CompositionState::Conversion { .. });
    let registering = matches!(engine.composition_state(), CompositionState::Registration { .. });
    let digit = 0x30 <= vk && vk <= 0x39;
    match engine.current_mode() {
        InputMode::Hiragana | InputMode::Katakana => {
            if ctrl {
                return vk == VK_G && !direct;
            }
            if letter || symbol || (digit && vk != 0x30 && choosing) || (digit && registering) {
                return true;
            }
            if vk == VK_BACK {
                return has_backspace_target(engine);
            }
            vk == VK_SPACE || vk == VK_RETURN || vk == VK_ESCAPE || vk == VK_TAB
        },
        InputMode::ZenkakuAscii => {
            !ctrl && (letter || digit || vk == VK_SPACE || symbol)
        },
        _ => false,
    }
}

/// The keys that turn the input method on and off are wanted in every mode.
pub proof fn law_control_keys_eaten(vk: u16, shift: bool, m: EngineModel)
    requires
        vk == VK_SPACE || vk == VK_J || vk == VK_OEM_1,
    ensures
        eats(vk, shift, true, m),
{
}

/// With the input method off no key is wanted without Ctrl.
pub proof fn law_ascii_eats_nothing(vk: u16, shift: bool, m: EngineModel)
    requires
        m.mode == InputMode::Ascii,
    ensures
        !eats(vk, shift, false, m),
{
}

/// Whether a keyboard layout can give this unit for a key: the keys for letters
/// and punctuation give any, a digit key its digit or a symbol, and no other key
/// gives a character.
pub open spec fn layout_gives(vk: u16, unit: u16) -> bool {
    ||| is_letter_key(vk)
    ||| is_symbol_key(vk)
    ||| is_digit_key(vk) && (unit == vk || !(0x30 <= unit <= 0x39 || 0x41 <= unit <= 0x5A || 0x61
        <= unit <= 0x7A))
}

/// Whether a character is one of the keys of the settings.
pub open spec fn is_set_key(c: ConfigModel, ch: char) -> bool {
    ch == c.toggle_kana || ch == c.enter_ascii || ch == c.enter_zenkaku || ch == c.prev_candidate
}

/// A key without Ctrl that the engine does not hand to the application is
/// wanted. Left out are characters on a digit key that the settings make the
/// key for something, where digits are not wanted: it is not known before the
/// layout is asked that such a key is one of them.
pub proof fn law_used_is_wanted(m: EngineModel, vk: u16, mods: Modifiers, translated: Option<u16>)
    requires
        laws::inv(m),
        !mods.ctrl,
        translated matches Some(unit) ==> layout_gives(vk, unit),
        event_of(vk, mods, translated) matches Some(e) && !(model::step(m, e).1 is PassThrough)
            && (e.key matches Key::Char(ch) ==> !is_digit_key(vk) || digit_wanted(vk, m)
            || !is_set_key(m.config, ch)),
    ensures
        eats(vk, mods.shift, mods.ctrl, m),
{
}

/// The Emacs keys are wanted with Ctrl exactly if the settings have them on.
pub proof fn law_emacs_keys(m: EngineModel, vk: u16)
    requires
        emacs_of(vk) is Some,
    ensures
        eats(vk, false, true, m) == m.config.emacs_bindings_enabled,
{
}

/// What the engine gets of a key: Enter, Space, Backspace, Escape and Tab as
/// such, Ctrl-H as Backspace without Ctrl, any other key as the character that
/// the layout gives, all with the modifiers that are held. It gets nothing of a
/// modifier, or where the layout gives no character or half of one.
pub proof fn law_key_event(vk: u16, mods: Modifiers, translated: Option<u16>)
    ensures
        ({
            let e = event_of(vk, mods, translated);
            let with = |key: Key|
                Some(KeyEvent { key, shift: mods.shift, ctrl: mods.ctrl, alt: mods.alt });
            if vk == 0x10 || vk == 0x11 || vk == 0x12 {
                e is None
            } else if vk == 'H' as int && mods.ctrl {
                e == Some(
                    KeyEvent {
                        key: Key::Backspace,
                        shift: mods.shift,
                        ctrl: false,
                        alt: mods.alt,
                    },
                )
            } else if vk == 0x0D {
                e == with(Key::Enter)
            } else if vk == 0x20 {
                e == with(Key::Space)
            } else if vk == 0x08 {
                e == with(Key::Backspace)
            } else if vk == 0x1B {
                e == with(Key::Escape)
            } else if vk == 0x09 {
                e == with(Key::Tab)
            } else {
                match translated {
                    Some(unit) => if 0xD800 <= unit < 0xE000 {
                        e is None
                    } else {
                        e == with(Key::Char(unit as char))
                    },
                    None => e is None,
                }
            }
        }),
{
}

/// The layout is asked exactly for the keys for which its answer matters.
pub proof fn law_layout_asked(vk: u16, mods: Modifiers, a: Option<u16>, b: Option<u16>)
    ensures
        !asks_layout(vk, mods) ==> event_of(vk, mods, a) == event_of(vk, mods, b),
        asks_layout(vk, mods) ==> event_of(vk, mods, None) is None && (
        event_of(vk, mods, Some(0x61)) matches Some(e) && e.key == Key::Char('a')),
{
}

/// Shift, Ctrl and Alt are held where the high bit of their byte says so, and
/// Shift or Ctrl where another key stands for it.
pub proof fn law_modifiers(state: Seq<u8>, forced: Forced)
    ensures
        modifiers_of(state, forced).shift == (state[0x10] >= 0x80 || forced is Shift),
        modifiers_of(state, forced).ctrl == (state[0x11] >= 0x80 || forced is Ctrl),
        modifiers_of(state, forced).alt == (state[0x12] >= 0x80),
{
}

/// Which keys the engine wants without Ctrl: with kana the letters, the keys for
/// punctuation, Space, Enter, Escape and Tab; a digit that chooses a candidate or
/// goes into a word; and Backspace where it has something to take back. For
/// full-width text the letters, digits, punctuation and Space. In the other modes
/// none.
pub proof fn law_wanted_plain(vk: u16, shift: bool, m: EngineModel)
    ensures
        ({
            let letter = 0x41 <= vk <= 0x5A;
            let sign = 0xBA <= vk <= 0xE4;
            eats(vk, shift, false, m) <==> match m.mode {
                InputMode::Hiragana | InputMode::Katakana => {
                    ||| letter || sign
                    ||| vk == 0x20 || vk == 0x0D || vk == 0x1B || vk == 0x09
                    ||| 0x31 <= vk <= 0x39 && m.composition is Conversion
                    ||| 0x30 <= vk <= 0x39 && m.composition is Registration
                    ||| vk == 0x08 && (m.composition is PreComposition
                        || m.composition is Registration || (m.composition is Direct
                        && m.pending.len() > 0))
                },
                InputMode::ZenkakuAscii => letter || sign || vk == 0x20 || 0x30 <= vk <= 0x39,
                _ => false,
            }
        }),
{
}

/// Which keys the engine wants with Ctrl: Space, J and ; in every mode; without
/// Shift also H, and the Emacs keys where they are on; and with kana G while
/// something is composed.
pub proof fn law_wanted_with_ctrl(vk: u16, shift: bool, m: EngineModel)
    ensures
        ({
            let emacs = vk == 'F' as int || vk == 'B' as int || vk == 'A' as int || vk == 'E' as int
                || vk == 'N' as int || vk == 'P' as int || vk == 'D' as int || vk == 'K' as int;
            let kana = m.mode == InputMode::Hiragana || m.mode == InputMode::Katakana;
            eats(vk, shift, true, m) <==> {
                ||| vk == 0x20 || vk == 'J' as int || vk == 0xBA
                ||| !shift && (vk == 'H' as int || (emacs && m.config.emacs_bindings_enabled))
                ||| kana && vk == 'G' as int && !(m.composition is Direct)
            }
        }),
{
}

} // verus!
