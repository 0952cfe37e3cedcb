//! What the text service does with a key message: keys that stand for Shift and
//! Ctrl, keys that are pressed for the user, and what the engine's answer
//! changes in the document.
use crate::composer::SkkEngine;
use crate::config::ConfigModel;
use crate::dict;
use crate::key_event;
use crate::key_event::{
    emacs_action, is_modifier_key, modifiers, should_eat_key, EmacsAction, Forced,
    Modifiers, VK_BACK, VK_CAPITAL, VK_CONTROL, VK_DELETE, VK_END, VK_H, VK_SHIFT,
    VK_SPACE,
};
use crate::model::{EngineModel, ResponseModel};
use crate::{EngineResponse, InputMode};
use vstd::prelude::*;

verus! {

/// The mark of keys that this service pressed itself ("KYUB").
pub const SANDS_INJECTED: usize = 0x4B595542;

/// How Space is used as Shift.
#[derive(Debug, Clone, Copy, PartialEq, Eq, Structural)]
pub enum SandsState {
    /// Space is up.
    Idle,
    /// Space is down, no other key came yet.
    SpaceDown,
    /// Another key came while Space was down: Space is Shift.
    ShiftActive,
}

/// The keys that stand for modifiers, and whether they are held.
#[derive(Debug, Clone, Copy, PartialEq, Eq, Structural)]
pub struct KeyLayer {
    pub sands: SandsState,
    pub thumb_shift_held: bool,
    pub caps_ctrl_held: bool,
}

/// A key to press or release for the user; a marked one is not looked at when
/// it comes back.
#[derive(Debug, Clone, Copy, PartialEq, Eq, Structural)]
pub struct SimKey {
    pub vk: u16,
    pub up: bool,
    pub tagged: bool,
}

/// What a key message asks for.
#[derive(Debug, Clone, PartialEq, Eq)]
pub enum KeyAction {
    /// Leave the key to the application.
    Pass,
    /// Take the key and do nothing.
    Eat,
    /// Take the key and press these.
    Inject(Vec<SimKey>),
    /// Hand the key to the engine, with a modifier that another key stands for.
    /// If the engine does not want it, press these, or pass it on.
    ToEngine { forced: Forced, on_pass: Option<Vec<SimKey>> },
    /// Hand a Space to the engine.
    SpaceToEngine,
}

/// What a key message asks for.
#[verifier::ext_equal]
pub enum ActionModel {
    Pass,
    Eat,
    Inject(Seq<SimKey>),
    ToEngine { forced: Forced, on_pass: Option<Seq<SimKey>> },
    SpaceToEngine,
}

/// A change of the document.
#[derive(Debug, Clone, PartialEq, Eq)]
pub enum TextAction {
    /// Insert text at the cursor.
    Insert(String),
    /// Replace the composition by text and end it.
    Replace(String),
    /// Start a composition with this text, or change the text of the one that
    /// is there.
    Update(String),
    /// Remove the composition.
    End,
}

/// A change of the document.
#[verifier::ext_equal]
pub enum TextActionModel {
    Insert(Seq<char>),
    Replace(Seq<char>),
    Update(Seq<char>),
    End,
}

/// What the engine's answer asks for.
#[derive(Debug, Clone, PartialEq, Eq)]
pub struct ResponsePlan {
    /// Whether the key is taken.
    pub eaten: bool,
    /// Keys to press.
    pub inject: Vec<SimKey>,
    /// Changes of the document, in order.
    pub texts: Vec<TextAction>,
    /// Whether the candidate window and the mode icon are brought up to date.
    pub refresh: bool,
}

/// The candidates of a page.
#[derive(Debug, Clone, Copy, PartialEq, Eq, Structural)]
pub struct CandidatePage {
    /// The position of the first candidate on the page.
    pub start: usize,
    /// The position behind the last one.
    pub end: usize,
    /// The chosen candidate, counted on the page.
    pub selected: usize,
    /// The page, counted from zero.
    pub current: usize,
    /// The number of pages.
    pub total: usize,
}

impl View for KeyAction {
    type V = ActionModel;

    open spec fn view(&self) -> ActionModel {
        match self {
            KeyAction::Pass => ActionModel::Pass,
            KeyAction::Eat => ActionModel::Eat,
            KeyAction::Inject(keys) => ActionModel::Inject(keys@),
            KeyAction::ToEngine { forced, on_pass } => ActionModel::ToEngine {
                forced: *forced,
                on_pass: match on_pass {
                    Some(keys) => Some(keys@),
                    None => None,
                },
            },
            KeyAction::SpaceToEngine => ActionModel::SpaceToEngine,
        }
    }
}

impl View for TextAction {
    type V = TextActionModel;

    open spec fn view(&self) -> TextActionModel {
        match self {
            TextAction::Insert(s) => TextActionModel::Insert(s@),
            TextAction::Replace(s) => TextActionModel::Replace(s@),
            TextAction::Update(s) => TextActionModel::Update(s@),
            TextAction::End => TextActionModel::End,
        }
    }
}

/// Changes of the document, one for one.
pub open spec fn text_views(texts: Seq<TextAction>) -> Seq<TextActionModel> {
    Seq::new(texts.len(), |i: int| texts[i]@)
}

/// A key goes down.
pub open spec fn down(vk: u16) -> SimKey {
    SimKey { vk, up: false, tagged: false }
}

/// A key goes up.
pub open spec fn up(vk: u16) -> SimKey {
    SimKey { vk, up: true, tagged: false }
}

/// A marked key goes down.
pub open spec fn marked_down(vk: u16) -> SimKey {
    SimKey { vk, up: false, tagged: true }
}

/// A marked key goes up.
pub open spec fn marked_up(vk: u16) -> SimKey {
    SimKey { vk, up: true, tagged: true }
}

/// A key without the Ctrl that is held: Ctrl is let go first, and pressed again
/// if it is still held.
pub open spec fn simulated(vk: u16, ctrl_held: bool) -> Seq<SimKey> {
    let keys = seq![up(VK_CONTROL), marked_down(vk), marked_up(vk)];
    if ctrl_held {
        keys.push(down(VK_CONTROL))
    } else {
        keys
    }
}

/// Shift-End and Delete without the Ctrl that is held. Shift goes down before
/// Ctrl goes up.
pub open spec fn killed_line(ctrl_held: bool) -> Seq<SimKey> {
    let keys = seq![
        down(VK_SHIFT),
        up(VK_CONTROL),
        marked_down(VK_END),
        marked_up(VK_END),
        up(VK_SHIFT),
        marked_down(VK_DELETE),
        marked_up(VK_DELETE),
    ];
    if ctrl_held {
        keys.push(down(VK_CONTROL))
    } else {
        keys
    }
}

/// A key with Shift.
pub open spec fn shifted(vk: u16) -> Seq<SimKey> {
    seq![marked_down(VK_SHIFT), marked_down(vk), marked_up(vk), marked_up(VK_SHIFT)]
}

/// A Space.
pub open spec fn tapped_space() -> Seq<SimKey> {
    seq![marked_down(VK_SPACE), marked_up(VK_SPACE)]
}

/// A key by itself.
pub open spec fn tapped(vk: u16) -> Seq<SimKey> {
    seq![down(vk), up(vk)]
}

/// Shift-End and Delete.
pub open spec fn killed_line_plain() -> Seq<SimKey> {
    seq![
        down(VK_SHIFT),
        down(VK_END),
        up(VK_END),
        up(VK_SHIFT),
        down(VK_DELETE),
        up(VK_DELETE),
    ]
}

/// A key with Ctrl.
pub open spec fn with_ctrl(vk: u16) -> Seq<SimKey> {
    seq![down(VK_CONTROL), down(vk), up(vk), up(VK_CONTROL)]
}

fn sim(vk: u16, up: bool, tagged: bool) -> (r: SimKey)
    ensures
        r == (SimKey { vk, up, tagged }),
{
    SimKey { vk, up, tagged }
}

/// A key without the Ctrl that is held.
pub fn simulated_key(vk: u16, ctrl_held: bool) -> (r: Vec<SimKey>)
    ensures
        r@ == simulated(vk, ctrl_held),
{
    let mut keys: Vec<SimKey> = Vec::new();
    keys.push(sim(VK_CONTROL, true, false));
    keys.push(sim(vk, false, true));
    keys.push(sim(vk, true, true));
    if ctrl_held {
        keys.push(sim(VK_CONTROL, false, false));
    }
    assert(keys@ =~= simulated(vk, ctrl_held));
    keys
}

/// Deletes up to the end of the line while Ctrl is held.
pub fn kill_line(ctrl_held: bool) -> (r: Vec<SimKey>)
    ensures
        r@ == killed_line(ctrl_held),
{
    let mut keys: Vec<SimKey> = Vec::new();
    keys.push(sim(VK_SHIFT, false, false));
    keys.push(sim(VK_CONTROL, true, false));
    keys.push(sim(VK_END, false, true));
    keys.push(sim(VK_END, true, true));
    keys.push(sim(VK_SHIFT, true, false));
    keys.push(sim(VK_DELETE, false, true));
    keys.push(sim(VK_DELETE, true, true));
    if ctrl_held {
        keys.push(sim(VK_CONTROL, false, false));
    }
    assert(keys@ =~= killed_line(ctrl_held));
    keys
}

/// A key with Shift.
pub fn shifted_key(vk: u16) -> (r: Vec<SimKey>)
    ensures
        r@ == shifted(vk),
{
    let mut keys: Vec<SimKey> = Vec::new();
    keys.push(sim(VK_SHIFT, false, true));
    keys.push(sim(vk, false, true));
    keys.push(sim(vk, true, true));
    keys.push(sim(VK_SHIFT, true, true));
    assert(keys@ =~= shifted(vk));
    keys
}

/// A Space.
pub fn space_tap() -> (r: Vec<SimKey>)
    ensures
        r@ == tapped_space(),
{
    let mut keys: Vec<SimKey> = Vec::new();
    keys.push(sim(VK_SPACE, false, true));
    keys.push(sim(VK_SPACE, true, true));
    assert(keys@ =~= tapped_space());
    keys
}

/// A key by itself.
pub fn key_only(vk: u16) -> (r: Vec<SimKey>)
    ensures
        r@ == tapped(vk),
{
    let mut keys: Vec<SimKey> = Vec::new();
    keys.push(sim(vk, false, false));
    keys.push(sim(vk, true, false));
    assert(keys@ =~= tapped(vk));
    keys
}

/// Deletes up to the end of the line while Ctrl is not held.
pub fn kill_line_no_ctrl() -> (r: Vec<SimKey>)
    ensures
        r@ == killed_line_plain(),
{
    let mut keys: Vec<SimKey> = Vec::new();
    keys.push(sim(VK_SHIFT, false, false));
    keys.push(sim(VK_END, false, false));
    keys.push(sim(VK_END, true, false));
    keys.push(sim(VK_SHIFT, true, false));
    keys.push(sim(VK_DELETE, false, false));
    keys.push(sim(VK_DELETE, true, false));
    assert(keys@ =~= killed_line_plain());
    keys
}

/// A key with Ctrl.
pub fn ctrl_key(vk: u16) -> (r: Vec<SimKey>)
    ensures
        r@ == with_ctrl(vk),
{
    let mut keys: Vec<SimKey> = Vec::new();
    keys.push(sim(VK_CONTROL, false, false));
    keys.push(sim(vk, false, false));
    keys.push(sim(vk, true, false));
    keys.push(sim(VK_CONTROL, true, false));
    assert(keys@ =~= with_ctrl(vk));
    keys
}

/// The keys beside Space that can stand for Shift: non-convert, convert, kana.
pub open spec fn is_thumb_key(vk: u16) -> bool {
    vk == 0x1D || vk == 0x1C || vk == 0x15
}

/// The keys beside Space that can stand for Shift: non-convert, convert, kana.
pub fn is_thumb_shift_key(vk: u16) -> (r: bool)
    ensures
        r == is_thumb_key(vk),
{
    vk == 0x1D || vk == 0x1C || vk == 0x15
}

/// Whether a key that stands for a modifier acts on this key: it is no modifier
/// itself, and neither Ctrl nor Alt is held.
pub open spec fn is_free(vk: u16, mods: Modifiers) -> bool {
    !key_event::is_modifier(vk) && !mods.ctrl && !mods.alt
}

/// Whether a key message is wanted, told before it comes.
pub open spec fn wants_down(
    l: KeyLayer,
    m: EngineModel,
    vk: u16,
    mods: Modifiers,
    injected: bool,
) -> bool {
    let c = m.config;
    if injected {
        false
    } else {
        ||| c.caps_ctrl_enabled && (vk == VK_CAPITAL || (l.caps_ctrl_held && is_free(vk, mods)))
        ||| c.thumb_shift_enabled && (is_thumb_key(vk) || (l.thumb_shift_held && is_free(vk, mods)))
        ||| c.sands_enabled && vk == VK_SPACE && !mods.ctrl
        ||| c.sands_enabled && l.sands != SandsState::Idle && is_free(vk, mods)
        ||| key_event::eats(vk, mods.shift, mods.ctrl, m)
    }
}

/// Whether a key's release is wanted, told before it comes.
pub open spec fn wants_up(l: KeyLayer, c: ConfigModel, vk: u16) -> bool {
    ||| c.caps_ctrl_enabled && vk == VK_CAPITAL
    ||| c.thumb_shift_enabled && is_thumb_key(vk)
    ||| c.sands_enabled && vk == VK_SPACE && l.sands != SandsState::Idle
}

/// A key with Shift: for the application where the input method is off, for the
/// engine otherwise.
pub open spec fn shift_action(mode: InputMode, vk: u16) -> ActionModel {
    if mode == InputMode::Ascii {
        ActionModel::Inject(shifted(vk))
    } else {
        ActionModel::ToEngine { forced: Forced::Shift, on_pass: None }
    }
}

/// What a key message asks for while CapsLock stands for Ctrl.
pub open spec fn caps_action(c: ConfigModel, vk: u16, mods: Modifiers) -> ActionModel {
    let to_engine = ActionModel::ToEngine {
        forced: Forced::Ctrl,
        on_pass: Some(
            if vk == VK_H {
                tapped(VK_BACK)
            } else {
                with_ctrl(vk)
            },
        ),
    };
    if c.emacs_bindings_enabled && !mods.shift {
        match key_event::emacs_of(vk) {
            Some(EmacsAction::SimulateKey(target)) => ActionModel::Inject(tapped(target)),
            Some(EmacsAction::KillLine) => ActionModel::Inject(killed_line_plain()),
            None => to_engine,
        }
    } else {
        to_engine
    }
}

/// What a key message asks for where no key stands for a modifier.
pub open spec fn plain_action(
    c: ConfigModel,
    vk: u16,
    mods: Modifiers,
    ctrl_held: bool,
) -> ActionModel {
    let to_engine = ActionModel::ToEngine {
        forced: Forced::Nothing,
        on_pass: if vk == VK_H && mods.ctrl {
            Some(simulated(VK_BACK, ctrl_held))
        } else {
            None
        },
    };
    if c.emacs_bindings_enabled && mods.ctrl && !mods.shift {
        match key_event::emacs_of(vk) {
            Some(EmacsAction::SimulateKey(target)) => ActionModel::Inject(
                simulated(target, ctrl_held),
            ),
            Some(EmacsAction::KillLine) => ActionModel::Inject(killed_line(ctrl_held)),
            None => to_engine,
        }
    } else {
        to_engine
    }
}

/// What a key that goes down asks for, and which keys are held then.
pub open spec fn on_down(
    l: KeyLayer,
    m: EngineModel,
    vk: u16,
    mods: Modifiers,
    injected: bool,
    repeat: bool,
    ctrl_held: bool,
) -> (KeyLayer, ActionModel) {
    let c = m.config;
    if injected {
        (l, ActionModel::Pass)
    } else if c.caps_ctrl_enabled && vk == VK_CAPITAL {
        (KeyLayer { caps_ctrl_held: true, ..l }, ActionModel::Eat)
    } else if c.caps_ctrl_enabled && l.caps_ctrl_held && is_free(vk, mods) {
        (l, caps_action(c, vk, mods))
    } else if c.thumb_shift_enabled && is_thumb_key(vk) {
        (KeyLayer { thumb_shift_held: true, ..l }, ActionModel::Eat)
    } else if c.thumb_shift_enabled && l.thumb_shift_held && is_free(vk, mods) {
        (l, shift_action(m.mode, vk))
    } else if c.sands_enabled && vk == VK_SPACE && !mods.ctrl {
        if repeat {
            (l, ActionModel::Eat)
        } else {
            (KeyLayer { sands: SandsState::SpaceDown, ..l }, ActionModel::Eat)
        }
    } else if c.sands_enabled && l.sands != SandsState::Idle && is_free(vk, mods) {
        (KeyLayer { sands: SandsState::ShiftActive, ..l }, shift_action(m.mode, vk))
    } else {
        (l, plain_action(c, vk, mods, ctrl_held))
    }
}

/// What a key that goes up asks for, and which keys are held then.
pub open spec fn on_up(l: KeyLayer, c: ConfigModel, mode: InputMode, vk: u16) -> (
    KeyLayer,
    ActionModel,
) {
    if c.caps_ctrl_enabled && vk == VK_CAPITAL {
        (KeyLayer { caps_ctrl_held: false, ..l }, ActionModel::Eat)
    } else if c.thumb_shift_enabled && is_thumb_key(vk) {
        (KeyLayer { thumb_shift_held: false, ..l }, ActionModel::Eat)
    } else if c.sands_enabled && vk == VK_SPACE {
        let next = KeyLayer { sands: SandsState::Idle, ..l };
        match l.sands {
            SandsState::SpaceDown => if mode == InputMode::Ascii {
                (next, ActionModel::Inject(tapped_space()))
            } else {
                (next, ActionModel::SpaceToEngine)
            },
            SandsState::ShiftActive => (next, ActionModel::Eat),
            SandsState::Idle => (l, ActionModel::Pass),
        }
    } else {
        (l, ActionModel::Pass)
    }
}

/// The keys to press where an action hands a key to the engine and the engine
/// does not want it; `None` where the key itself is passed on.
pub open spec fn pressed_on_pass(a: ActionModel) -> Option<Seq<SimKey>> {
    match a {
        ActionModel::ToEngine { on_pass, .. } => on_pass,
        ActionModel::SpaceToEngine => Some(tapped_space()),
        _ => None,
    }
}

fn shift_action_for(mode: InputMode, vk: u16) -> (r: KeyAction)
    ensures
        r@ == shift_action(mode, vk),
{
    if mode == InputMode::Ascii {
        KeyAction::Inject(shifted_key(vk))
    } else {
        KeyAction::ToEngine { forced: Forced::Shift, on_pass: None }
    }
}

fn caps_action_for(emacs: bool, vk: u16, mods: Modifiers, Ghost(c): Ghost<ConfigModel>) -> (r:
    KeyAction)
    requires
        emacs == c.emacs_bindings_enabled,
    ensures
        r@ == caps_action(c, vk, mods),
{
    if emacs && !mods.shift {
        match emacs_action(vk) {
            Some(EmacsAction::SimulateKey(target)) => {
                return KeyAction::Inject(key_only(target));
            },
            Some(EmacsAction::KillLine) => {
                return KeyAction::Inject(kill_line_no_ctrl());
            },
            None => {},
        }
    }
    let keys = if vk == VK_H {
        key_only(VK_BACK)
    } else {
        ctrl_key(vk)
    };
    KeyAction::ToEngine { forced: Forced::Ctrl, on_pass: Some(keys) }
}

/// What a key message asks for where no key stands for a modifier.
fn process_key_normal(
    emacs: bool,
    vk: u16,
    mods: Modifiers,
    ctrl_held: bool,
    Ghost(c): Ghost<ConfigModel>,
) -> (r: KeyAction)
    requires
        emacs == c.emacs_bindings_enabled,
    ensures
        r@ == plain_action(c, vk, mods, ctrl_held),
{
    if emacs && mods.ctrl && !mods.shift {
        match emacs_action(vk) {
            Some(EmacsAction::SimulateKey(target)) => {
                return KeyAction::Inject(simulated_key(target, ctrl_held));
            },
            Some(EmacsAction::KillLine) => {
                return KeyAction::Inject(kill_line(ctrl_held));
            },
            None => {},
        }
    }
    let on_pass = if vk == VK_H && mods.ctrl {
        Some(simulated_key(VK_BACK, ctrl_held))
    } else {
        None
    };
    KeyAction::ToEngine { forced: Forced::Nothing, on_pass }
}

fn is_free_key(vk: u16, mods: Modifiers) -> (r: bool)
    ensures
        r == is_free(vk, mods),
{
    !is_modifier_key(vk) && !mods.ctrl && !mods.alt
}

impl KeyLayer {
    /// No key that stands for a modifier is held.
    pub fn new() -> (r: Self)
        ensures
            r == (KeyLayer {
                sands: SandsState::Idle,
                thumb_shift_held: false,
                caps_ctrl_held: false,
            }),
    {
        KeyLayer { sands: SandsState::Idle, thumb_shift_held: false, caps_ctrl_held: false }
    }

    /// Whether a key message is wanted, told before it comes.
    pub fn test_key_down(
        &self,
        engine: &SkkEngine,
        vk: u16,
        key_state: &[u8; 256],
        injected: bool,
    ) -> (r: bool)
        ensures
            r == wants_down(
                *self,
                engine@,
                vk,
                key_event::modifiers_of(key_state@, Forced::Nothing),
                injected,
            ),
    {
        if injected {
            return false;
        }
        let config = engine.config();
        let mods = modifiers(key_state, Forced::Nothing);
        if config.caps_ctrl_enabled && vk == VK_CAPITAL {
            return true;
        }
        if config.caps_ctrl_enabled && self.caps_ctrl_held && is_free_key(vk, mods) {
            return true;
        }
        if config.thumb_shift_enabled && is_thumb_shift_key(vk) {
            return true;
        }
        if config.thumb_shift_enabled && self.thumb_shift_held && is_free_key(vk, mods) {
            return true;
        }
        if config.sands_enabled && vk == VK_SPACE && !mods.ctrl {
            return true;
        }
        if config.sands_enabled && self.sands != SandsState::Idle && is_free_key(vk, mods) {
            return true;
        }
        should_eat_key(vk, key_state, engine)
    }

    /// Whether a key's release is wanted, told before it comes.
    pub fn test_key_up(&self, engine: &SkkEngine, vk: u16) -> (r: bool)
        ensures
            r == wants_up(*self, engine@.config, vk),
    {
        let config = engine.config();
        (config.caps_ctrl_enabled && vk == VK_CAPITAL) || (config.thumb_shift_enabled
            && is_thumb_shift_key(vk)) || (config.sands_enabled && vk == VK_SPACE && self.sands
            != SandsState::Idle)
    }

    /// Takes a key that goes down. `ctrl_held` is whether Ctrl is held at this
    /// moment, `repeat` whether the key was held before.
    pub fn key_down(
        &mut self,
        engine: &SkkEngine,
        vk: u16,
        key_state: &[u8; 256],
        injected: bool,
        repeat: bool,
        ctrl_held: bool,
    ) -> (r: KeyAction)
        ensures
            ({
                let (layer, action) = on_down(
                    *old(self),
                    engine@,
                    vk,
                    key_event::modifiers_of(key_state@, Forced::Nothing),
                    injected,
                    repeat,
                    ctrl_held,
                );
                &&& *final(self) == layer
                &&& r@ == action
            }),
    {
        if injected {
            return KeyAction::Pass;
        }
        let config = engine.config();
        let ghost c = config@;
        let mods = modifiers(key_state, Forced::Nothing);
        if config.caps_ctrl_enabled && vk == VK_CAPITAL {
            self.caps_ctrl_held = true;
            return KeyAction::Eat;
        }
        if config.caps_ctrl_enabled && self.caps_ctrl_held && is_free_key(vk, mods) {
            return caps_action_for(config.emacs_bindings_enabled, vk, mods, Ghost(c));
        }
        if config.thumb_shift_enabled && is_thumb_shift_key(vk) {
            self.thumb_shift_held = true;
            return KeyAction::Eat;
        }
        if config.thumb_shift_enabled && self.thumb_shift_held && is_free_key(vk, mods) {
            return shift_action_for(engine.current_mode(), vk);
        }
        if config.sands_enabled && vk == VK_SPACE && !mods.ctrl {
            if !repeat {
                self.sands = SandsState::SpaceDown;
            }
            return KeyAction::Eat;
        }
        if config.sands_enabled && self.sands != SandsState::Idle && is_free_key(vk, mods) {
            self.sands = SandsState::ShiftActive;
            return shift_action_for(engine.current_mode(), vk);
        }
        process_key_normal(config.emacs_bindings_enabled, vk, mods, ctrl_held, Ghost(c))
    }

    /// Takes a key that goes up.
    pub fn key_up(&mut self, engine: &SkkEngine, vk: u16) -> (r: KeyAction)
        ensures
            ({
                let (layer, action) = on_up(*old(self), engine@.config, engine@.mode, vk);
                &&& *final(self) == layer
                &&& r@ == action
            }),
    {
        let config = engine.config();
        if config.caps_ctrl_enabled && vk == VK_CAPITAL {
            self.caps_ctrl_held = false;
            return KeyAction::Eat;
        }
        if config.thumb_shift_enabled && is_thumb_shift_key(vk) {
            self.thumb_shift_held = false;
            return KeyAction::Eat;
        }
        if config.sands_enabled && vk == VK_SPACE {
            match self.sands {
                SandsState::SpaceDown => {
                    self.sands = SandsState::Idle;
                    return if engine.current_mode() == InputMode::Ascii {
                        KeyAction::Inject(space_tap())
                    } else {
                        KeyAction::SpaceToEngine
                    };
                },
                SandsState::ShiftActive => {
                    self.sands = SandsState::Idle;
                    return KeyAction::Eat;
                },
                SandsState::Idle => {},
            }
        }
        KeyAction::Pass
    }
}

/// The keys to press where an action hands a key to the engine and the engine
/// does not want it: for a Space that was tapped, a Space. `None` where the key
/// itself is passed on.
pub fn keys_on_pass(action: KeyAction) -> (r: Option<Vec<SimKey>>)
    ensures
        match r {
            Some(keys) => pressed_on_pass(action@) == Some(keys@),
            None => pressed_on_pass(action@) is None,
        },
{
    match action {
        KeyAction::ToEngine { on_pass, .. } => on_pass,
        KeyAction::SpaceToEngine => Some(space_tap()),
        _ => None,
    }
}

/// The changes of the document that the engine's answer asks for: text to
/// insert takes the place of the composition, and then the composition is what
/// the engine shows.
pub open spec fn document_changes(
    answer: ResponseModel,
    shown: Option<Seq<char>>,
    has_composition: bool,
) -> Seq<TextActionModel> {
    let (first, open) = match answer {
        ResponseModel::Commit(text) => (
            seq![
                if has_composition {
                    TextActionModel::Replace(text)
                } else {
                    TextActionModel::Insert(text)
                },
            ],
            false,
        ),
        _ => (Seq::empty(), has_composition),
    };
    match shown {
        Some(text) => first.push(TextActionModel::Update(text)),
        None => if open {
            first.push(TextActionModel::End)
        } else {
            first
        },
    }
}

/// What the engine's answer asks for. `shown` is what the engine shows now,
/// `has_composition` whether the document has a composition, and `on_pass` what
/// to press for a key that the engine does not want.
pub fn handle_engine_response(
    response: EngineResponse,
    shown: Option<String>,
    has_composition: bool,
    on_pass: Option<Vec<SimKey>>,
) -> (r: ResponsePlan)
    ensures
        response@ is PassThrough ==> {
            &&& r.eaten == on_pass is Some
            &&& r.inject@ == match on_pass {
                Some(keys) => keys@,
                None => Seq::empty(),
            }
            &&& r.texts@.len() == 0
            &&& !r.refresh
        },
        !(response@ is PassThrough) ==> {
            &&& r.eaten
            &&& r.inject@.len() == 0
            &&& text_views(r.texts@) == document_changes(
                response@,
                dict::option_view(shown),
                has_composition,
            )
            &&& r.refresh
        },
{
    let mut texts: Vec<TextAction> = Vec::new();
    let mut open = has_composition;
    let ghost first = match response@ {
        ResponseModel::Commit(text) => seq![
            if has_composition {
                TextActionModel::Replace(text)
            } else {
                TextActionModel::Insert(text)
            },
        ],
        _ => Seq::empty(),
    };
    match response {
        EngineResponse::PassThrough => {
            return match on_pass {
                Some(keys) => ResponsePlan { eaten: true, inject: keys, texts, refresh: false },
                None => ResponsePlan { eaten: false, inject: Vec::new(), texts, refresh: false },
            };
        },
        EngineResponse::Commit(text) => {
            if has_composition {
                texts.push(TextAction::Replace(text));
            } else {
                texts.push(TextAction::Insert(text));
            }
            open = false;
        },
        _ => {},
    }
    assert(text_views(texts@) =~= first);
    let ghost before = texts@;
    match shown {
        Some(text) => {
            texts.push(TextAction::Update(text));
            assert(text_views(texts@) =~= first.push(TextActionModel::Update(text@)));
        },
        None => {
            if open {
                texts.push(TextAction::End);
                assert(text_views(texts@) =~= first.push(TextActionModel::End));
            }
        },
    }
    ResponsePlan { eaten: true, inject: Vec::new(), texts, refresh: true }
}

/// The page of nine that holds the chosen candidate.
pub fn candidate_page(selected: usize, count: usize) -> (r: CandidatePage)
    requires
        selected < count,
    ensures
        r.start == selected / 9 * 9,
        r.end == if r.start + 9 < count {
            r.start + 9
        } else {
            count as int
        },
        r.start <= selected < r.end <= count,
        r.selected == selected % 9,
        r.current == selected / 9,
        r.total == (count + 8) / 9,
        r.current < r.total,
{
    let current: usize = selected / 9;
    let start: usize = current * 9;
    let end: usize = if count - start > 9 {
        start + 9
    } else {
        count
    };
    CandidatePage {
        start,
        end,
        selected: selected - start,
        current,
        total: (count - 1) / 9 + 1,
    }
}

/// The parts of a path, one for one.
pub open spec fn path_views(parts: Seq<String>) -> Seq<Seq<char>> {
    Seq::new(parts.len(), |i: int| parts[i]@)
}

/// Paths by their parts, one for one.
pub open spec fn paths_views(paths: Seq<Vec<String>>) -> Seq<Seq<Seq<char>>> {
    Seq::new(paths.len(), |i: int| path_views(paths[i]@))
}

/// Where the system dictionary is looked for, in this order: beside the
/// program, in the workspace of a development build, in the user's folder, and
/// where the installer puts it.
pub open spec fn search_order(
    program_dir: Option<Seq<char>>,
    workspace: Option<Seq<char>>,
    appdata: Option<Seq<char>>,
) -> Seq<Seq<Seq<char>>> {
    let a = match program_dir {
        Some(d) => seq![seq![d, "SKK-JISYO.L"@]],
        None => Seq::empty(),
    };
    let b = match (program_dir, workspace) {
        (Some(_), Some(w)) => a.push(seq![w, "dict"@, "SKK-JISYO.L"@]),
        _ => a,
    };
    let c = match appdata {
        Some(d) => b.push(seq![d, "Koyubi"@, "dict"@, "SKK-JISYO.L"@]),
        None => b,
    };
    c.push(seq![r"C:\Program Files\Koyubi\dict\SKK-JISYO.L"@])
}

fn path2(a: &str, b: &str) -> (r: Vec<String>)
    ensures
        path_views(r@) == seq![a@, b@],
        r@.len() == 2,
        r@[0]@ == a@,
        r@[1]@ == b@,
{
    let mut out: Vec<String> = Vec::new();
    out.push(a.to_string());
    out.push(b.to_string());
    assert(path_views(out@) =~= seq![a@, b@]);
    out
}

/// Where the system dictionary is looked for; each path by its parts. The first
/// one that can be read is taken.
pub fn dictionary_search_paths(
    program_dir: Option<&str>,
    workspace: Option<&str>,
    appdata: Option<&str>,
) -> (r: Vec<Vec<String>>)
    ensures
        paths_views(r@) == search_order(
            match program_dir {
                Some(d) => Some(d@),
                None => None,
            },
            match workspace {
                Some(w) => Some(w@),
                None => None,
            },
            match appdata {
                Some(d) => Some(d@),
                None => None,
            },
        ),
{
    let mut paths: Vec<Vec<String>> = Vec::new();
    let ghost mut model: Seq<Seq<Seq<char>>> = Seq::empty();
    assert(paths_views(paths@) =~= model);
    if let Some(dir) = program_dir {
        paths.push(path2(dir, "SKK-JISYO.L"));
        proof {
            model = seq![seq![dir@, "SKK-JISYO.L"@]];
            assert(paths_views(paths@) =~= model);
        }
        if let Some(w) = workspace {
            let mut path = path2(w, "dict");
            path.push("SKK-JISYO.L".to_string());
            proof {
                let full = seq![w@, "dict"@, "SKK-JISYO.L"@];
                assert(path_views(path@) =~= full);
                model = model.push(full);
            }
            paths.push(path);
            assert(paths_views(paths@) =~= model);
        }
    }
    if let Some(d) = appdata {
        let mut path = path2(d, "Koyubi");
        path.push("dict".to_string());
        path.push("SKK-JISYO.L".to_string());
        proof {
            let full = seq![d@, "Koyubi"@, "dict"@, "SKK-JISYO.L"@];
            assert(path_views(path@) =~= full);
            model = model.push(full);
        }
        paths.push(path);
        assert(paths_views(paths@) =~= model);
    }
    let mut path: Vec<String> = Vec::new();
    path.push(r"C:\Program Files\Koyubi\dict\SKK-JISYO.L".to_string());
    proof {
        let full = seq![r"C:\Program Files\Koyubi\dict\SKK-JISYO.L"@];
        assert(path_views(path@) =~= full);
        model = model.push(full);
    }
    paths.push(path);
    assert(paths_views(paths@) =~= model);
    paths
}

/// Which system dictionaries to read.
#[derive(Debug, Clone, PartialEq, Eq)]
pub struct DictionaryPlan {
    /// Paths by their parts, in order.
    pub paths: Vec<Vec<String>>,
    /// Whether only the first one that can be read is taken.
    pub first_only: bool,
}

/// Which of `count` paths is tried behind the one at `at`, which was read or
/// could not be read: the next one, unless only one is wanted and it was read.
pub open spec fn next_tried(count: int, first_only: bool, at: int, loaded: bool) -> Option<int> {
    if at + 1 < count && !(loaded && first_only) {
        Some(at + 1)
    } else {
        None
    }
}

/// The positions of the paths that are taken, from `at` on, where `readable`
/// says of each path whether it can be read.
pub open spec fn taken_from(readable: Seq<bool>, first_only: bool, at: int) -> Seq<int>
    decreases readable.len() - at,
{
    if at < 0 || at >= readable.len() {
        Seq::empty()
    } else {
        let here = if readable[at] {
            seq![at]
        } else {
            Seq::empty()
        };
        match next_tried(readable.len() as int, first_only, at, readable[at]) {
            Some(next) => if next == at + 1 {
                here + taken_from(readable, first_only, next)
            } else {
                here
            },
            None => here,
        }
    }
}

/// The position to try behind the one at `at`; `loaded` tells whether the
/// dictionary there was read. One that could not be read is passed over. `None`
/// where the search is over.
pub fn after_load(plan: &DictionaryPlan, at: usize, loaded: bool) -> (r: Option<usize>)
    requires
        at < plan.paths@.len(),
    ensures
        r == match next_tried(plan.paths@.len() as int, plan.first_only, at as int, loaded) {
            Some(next) => Some(next as usize),
            None => None,
        },
{
    if plan.paths.len() - at > 1 && !(loaded && plan.first_only) {
        Some(at + 1)
    } else {
        None
    }
}

proof fn lemma_taken_from(readable: Seq<bool>, first_only: bool, at: int)
    requires
        0 <= at <= readable.len(),
    ensures
        ({
            let t = taken_from(readable, first_only, at);
            &&& forall|i: int|
                0 <= i < t.len() ==> at <= #[trigger] t[i] < readable.len() && readable[t[i]]
            &&& forall|i: int, j: int|
                0 <= i < j < t.len() ==> #[trigger] t[i] < #[trigger] t[j]
            &&& !first_only ==> forall|p: int|
                at <= p < readable.len() && #[trigger] readable[p] ==> t.contains(p)
            &&& first_only ==> t.len() <= 1
            &&& first_only && t.len() == 0 ==> forall|p: int|
                at <= p < readable.len() ==> !#[trigger] readable[p]
            &&& first_only && t.len() == 1 ==> forall|p: int|
                at <= p < t[0] ==> !#[trigger] readable[p]
        }),
    decreases readable.len() - at,
{
    if at < readable.len() {
        let t = taken_from(readable, first_only, at);
        lemma_taken_from(readable, first_only, at + 1);
        let rest = taken_from(readable, first_only, at + 1);
        let here: Seq<int> = if readable[at] {
            seq![at]
        } else {
            Seq::empty()
        };
        if at + 1 == readable.len() {
            assert(rest =~= Seq::empty());
            assert(here + rest =~= here);
        }
        if !(readable[at] && first_only) {
            assert(t =~= here + rest);
            assert forall|i: int| 0 <= i < t.len() implies at <= #[trigger] t[i] < readable.len()
                && readable[t[i]] by {
                if i >= here.len() {
                    assert(t[i] == rest[i - here.len()]);
                }
            }
            assert forall|i: int, j: int| 0 <= i < j < t.len() implies #[trigger] t[i]
                < #[trigger] t[j] by {
                assert(t[j] == rest[j - here.len()]);
                if i >= here.len() {
                    assert(t[i] == rest[i - here.len()]);
                }
            }
            if !first_only {
                assert forall|p: int|
                    at <= p < readable.len() && #[trigger] readable[p] implies t.contains(p) by {
                    if p == at {
                        assert(t[0] == p);
                    } else {
                        assert(rest.contains(p));
                        let k = choose|k: int| 0 <= k < rest.len() && rest[k] == p;
                        assert(t[k + here.len()] == p);
                    }
                }
            } else {
                assert(t =~= rest);
            }
        } else {
            assert(t =~= here);
        }
    }
}

/// Whichever dictionaries can be read: where the plan wants all, exactly those
/// that can be read are taken, in order; where it wants one, exactly the first
/// that can be read, and none if none can.
pub proof fn law_dictionaries_taken(readable: Seq<bool>, first_only: bool)
    ensures
        ({
            let t = taken_from(readable, first_only, 0);
            &&& forall|i: int|
                0 <= i < t.len() ==> 0 <= #[trigger] t[i] < readable.len() && readable[t[i]]
            &&& forall|i: int, j: int|
                0 <= i < j < t.len() ==> #[trigger] t[i] < #[trigger] t[j]
            &&& !first_only ==> forall|p: int|
                0 <= p < readable.len() && #[trigger] readable[p] ==> t.contains(p)
            &&& first_only ==> t.len() <= 1
            &&& first_only && t.len() == 0 ==> forall|p: int|
                0 <= p < readable.len() ==> !#[trigger] readable[p]
            &&& first_only && t.len() == 1 ==> forall|p: int|
                0 <= p < t[0] ==> !#[trigger] readable[p]
        }),
{
    lemma_taken_from(readable, first_only, 0);
}

/// Which system dictionaries to read: all those of the settings, or where they
/// name none the first one that is found.
pub fn dictionary_plan(
    configured: &Vec<String>,
    program_dir: Option<&str>,
    workspace: Option<&str>,
    appdata: Option<&str>,
) -> (r: DictionaryPlan)
    ensures
        configured@.len() > 0 ==> !r.first_only && paths_views(r.paths@) == Seq::new(
            configured@.len(),
            |i: int| seq![configured@[i]@],
        ),
        configured@.len() == 0 ==> r.first_only && paths_views(r.paths@) == search_order(
            match program_dir {
                Some(d) => Some(d@),
                None => None,
            },
            match workspace {
                Some(w) => Some(w@),
                None => None,
            },
            match appdata {
                Some(d) => Some(d@),
                None => None,
            },
        ),
{
    if configured.len() == 0 {
        return DictionaryPlan {
            paths: dictionary_search_paths(program_dir, workspace, appdata),
            first_only: true,
        };
    }
    let ghost model = Seq::new(configured@.len(), |i: int| seq![configured@[i]@]);
    let mut paths: Vec<Vec<String>> = Vec::new();
    let mut i: usize = 0;
    assert(paths_views(paths@) =~= model.take(0));
    while i < configured.len()
        invariant
            i <= configured@.len(),
            model == Seq::new(configured@.len(), |i: int| seq![configured@[i]@]),
            paths_views(paths@) == model.take(i as int),
        decreases configured@.len() - i,
    {
        let mut path: Vec<String> = Vec::new();
        path.push(configured[i].clone());
        let ghost before = paths@;
        assert(path_views(path@) =~= model[i as int]);
        paths.push(path);
        assert(paths_views(paths@) =~= paths_views(before).push(path_views(path@)));
        i += 1;
        assert(model.take(i as int) =~= model.take(i - 1).push(model[i - 1]));
    }
    assert(model.take(i as int) =~= model);
    DictionaryPlan { paths, first_only: false }
}

/// The user dictionary's path by its parts: the one of the settings, or the one
/// in the user's folder; none where there is no such folder.
pub fn user_dictionary_path(configured: Option<&str>, appdata: Option<&str>) -> (r: Option<
    Vec<String>,
>)
    ensures
        match (configured, appdata) {
            (Some(p), _) => r matches Some(path) && path_views(path@) == seq![p@],
            (None, Some(d)) => r matches Some(path) && path_views(path@) == seq![
                d@,
                "Koyubi"@,
                "dict"@,
                "user-dict.skk"@,
            ],
            (None, None) => r is None,
        },
{
    match configured {
        Some(p) => {
            let mut path: Vec<String> = Vec::new();
            path.push(p.to_string());
            assert(path_views(path@) =~= seq![p@]);
            Some(path)
        },
        None => match appdata {
            Some(d) => {
                let mut path = path2(d, "Koyubi");
                path.push("dict".to_string());
                path.push("user-dict.skk".to_string());
                assert(path_views(path@) =~= seq![d@, "Koyubi"@, "dict"@, "user-dict.skk"@]);
                Some(path)
            },
            None => None,
        },
    }
}

/// Whether a key is held after these keys, where it was held before or not.
pub open spec fn held_after(keys: Seq<SimKey>, vk: u16, held: bool) -> bool
    decreases keys.len(),
{
    if keys.len() == 0 {
        held
    } else if keys.last().vk == vk {
        !keys.last().up
    } else {
        held_after(keys.drop_last(), vk, held)
    }
}

/// Whether after these keys no other key is held than before, where Ctrl was
/// held at the start and is held by the user at the end or not.
pub open spec fn leaves_nothing_held(
    keys: Seq<SimKey>,
    ctrl_before: bool,
    ctrl_after: bool,
) -> bool {
    &&& held_after(keys, VK_CONTROL, ctrl_before) == ctrl_after
    &&& forall|vk: u16| vk != VK_CONTROL ==> !(#[trigger] held_after(keys, vk, false))
}

/// The keys that are pressed for the user are all let go again, and Ctrl is held
/// afterwards exactly if the user holds it.
pub proof fn law_nothing_stuck(vk: u16, ctrl_held: bool)
    requires
        vk != VK_CONTROL,
        vk != VK_SHIFT,
    ensures
        leaves_nothing_held(simulated(vk, ctrl_held), true, ctrl_held),
        leaves_nothing_held(killed_line(ctrl_held), true, ctrl_held),
        leaves_nothing_held(shifted(vk), false, false),
        leaves_nothing_held(tapped_space(), false, false),
        leaves_nothing_held(tapped(vk), false, false),
        leaves_nothing_held(killed_line_plain(), false, false),
        leaves_nothing_held(with_ctrl(vk), false, false),
{
    reveal_with_fuel(held_after, 9);
    lemma_drop_last::<SimKey>();
}

proof fn lemma_drop_last<A>()
    ensures
        forall|s: Seq<A>, a: A| #[trigger] s.push(a).drop_last() == s,
{
    assert forall|s: Seq<A>, a: A| #[trigger] s.push(a).drop_last() == s by {
        assert(s.push(a).drop_last() =~= s);
    }
}

/// A key message that is not wanted does not change which keys are held.
pub proof fn law_unwanted_changes_nothing(
    l: KeyLayer,
    m: EngineModel,
    vk: u16,
    mods: Modifiers,
    injected: bool,
    repeat: bool,
    ctrl_held: bool,
)
    requires
        !wants_down(l, m, vk, mods, injected),
    ensures
        on_down(l, m, vk, mods, injected, repeat, ctrl_held).0 == l,
{
}

/// Keys that the service pressed itself pass, whatever is held.
pub proof fn law_injected_passes(
    l: KeyLayer,
    m: EngineModel,
    vk: u16,
    mods: Modifiers,
    repeat: bool,
    ctrl_held: bool,
)
    ensures
        !wants_down(l, m, vk, mods, true),
        on_down(l, m, vk, mods, true, repeat, ctrl_held) == (l, ActionModel::Pass),
{
}

/// Space pressed and let go by itself is a Space, for the application where the
/// input method is off and where the engine does not want it, for the engine
/// otherwise; with another key in between it is Shift for that key and no Space.
pub proof fn law_space_and_shift(
    m: EngineModel,
    space_mods: Modifiers,
    vk: u16,
    mods: Modifiers,
    ctrl_held: bool,
)
    requires
        m.config.sands_enabled,
        !space_mods.ctrl,
        vk != VK_SPACE,
        is_free(vk, mods),
        !is_thumb_key(vk) || !m.config.thumb_shift_enabled,
        vk != VK_CAPITAL || !m.config.caps_ctrl_enabled,
    ensures
        ({
            let idle = KeyLayer {
                sands: SandsState::Idle,
                thumb_shift_held: false,
                caps_ctrl_held: false,
            };
            let space = on_down(idle, m, VK_SPACE, space_mods, false, false, ctrl_held);
            let tap = on_up(space.0, m.config, m.mode, VK_SPACE);
            let other = on_down(space.0, m, vk, mods, false, false, ctrl_held);
            let release = on_up(other.0, m.config, m.mode, VK_SPACE);
            &&& space.1 is Eat
            &&& tap.0 == idle
            &&& tap.1 == if m.mode == InputMode::Ascii {
                ActionModel::Inject(tapped_space())
            } else {
                ActionModel::SpaceToEngine
            }
            &&& m.mode != InputMode::Ascii ==> pressed_on_pass(tap.1) == Some(tapped_space())
            &&& other.1 == shift_action(m.mode, vk)
            &&& release == (idle, ActionModel::Eat)
        }),
{
}

/// While CapsLock stands for Ctrl, a key is to the engine what it is with Ctrl,
/// and where the engine does not want it, Ctrl with the key (Backspace for H)
/// goes to the application. Emacs keys press the same key as with Ctrl.
pub proof fn law_caps_lock_is_ctrl(
    l: KeyLayer,
    m: EngineModel,
    vk: u16,
    mods: Modifiers,
    translated: Option<u16>,
    repeat: bool,
    ctrl_held: bool,
)
    requires
        m.config.caps_ctrl_enabled,
        l.caps_ctrl_held,
        vk != VK_CAPITAL,
        is_free(vk, mods),
    ensures
        ({
            let action = on_down(l, m, vk, mods, false, repeat, ctrl_held).1;
            let with = Modifiers { ctrl: true, ..mods };
            &&& match plain_action(m.config, vk, with, true) {
                ActionModel::Inject(keys) => action matches ActionModel::Inject(plain) && (
                keys == simulated(plain[0].vk, true) && plain == tapped(plain[0].vk) || keys
                    == killed_line(true) && plain == killed_line_plain()),
                _ => action matches ActionModel::ToEngine { forced, on_pass } && forced
                    == Forced::Ctrl && on_pass == Some(
                    if vk == VK_H {
                        tapped(VK_BACK)
                    } else {
                        with_ctrl(vk)
                    },
                ),
            }
            &&& key_event::event_of(vk, with, translated) matches Some(e) ==> e.ctrl || (vk == VK_H
                && e.key == crate::Key::Backspace)
        }),
{
}

/// While a thumb key stands for Shift, every key that is no modifier has Shift,
/// unless CapsLock stands for Ctrl.
pub proof fn law_thumb_is_shift(
    l: KeyLayer,
    m: EngineModel,
    vk: u16,
    mods: Modifiers,
    repeat: bool,
    ctrl_held: bool,
)
    requires
        m.config.thumb_shift_enabled,
        l.thumb_shift_held,
        !(m.config.caps_ctrl_enabled && (l.caps_ctrl_held || vk == VK_CAPITAL)),
        !is_thumb_key(vk),
        is_free(vk, mods),
    ensures
        on_down(l, m, vk, mods, false, repeat, ctrl_held) == (l, shift_action(m.mode, vk)),
{
}

} // verus!
