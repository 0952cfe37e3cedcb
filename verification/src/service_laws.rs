//! What key messages and the engine's answers come to: in the document, and at
//! the application that gets the keys.
use crate::config::ConfigModel;
use crate::key_event::{Forced, Modifiers};
use crate::model::{EngineModel, ResponseModel};
use crate::text_service;
use crate::text_service::{ActionModel, KeyLayer, SandsState, SimKey, TextActionModel};
use crate::InputMode;
use vstd::prelude::*;

verus! {

// ---- The document ----

/// The document at the cursor: the text that was inserted, and the composition
/// behind it, if there is one.
#[verifier::ext_equal]
pub struct DocumentModel {
    pub inserted: Seq<char>,
    pub composition: Option<Seq<char>>,
}

/// The document after one change. A composition into which text is inserted
/// stays in the document as it is; without a composition there is nothing to
/// replace or to remove.
pub open spec fn changed(d: DocumentModel, change: TextActionModel) -> DocumentModel {
    match (change, d.composition) {
        (TextActionModel::Insert(t), None) => DocumentModel { inserted: d.inserted + t, ..d },
        (TextActionModel::Insert(t), Some(c)) => DocumentModel {
            inserted: d.inserted + c + t,
            composition: None,
        },
        (TextActionModel::Replace(t), Some(_)) => DocumentModel {
            inserted: d.inserted + t,
            composition: None,
        },
        (TextActionModel::Update(t), _) => DocumentModel { composition: Some(t), ..d },
        (TextActionModel::End, _) => DocumentModel { composition: None, ..d },
        (TextActionModel::Replace(_), None) => d,
    }
}

/// The document after changes, one after the other.
pub open spec fn changed_all(d: DocumentModel, changes: Seq<TextActionModel>) -> DocumentModel
    decreases changes.len(),
{
    if changes.len() == 0 {
        d
    } else {
        changed(changed_all(d, changes.drop_last()), changes.last())
    }
}

/// Once the changes for an answer are made, the document has exactly the text
/// that the answer inserts more than before, and its composition is what the
/// engine shows: open with that text, or closed where it shows nothing.
pub proof fn law_document(d: DocumentModel, answer: ResponseModel, shown: Option<Seq<char>>)
    requires
        !(answer is PassThrough),
    ensures
        changed_all(d, text_service::document_changes(answer, shown, d.composition is Some)) == (
        DocumentModel {
            inserted: match answer {
                ResponseModel::Commit(t) => d.inserted + t,
                _ => d.inserted,
            },
            composition: shown,
        }),
{
    reveal_with_fuel(changed_all, 4);
    let changes = text_service::document_changes(answer, shown, d.composition is Some);
    if changes.len() == 2 {
        assert(changes.drop_last().drop_last() =~= Seq::empty());
        assert(changes.drop_last().last() == changes[0]);
    } else if changes.len() == 1 {
        assert(changes.drop_last() =~= Seq::empty());
    }
}

/// Shown text is never cut or taken off and put back: an answer that inserts
/// nothing makes at most one change.
pub proof fn law_one_change(answer: ResponseModel, shown: Option<Seq<char>>, open: bool)
    requires
        !(answer is Commit),
    ensures
        text_service::document_changes(answer, shown, open).len() <= 1,
        shown is None && !open ==> text_service::document_changes(answer, shown, open).len() == 0,
{
}

// ---- Keys that are pressed for the user ----

/// A key that the application sees go down, with the modifiers that it sees
/// held.
#[verifier::ext_equal]
pub struct Stroke {
    pub vk: int,
    pub shift: bool,
    pub ctrl: bool,
    /// Whether the service knows it for its own.
    pub marked: bool,
}

/// What the application sees of pressed keys, where Ctrl is held before or not.
pub open spec fn strokes(keys: Seq<SimKey>, ctrl: bool) -> Seq<Stroke>
    decreases keys.len(),
{
    if keys.len() == 0 {
        Seq::empty()
    } else {
        let before = strokes(keys.drop_last(), ctrl);
        let k = keys.last();
        if k.up || k.vk == 0x10 || k.vk == 0x11 {
            before
        } else {
            before.push(
                Stroke {
                    vk: k.vk as int,
                    shift: text_service::held_after(keys.drop_last(), 0x10, false),
                    ctrl: text_service::held_after(keys.drop_last(), 0x11, ctrl),
                    marked: k.tagged,
                },
            )
        }
    }
}

/// A key by itself.
pub open spec fn alone(vk: int, marked: bool) -> Seq<Stroke> {
    seq![Stroke { vk, shift: false, ctrl: false, marked }]
}

/// Shift-End, and then Delete: what is between the cursor and the end of the line
/// goes.
pub open spec fn line_killed(marked: bool) -> Seq<Stroke> {
    seq![
        Stroke { vk: 0x23, shift: true, ctrl: false, marked },
        Stroke { vk: 0x2E, shift: false, ctrl: false, marked },
    ]
}

proof fn lemma_push_drop<A>()
    ensures
        forall|s: Seq<A>, a: A| #[trigger] s.push(a).drop_last() == s,
{
    assert forall|s: Seq<A>, a: A| #[trigger] s.push(a).drop_last() == s by {
        assert(s.push(a).drop_last() =~= s);
    }
}

#[verifier::spinoff_prover]
#[verifier::rlimit(40)]
proof fn lemma_strokes_simulated(vk: u16, ctrl_held: bool)
    requires
        vk != 0x10,
        vk != 0x11,
    ensures
        strokes(text_service::simulated(vk, ctrl_held), true) == alone(vk as int, true),
{
    reveal_with_fuel(strokes, 5);
    reveal_with_fuel(text_service::held_after, 5);
    lemma_push_drop::<SimKey>();
}

#[verifier::spinoff_prover]
#[verifier::rlimit(40)]
proof fn lemma_strokes_line(ctrl_held: bool)
    ensures
        strokes(text_service::killed_line(ctrl_held), true) == line_killed(true),
{
    reveal_with_fuel(strokes, 9);
    reveal_with_fuel(text_service::held_after, 9);
    lemma_push_drop::<SimKey>();
}

#[verifier::spinoff_prover]
#[verifier::rlimit(40)]
proof fn lemma_strokes_line_plain()
    ensures
        strokes(text_service::killed_line_plain(), false) == line_killed(false),
{
    reveal_with_fuel(strokes, 7);
    reveal_with_fuel(text_service::held_after, 7);
    lemma_push_drop::<SimKey>();
}

#[verifier::spinoff_prover]
#[verifier::rlimit(40)]
proof fn lemma_strokes_short(vk: u16)
    requires
        vk != 0x10,
        vk != 0x11,
    ensures
        strokes(text_service::tapped(vk), false) == alone(vk as int, false),
        strokes(text_service::tapped_space(), false) == alone(0x20, true),
        strokes(text_service::shifted(vk), false) == seq![
            Stroke { vk: vk as int, shift: true, ctrl: false, marked: true },
        ],
        strokes(text_service::with_ctrl(vk), false) == seq![
            Stroke { vk: vk as int, shift: false, ctrl: true, marked: false },
        ],
{
    reveal_with_fuel(strokes, 5);
    reveal_with_fuel(text_service::held_after, 5);
    lemma_push_drop::<SimKey>();
}

/// What the application sees of the keys that are pressed for the user: a key
/// for which Ctrl is held comes without Ctrl, a key with Shift has Shift, a key
/// with Ctrl has Ctrl, and deleting to the end of the line is Shift-End and then
/// Delete.
pub proof fn law_strokes(vk: u16, ctrl_held: bool)
    requires
        vk != 0x10,
        vk != 0x11,
    ensures
        strokes(text_service::simulated(vk, ctrl_held), true) == alone(vk as int, true),
        strokes(text_service::killed_line(ctrl_held), true) == line_killed(true),
        strokes(text_service::killed_line_plain(), false) == line_killed(false),
        strokes(text_service::tapped(vk), false) == alone(vk as int, false),
        strokes(text_service::tapped_space(), false) == alone(0x20, true),
        strokes(text_service::shifted(vk), false) == seq![
            Stroke { vk: vk as int, shift: true, ctrl: false, marked: true },
        ],
        strokes(text_service::with_ctrl(vk), false) == seq![
            Stroke { vk: vk as int, shift: false, ctrl: true, marked: false },
        ],
{
    lemma_strokes_simulated(vk, ctrl_held);
    lemma_strokes_line(ctrl_held);
    lemma_strokes_line_plain();
    lemma_strokes_short(vk);
}

/// The key that an Emacs key stands for: the cursor right, left, to the start
/// and the end of the line, down and up, and Delete.
pub open spec fn emacs_target(vk: int) -> Option<int> {
    if vk == 'F' as int {
        Some(0x27)
    } else if vk == 'B' as int {
        Some(0x25)
    } else if vk == 'A' as int {
        Some(0x24)
    } else if vk == 'E' as int {
        Some(0x23)
    } else if vk == 'N' as int {
        Some(0x28)
    } else if vk == 'P' as int {
        Some(0x26)
    } else if vk == 'D' as int {
        Some(0x2E)
    } else {
        None
    }
}

/// Whether a key stands for nothing itself: it is no modifier, and not one of the
/// keys that the settings make stand for Shift or Ctrl.
pub open spec fn is_ordinary(c: ConfigModel, vk: u16) -> bool {
    &&& vk != 0x10 && vk != 0x11 && vk != 0x12
    &&& c.caps_ctrl_enabled ==> vk != 0x14
    &&& c.thumb_shift_enabled ==> vk != 0x1C && vk != 0x1D && vk != 0x15
}

/// With Ctrl and the Emacs keys on, an Emacs key presses the key that it stands
/// for, without Ctrl, and K deletes to the end of the line. The engine does not
/// see it.
pub proof fn law_emacs_pressed(
    l: KeyLayer,
    m: EngineModel,
    vk: u16,
    alt: bool,
    repeat: bool,
    ctrl_held: bool,
)
    requires
        m.config.emacs_bindings_enabled,
        emacs_target(vk as int) is Some || vk == 'K' as int,
    ensures
        ({
            let mods = Modifiers { shift: false, ctrl: true, alt };
            let (next, action) = text_service::on_down(l, m, vk, mods, false, repeat, ctrl_held);
            &&& next == l
            &&& action matches ActionModel::Inject(keys) && strokes(keys, true) == (
            match emacs_target(vk as int) {
                Some(target) => alone(target, true),
                None => line_killed(true),
            })
        }),
{
    law_strokes(0x27, ctrl_held);
    law_strokes(0x25, ctrl_held);
    law_strokes(0x24, ctrl_held);
    law_strokes(0x23, ctrl_held);
    law_strokes(0x28, ctrl_held);
    law_strokes(0x26, ctrl_held);
    law_strokes(0x2E, ctrl_held);
}

/// While no key stands for a modifier, a key that is no Emacs key, or any key
/// where the Emacs keys are off, goes to the engine as it is. Where the engine
/// does not want it, it is passed on; only Ctrl-H is pressed as Backspace,
/// without Ctrl.
pub proof fn law_key_to_engine(
    l: KeyLayer,
    m: EngineModel,
    vk: u16,
    mods: Modifiers,
    repeat: bool,
    ctrl_held: bool,
)
    requires
        is_ordinary(m.config, vk),
        !(m.config.caps_ctrl_enabled && l.caps_ctrl_held) || mods.ctrl || mods.alt,
        !(m.config.thumb_shift_enabled && l.thumb_shift_held) || mods.ctrl || mods.alt,
        !m.config.sands_enabled || mods.ctrl || (vk != 0x20 && (mods.alt || l.sands
            == SandsState::Idle)),
        !(m.config.emacs_bindings_enabled && mods.ctrl && !mods.shift && (emacs_target(
            vk as int,
        ) is Some || vk == 'K' as int)),
    ensures
        ({
            let (next, action) = text_service::on_down(l, m, vk, mods, false, repeat, ctrl_held);
            &&& next == l
            &&& action matches ActionModel::ToEngine { forced, on_pass } && {
                &&& forced == Forced::Nothing
                &&& match on_pass {
                    Some(keys) => vk == 'H' as int && mods.ctrl && strokes(keys, true) == alone(
                        0x08,
                        true,
                    ),
                    None => !(vk == 'H' as int && mods.ctrl),
                }
            }
        }),
{
    law_strokes(0x08, ctrl_held);
}

/// CapsLock, where it stands for Ctrl, is taken, and is held from when it goes
/// down until it goes up. The thumb keys are taken and held in the same way,
/// where they stand for Shift. Nothing else changes with them.
pub proof fn law_modifier_keys(
    l: KeyLayer,
    m: EngineModel,
    mods: Modifiers,
    repeat: bool,
    ctrl_held: bool,
    thumb: u16,
)
    requires
        thumb == 0x1C || thumb == 0x1D || thumb == 0x15,
    ensures
        m.config.caps_ctrl_enabled ==> {
            &&& text_service::on_down(l, m, 0x14, mods, false, repeat, ctrl_held) == (
                KeyLayer { caps_ctrl_held: true, ..l },
                ActionModel::Eat,
            )
            &&& text_service::on_up(l, m.config, m.mode, 0x14) == (
                KeyLayer { caps_ctrl_held: false, ..l },
                ActionModel::Eat,
            )
        },
        m.config.thumb_shift_enabled && !(m.config.caps_ctrl_enabled && l.caps_ctrl_held) ==> {
            &&& text_service::on_down(l, m, thumb, mods, false, repeat, ctrl_held) == (
                KeyLayer { thumb_shift_held: true, ..l },
                ActionModel::Eat,
            )
            &&& text_service::on_up(l, m.config, m.mode, thumb) == (
                KeyLayer { thumb_shift_held: false, ..l },
                ActionModel::Eat,
            )
        },
{
}

/// While CapsLock stands for Ctrl and is held, another key without Ctrl and Alt
/// is what it is with Ctrl: an Emacs key presses the key that it stands for, any
/// other key goes to the engine with Ctrl, and where the engine does not want it
/// the application gets it with Ctrl, or Backspace for H.
pub proof fn law_caps_lock(
    l: KeyLayer,
    m: EngineModel,
    vk: u16,
    shift: bool,
    repeat: bool,
    ctrl_held: bool,
)
    requires
        m.config.caps_ctrl_enabled,
        l.caps_ctrl_held,
        vk != 0x10 && vk != 0x11 && vk != 0x12 && vk != 0x14,
    ensures
        ({
            let mods = Modifiers { shift, ctrl: false, alt: false };
            let (next, action) = text_service::on_down(l, m, vk, mods, false, repeat, ctrl_held);
            let emacs = m.config.emacs_bindings_enabled && !shift;
            &&& next == l
            &&& if emacs && emacs_target(vk as int) is Some {
                action matches ActionModel::Inject(keys) && strokes(keys, false) == alone(
                    emacs_target(vk as int)->0,
                    false,
                )
            } else if emacs && vk == 'K' as int {
                action matches ActionModel::Inject(keys) && strokes(keys, false) == line_killed(
                    false,
                )
            } else {
                action matches ActionModel::ToEngine { forced, on_pass } && forced == Forced::Ctrl
                    && (on_pass matches Some(keys) && strokes(keys, false) == if vk == 'H' as int {
                    alone(0x08, false)
                } else {
                    seq![Stroke { vk: vk as int, shift: false, ctrl: true, marked: false }]
                })
            }
        }),
{
    law_strokes(0x27, ctrl_held);
    law_strokes(0x25, ctrl_held);
    law_strokes(0x24, ctrl_held);
    law_strokes(0x23, ctrl_held);
    law_strokes(0x28, ctrl_held);
    law_strokes(0x26, ctrl_held);
    law_strokes(0x2E, ctrl_held);
    law_strokes(0x08, ctrl_held);
    law_strokes(vk, ctrl_held);
}

/// Whether an action is the key with Shift: pressed for the application where the
/// input method is off, and otherwise for the engine.
pub open spec fn has_shift(action: ActionModel, mode: InputMode, vk: u16) -> bool {
    if mode == InputMode::Ascii {
        action matches ActionModel::Inject(keys) && strokes(keys, false) == seq![
            Stroke { vk: vk as int, shift: true, ctrl: false, marked: true },
        ]
    } else {
        action == (ActionModel::ToEngine { forced: Forced::Shift, on_pass: None })
    }
}

/// While a thumb key that stands for Shift is held, or Space where it stands for
/// Shift, another key without Ctrl and Alt has Shift. Space is then Shift and no
/// Space any more.
pub proof fn law_shift_keys(
    l: KeyLayer,
    m: EngineModel,
    vk: u16,
    mods: Modifiers,
    repeat: bool,
    ctrl_held: bool,
)
    requires
        is_ordinary(m.config, vk),
        !mods.ctrl,
        !mods.alt,
        !(m.config.caps_ctrl_enabled && l.caps_ctrl_held),
    ensures
        ({
            let (next, action) = text_service::on_down(l, m, vk, mods, false, repeat, ctrl_held);
            let thumb = m.config.thumb_shift_enabled && l.thumb_shift_held;
            &&& thumb ==> next == l && has_shift(action, m.mode, vk)
            &&& !thumb && m.config.sands_enabled && l.sands != SandsState::Idle && vk != 0x20 ==> {
                &&& next == (KeyLayer { sands: SandsState::ShiftActive, ..l })
                &&& has_shift(action, m.mode, vk)
            }
        }),
{
    law_strokes(vk, ctrl_held);
}

/// Space, where it stands for Shift, is taken when it goes down and a new press
/// waits for what comes; while it is held it stays as it is.
pub proof fn law_space_key(
    l: KeyLayer,
    m: EngineModel,
    mods: Modifiers,
    repeat: bool,
    ctrl_held: bool,
)
    requires
        m.config.sands_enabled,
        !mods.ctrl,
        !(m.config.caps_ctrl_enabled && l.caps_ctrl_held) || mods.alt,
        !(m.config.thumb_shift_enabled && l.thumb_shift_held) || mods.alt,
    ensures
        text_service::on_down(l, m, 0x20, mods, false, repeat, ctrl_held) == (
            if repeat {
                l
            } else {
                KeyLayer { sands: SandsState::SpaceDown, ..l }
            },
            ActionModel::Eat,
        ),
{
}

/// Space, where it stands for Shift, is free again when it goes up: a press with
/// no other key is a Space, for the application where the input method is off and
/// for the engine otherwise, and one with another key is nothing more. Where the
/// engine does not want the Space, the application gets it.
pub proof fn law_space_release(l: KeyLayer, c: ConfigModel, mode: InputMode)
    requires
        c.sands_enabled,
    ensures
        ({
            let (next, action) = text_service::on_up(l, c, mode, 0x20);
            &&& next == (KeyLayer { sands: SandsState::Idle, ..l })
            &&& match l.sands {
                SandsState::Idle => action is Pass,
                SandsState::ShiftActive => action is Eat,
                SandsState::SpaceDown => if mode == InputMode::Ascii {
                    action matches ActionModel::Inject(keys) && strokes(keys, false) == alone(
                        0x20,
                        true,
                    )
                } else {
                    action is SpaceToEngine
                },
            }
        }),
        text_service::pressed_on_pass(ActionModel::SpaceToEngine) matches Some(keys) && strokes(
            keys,
            false,
        ) == alone(0x20, true),
{
    law_strokes(0x20, false);
}

/// The release of any other key passes and changes nothing.
pub proof fn law_other_release(l: KeyLayer, c: ConfigModel, mode: InputMode, vk: u16)
    requires
        is_ordinary(c, vk) || vk == 0x10 || vk == 0x11 || vk == 0x12,
        !c.sands_enabled || vk != 0x20,
    ensures
        text_service::on_up(l, c, mode, vk) == (l, ActionModel::Pass),
{
}

/// What is pressed where the engine does not want a key is what the action says,
/// and nothing where the action does not ask the engine.
pub proof fn law_on_pass(forced: Forced, on_pass: Option<Seq<SimKey>>, keys: Seq<SimKey>)
    ensures
        text_service::pressed_on_pass(ActionModel::ToEngine { forced, on_pass }) == on_pass,
        text_service::pressed_on_pass(ActionModel::Pass) is None,
        text_service::pressed_on_pass(ActionModel::Eat) is None,
        text_service::pressed_on_pass(ActionModel::Inject(keys)) is None,
{
}

/// What is told of a key message before it comes agrees with what it does: a key
/// that is taken, pressed as another or changed by a key that stands for a
/// modifier is wanted, and a key that is wanted is one of these or one that the
/// engine wants. The release of a key is wanted exactly if it is not passed on.
pub proof fn law_told_before(
    l: KeyLayer,
    m: EngineModel,
    vk: u16,
    mods: Modifiers,
    injected: bool,
    repeat: bool,
    ctrl_held: bool,
)
    ensures
        ({
            let (next, action) = text_service::on_down(
                l,
                m,
                vk,
                mods,
                injected,
                repeat,
                ctrl_held,
            );
            let used = action is Eat || action is Inject || (
            action matches ActionModel::ToEngine { forced, .. } && forced != Forced::Nothing);
            let wanted = text_service::wants_down(l, m, vk, mods, injected);
            let engine = crate::key_event::eats(vk, mods.shift, mods.ctrl, m);
            &&& !injected ==> (wanted <==> used || engine)
            &&& injected ==> !wanted && action is Pass
            &&& next != l ==> used
        }),
        text_service::wants_up(l, m.config, vk) <==> !(text_service::on_up(
            l,
            m.config,
            m.mode,
            vk,
        ).1 is Pass),
{
}

// ---- Where dictionaries are looked for ----

/// The system dictionary is looked for beside the program, then in the workspace
/// of a development build, then in the user's folder, and last where the
/// installer puts it; places that are not known are left out, and the workspace
/// is known only with the program.
pub proof fn law_search_order(
    program: Option<Seq<char>>,
    workspace: Option<Seq<char>>,
    appdata: Option<Seq<char>>,
)
    ensures
        ({
            let found = text_service::search_order(program, workspace, appdata);
            let a = if program is Some {
                1int
            } else {
                0
            };
            let b = if program is Some && workspace is Some {
                a + 1
            } else {
                a
            };
            let c = if appdata is Some {
                b + 1
            } else {
                b
            };
            &&& found.len() == c + 1
            &&& a == 1 ==> found[0] == seq![program->0, "SKK-JISYO.L"@]
            &&& b == 2 ==> found[1] == seq![workspace->0, "dict"@, "SKK-JISYO.L"@]
            &&& c > b ==> found[b] == seq![appdata->0, "Koyubi"@, "dict"@, "SKK-JISYO.L"@]
            &&& found[c] == seq![r"C:\Program Files\Koyubi\dict\SKK-JISYO.L"@]
        }),
{
}

} // verus!
