//! What the engine does, key by key: the state, and the step from a state and a
//! key to the next state and the answer.
use crate::config;
use crate::config::ConfigModel;
use crate::dict;
use crate::order;
use crate::romaji;
use crate::romaji::Rules;
use crate::skk_format;
use crate::skk_format::{DictModel, EntryModel};
use crate::text;
use crate::{
    Candidate, CandidateDisplay, CandidateInfo, CompositionState, EngineResponse, InputMode, Key,
    KeyEvent,
};
use std::path::PathBuf;
use vstd::prelude::*;

verus! {

/// The path of a file.
#[verifier::external_type_specification]
#[verifier::external_body]
pub struct ExPathBuf(std::path::PathBuf);

/// How far a conversion has come.
#[verifier::ext_equal]
pub enum CompositionModel {
    Direct,
    PreComposition { reading: Seq<char>, pending_roman: Seq<char> },
    Conversion {
        reading: Seq<char>,
        okuri: Option<Seq<char>>,
        candidates: Seq<EntryModel>,
        selected: int,
    },
    Registration {
        reading: Seq<char>,
        okuri: Option<Seq<char>>,
        word: Seq<char>,
        pending_roman: Seq<char>,
    },
}

/// The engine's answer to a key.
#[verifier::ext_equal]
pub enum ResponseModel {
    Commit(Seq<char>),
    UpdateComposition { display: Seq<char>, candidates: Option<Seq<Seq<char>>> },
    Consumed,
    PassThrough,
}

/// A registration that waits for a conversion within it.
#[verifier::ext_equal]
pub struct SavedModel {
    pub reading: Seq<char>,
    pub okuri: Option<Seq<char>>,
    pub word: Seq<char>,
    pub last_lookup_key: Option<Seq<char>>,
}

/// The state of the engine.
#[verifier::ext_equal]
pub struct EngineModel {
    pub config: ConfigModel,
    pub mode: InputMode,
    pub composition: CompositionModel,
    /// Romaji that is not yet kana.
    pub pending: Seq<char>,
    pub rules: Rules,
    /// The system dictionaries, most trusted first.
    pub dicts: Seq<DictModel>,
    pub user_dict: Option<DictModel>,
    /// The file of the user dictionary.
    pub file: Option<PathBuf>,
    /// Whether the user dictionary changed since its text was last asked for.
    pub save_due: bool,
    /// The consonant with which okurigana starts.
    pub okuri_prefix: Option<Seq<char>>,
    /// What was last looked up: the reading under which a word is registered.
    pub last_lookup_key: Option<Seq<char>>,
    pub saved: Option<SavedModel>,
    /// Letters are taken as they are while a word is registered.
    pub sub_mode: Option<InputMode>,
}

impl View for Candidate {
    type V = EntryModel;

    open spec fn view(&self) -> EntryModel {
        EntryModel { word: self.word@, annotation: dict::option_view(self.annotation) }
    }
}

impl View for CandidateDisplay {
    type V = EntryModel;

    open spec fn view(&self) -> EntryModel {
        EntryModel { word: self.word@, annotation: dict::option_view(self.annotation) }
    }
}

/// Candidates, one for one.
pub open spec fn candidate_views(cs: Seq<Candidate>) -> Seq<EntryModel> {
    Seq::new(cs.len(), |i: int| cs[i]@)
}

impl View for CandidateInfo {
    type V = (Seq<EntryModel>, int);

    open spec fn view(&self) -> (Seq<EntryModel>, int) {
        (
            Seq::new(self.candidates@.len(), |i: int| self.candidates@[i]@),
            self.selected as int,
        )
    }
}

impl View for CompositionState {
    type V = CompositionModel;

    open spec fn view(&self) -> CompositionModel {
        match self {
            CompositionState::Direct => CompositionModel::Direct,
            CompositionState::PreComposition { reading, pending_roman } => {
                CompositionModel::PreComposition {
                    reading: reading@,
                    pending_roman: pending_roman@,
                }
            },
            CompositionState::Conversion { reading, okuri, candidates, selected } => {
                CompositionModel::Conversion {
                    reading: reading@,
                    okuri: dict::option_view(*okuri),
                    candidates: candidate_views(candidates@),
                    selected: *selected as int,
                }
            },
            CompositionState::Registration { reading, okuri, word, pending_roman } => {
                CompositionModel::Registration {
                    reading: reading@,
                    okuri: dict::option_view(*okuri),
                    word: word@,
                    pending_roman: pending_roman@,
                }
            },
        }
    }
}

impl View for EngineResponse {
    type V = ResponseModel;

    open spec fn view(&self) -> ResponseModel {
        match self {
            EngineResponse::Commit(s) => ResponseModel::Commit(s@),
            EngineResponse::UpdateComposition { display, candidates } => {
                ResponseModel::UpdateComposition {
                    display: display@,
                    candidates: match candidates {
                        Some(words) => Some(order::views(words@)),
                        None => None,
                    },
                }
            },
            EngineResponse::Consumed => ResponseModel::Consumed,
            EngineResponse::PassThrough => ResponseModel::PassThrough,
        }
    }
}

/// The full-width form of a printable ASCII character; other characters as
/// they are.
pub open spec fn fullwidth(c: char) -> char {
    if 0x21 <= c as u32 <= 0x7E {
        (c as u32 + 0xFEE0) as char
    } else {
        c
    }
}

/// The katakana of a hiragana; other characters as they are.
pub open spec fn katakana_char(c: char) -> char {
    if 0x3041 <= c as u32 <= 0x3096 {
        (c as u32 + 0x60) as char
    } else {
        c
    }
}

/// Text with its hiragana as katakana.
pub open spec fn katakana(s: Seq<char>) -> Seq<char> {
    Seq::new(s.len(), |i: int| katakana_char(s[i]))
}

/// Kana as the mode writes it.
pub open spec fn kana_in(mode: InputMode, s: Seq<char>) -> Seq<char> {
    if mode == InputMode::Katakana {
        katakana(s)
    } else {
        s
    }
}

/// Optional text, empty where there is none.
pub open spec fn or_empty(s: Option<Seq<char>>) -> Seq<char> {
    match s {
        Some(t) => t,
        None => Seq::empty(),
    }
}

/// Candidates with those of `entries` behind them whose word is not there yet.
pub open spec fn merged(found: Seq<EntryModel>, entries: Seq<EntryModel>) -> Seq<EntryModel>
    decreases entries.len(),
{
    if entries.len() == 0 {
        found
    } else {
        let before = merged(found, entries.drop_last());
        if skk_format::has_word(before, entries.last().word) {
            before
        } else {
            before.push(entries.last())
        }
    }
}

/// The candidates of a reading in the first `n` system dictionaries, behind
/// those of the user dictionary.
pub open spec fn found_in(m: EngineModel, reading: Seq<char>, n: int) -> Seq<EntryModel>
    decreases n,
{
    if n <= 0 {
        match m.user_dict {
            Some(d) => if d.contains_key(reading) {
                d[reading]
            } else {
                Seq::empty()
            },
            None => Seq::empty(),
        }
    } else {
        let before = found_in(m, reading, n - 1);
        if m.dicts[n - 1].contains_key(reading) {
            merged(before, m.dicts[n - 1][reading])
        } else {
            before
        }
    }
}

/// The candidates of a reading in all dictionaries: those of the user
/// dictionary first, no later word twice.
pub open spec fn found(m: EngineModel, reading: Seq<char>) -> Seq<EntryModel> {
    found_in(m, reading, m.dicts.len() as int)
}

/// The mark behind a word that is being registered.
pub open spec fn register_mark(reading: Seq<char>) -> Seq<char> {
    seq!['[', '登', '録', ':'] + reading + seq![']']
}

/// What the composition shows by itself.
pub open spec fn inner_text(m: EngineModel) -> Option<Seq<char>> {
    match m.composition {
        CompositionModel::Direct => if m.pending.len() == 0 {
            None
        } else {
            Some(m.pending)
        },
        CompositionModel::PreComposition { reading, .. } => Some(
            seq!['▽'] + reading + m.pending,
        ),
        CompositionModel::Conversion { okuri, candidates, selected, .. } => {
            if 0 <= selected < candidates.len() {
                Some(seq!['▼'] + candidates[selected].word + or_empty(okuri))
            } else {
                None
            }
        },
        CompositionModel::Registration { reading, word, pending_roman, .. } => Some(
            word + pending_roman + register_mark(reading),
        ),
    }
}

/// What is shown as not yet final.
pub open spec fn shown(m: EngineModel) -> Option<Seq<char>> {
    match m.saved {
        Some(s) => Some(s.word + or_empty(inner_text(m)) + register_mark(s.reading)),
        None => inner_text(m),
    }
}

/// The words of candidates.
pub open spec fn words(candidates: Seq<EntryModel>) -> Seq<Seq<char>> {
    Seq::new(candidates.len(), |i: int| candidates[i].word)
}

/// The answer that shows the composition.
pub open spec fn composed(m: EngineModel) -> ResponseModel {
    match shown(m) {
        Some(display) => ResponseModel::UpdateComposition {
            display,
            candidates: match m.composition {
                CompositionModel::Conversion { candidates, .. } => Some(words(candidates)),
                _ => None,
            },
        },
        None => ResponseModel::Consumed,
    }
}

/// The state with the answer that shows its composition.
pub open spec fn showing(m: EngineModel) -> (EngineModel, ResponseModel) {
    (m, composed(m))
}

/// The answer to a key that was used without text to insert: nothing to do where
/// the same is shown as before, and otherwise what is shown now.
pub open spec fn taken(was: Option<Seq<char>>, next: EngineModel) -> ResponseModel {
    if shown(next) == was {
        ResponseModel::Consumed
    } else if shown(next) is Some {
        composed(next)
    } else {
        ResponseModel::UpdateComposition { display: Seq::empty(), candidates: None }
    }
}

/// Text to insert; where there is none, the answer to a key that was used.
pub open spec fn commit_or_take(
    was: Option<Seq<char>>,
    next: EngineModel,
    s: Seq<char>,
) -> ResponseModel {
    if s.len() == 0 {
        taken(was, next)
    } else {
        ResponseModel::Commit(s)
    }
}

/// Whether a key is this character.
pub open spec fn is_char(key: KeyEvent, c: char) -> bool {
    key.key == Key::Char(c)
}

/// Backspace, or Ctrl-H, which is the same.
pub open spec fn is_backspace(key: KeyEvent) -> bool {
    key.key == Key::Backspace || (key.ctrl && is_char(key, 'h'))
}

/// Ctrl-J or Enter.
pub open spec fn is_confirm(key: KeyEvent) -> bool {
    (key.ctrl && is_char(key, 'j')) || key.key == Key::Enter
}

/// Ctrl-G or Escape.
pub open spec fn is_cancel(key: KeyEvent) -> bool {
    (key.ctrl && is_char(key, 'g')) || key.key == Key::Escape
}

/// Nothing typed, nothing shown.
pub open spec fn reset(m: EngineModel) -> EngineModel {
    EngineModel {
        composition: CompositionModel::Direct,
        pending: Seq::empty(),
        okuri_prefix: None,
        last_lookup_key: None,
        saved: None,
        sub_mode: None,
        ..m
    }
}

/// The input method is off and nothing is typed.
pub open spec fn turned_off(m: EngineModel) -> (EngineModel, ResponseModel) {
    let next = EngineModel { mode: InputMode::Ascii, ..reset(m) };
    (next, taken(shown(m), next))
}

/// Turning the input method on and off: Ctrl-Space, Ctrl-J, Ctrl-;. `None` for
/// other keys, and for Ctrl-J in a mode that has its own use for it.
pub open spec fn ime_control(m: EngineModel, key: KeyEvent) -> Option<(
    EngineModel,
    ResponseModel,
)> {
    if !key.ctrl {
        None
    } else if key.key == Key::Space {
        if m.mode == InputMode::Ascii {
            Some((EngineModel { mode: InputMode::Hiragana, ..m }, ResponseModel::Consumed))
        } else {
            Some(turned_off(m))
        }
    } else if is_char(key, 'j') {
        if m.mode == InputMode::Ascii || m.mode == InputMode::HankakuKatakana || m.mode
            == InputMode::Abbrev {
            Some((EngineModel { mode: InputMode::Hiragana, ..m }, ResponseModel::Consumed))
        } else {
            None
        }
    } else if is_char(key, ';') {
        Some(turned_off(m))
    } else {
        None
    }
}

/// Another mode, with what was typed made kana first.
pub open spec fn leave_for(m: EngineModel, mode: InputMode) -> (EngineModel, ResponseModel) {
    let next = EngineModel { pending: Seq::empty(), mode, ..m };
    (next, commit_or_take(shown(m), next, kana_in(m.mode, romaji::flushed(m.pending))))
}

/// A reading starts with this letter.
pub open spec fn started(m: EngineModel, ch: char) -> EngineModel {
    let (kana, rest) = romaji::fed(m.rules, m.pending, ch);
    EngineModel {
        composition: CompositionModel::PreComposition { reading: kana, pending_roman: rest },
        pending: rest,
        ..m
    }
}

/// A key where input goes straight to the application.
pub open spec fn direct_step(m: EngineModel, key: KeyEvent) -> (EngineModel, ResponseModel) {
    let flushed_kana = kana_in(m.mode, romaji::flushed(m.pending));
    let empty = EngineModel { pending: Seq::empty(), ..m };
    if is_backspace(key) {
        if m.pending.len() > 0 {
            (
                EngineModel { pending: m.pending.drop_last(), ..m },
                ResponseModel::UpdateComposition {
                    display: m.pending.drop_last(),
                    candidates: None,
                },
            )
        } else {
            (m, ResponseModel::PassThrough)
        }
    } else if key.ctrl {
        if is_char(key, 'j') {
            (empty, commit_or_take(shown(m), empty, flushed_kana))
        } else if is_char(key, 'g') {
            (m, ResponseModel::Consumed)
        } else {
            (m, ResponseModel::PassThrough)
        }
    } else {
        match key.key {
            Key::Char(ch) => {
                if !key.shift && ch == m.config.enter_ascii {
                    leave_for(m, InputMode::Ascii)
                } else if key.shift && ch == m.config.enter_zenkaku {
                    leave_for(m, InputMode::ZenkakuAscii)
                } else if !key.shift && ch == m.config.toggle_kana {
                    leave_for(
                        m,
                        if m.mode == InputMode::Hiragana {
                            InputMode::Katakana
                        } else {
                            InputMode::Hiragana
                        },
                    )
                } else if key.shift && text::is_upper(ch) {
                    let next = started(empty, text::lower(ch));
                    if flushed_kana.len() == 0 {
                        showing(next)
                    } else {
                        (next, ResponseModel::Commit(flushed_kana))
                    }
                } else if text::is_lower(ch) {
                    let (kana, rest) = romaji::fed(m.rules, m.pending, ch);
                    (
                        EngineModel { pending: rest, ..m },
                        if kana.len() == 0 {
                            ResponseModel::UpdateComposition { display: rest, candidates: None }
                        } else {
                            ResponseModel::Commit(kana_in(m.mode, kana))
                        },
                    )
                } else {
                    (m, ResponseModel::PassThrough)
                }
            },
            Key::Enter => if m.pending.len() == 0 {
                (m, ResponseModel::PassThrough)
            } else {
                (empty, commit_or_take(shown(m), empty, flushed_kana))
            },
            _ => (m, ResponseModel::PassThrough),
        }
    }
}

/// The reading is given up.
pub open spec fn cancelled(m: EngineModel) -> (EngineModel, ResponseModel) {
    (
        EngineModel {
            composition: CompositionModel::Direct,
            pending: Seq::empty(),
            okuri_prefix: None,
            ..m
        },
        ResponseModel::UpdateComposition { display: Seq::empty(), candidates: None },
    )
}

/// The composition ends with this text.
pub open spec fn ended_with(was: Option<Seq<char>>, m: EngineModel, s: Seq<char>) -> (
    EngineModel,
    ResponseModel,
) {
    let next = EngineModel { composition: CompositionModel::Direct, okuri_prefix: None, ..m };
    (next, commit_or_take(was, next, s))
}

/// What was looked up is shown: the candidates, or where there are none a
/// registration. Within a registration no other starts: `stay` is the state then.
pub open spec fn looked_up(
    was: Option<Seq<char>>,
    m: EngineModel,
    stay: EngineModel,
    reading: Seq<char>,
    okuri: Option<Seq<char>>,
    key: Seq<char>,
) -> (EngineModel, ResponseModel) {
    let candidates = found(m, key);
    if candidates.len() > 0 {
        showing(
            EngineModel {
                composition: CompositionModel::Conversion {
                    reading,
                    okuri,
                    candidates,
                    selected: 0,
                },
                ..m
            },
        )
    } else if m.saved is Some {
        (stay, taken(was, stay))
    } else {
        showing(
            EngineModel {
                composition: CompositionModel::Registration {
                    reading,
                    okuri,
                    word: Seq::empty(),
                    pending_roman: Seq::empty(),
                },
                ..m
            },
        )
    }
}

/// The reading is looked up with the consonant of its okurigana.
pub open spec fn okuri_looked_up(
    was: Option<Seq<char>>,
    m: EngineModel,
    reading: Seq<char>,
    okuri: Seq<char>,
) -> (EngineModel, ResponseModel) {
    let key = reading + or_empty(m.okuri_prefix);
    let next = EngineModel {
        pending: Seq::empty(),
        okuri_prefix: None,
        last_lookup_key: Some(key),
        ..m
    };
    let stay = EngineModel {
        composition: CompositionModel::PreComposition { reading, pending_roman: Seq::empty() },
        ..next
    };
    looked_up(was, next, stay, reading, Some(okuri), key)
}

/// The reading is looked up. Where there is none, only what is pending is dropped.
pub open spec fn conversion_started(m: EngineModel, reading: Seq<char>) -> (
    EngineModel,
    ResponseModel,
) {
    let all = reading + romaji::flushed(m.pending);
    let next = EngineModel {
        pending: Seq::empty(),
        composition: CompositionModel::PreComposition {
            reading: all,
            pending_roman: Seq::empty(),
        },
        ..m
    };
    if all.len() == 0 {
        (next, ResponseModel::Consumed)
    } else {
        let asked = EngineModel { last_lookup_key: Some(all), ..next };
        looked_up(shown(m), asked, asked, all, None, all)
    }
}

/// A letter that starts the okurigana.
pub open spec fn okuri_started(m: EngineModel, reading: Seq<char>, ch: char) -> (
    EngineModel,
    ResponseModel,
) {
    let all = reading + romaji::flushed(m.pending);
    let (kana, rest) = romaji::fed(m.rules, Seq::empty(), ch);
    let next = EngineModel {
        pending: rest,
        okuri_prefix: Some(seq![ch]),
        composition: CompositionModel::PreComposition { reading: all, pending_roman: rest },
        ..m
    };
    if kana.len() > 0 {
        okuri_looked_up(shown(m), next, all, kana)
    } else {
        showing(next)
    }
}

/// A letter of the reading, or of the okurigana where it has started.
pub open spec fn reading_fed(m: EngineModel, reading: Seq<char>, ch: char) -> (
    EngineModel,
    ResponseModel,
) {
    let (kana, rest) = romaji::fed(m.rules, m.pending, ch);
    let next = EngineModel { pending: rest, ..m };
    if m.okuri_prefix is Some && kana.len() > 0 {
        okuri_looked_up(shown(m), next, reading, kana)
    } else {
        showing(
            EngineModel {
                composition: CompositionModel::PreComposition {
                    reading: reading + kana,
                    pending_roman: rest,
                },
                ..next
            },
        )
    }
}

/// The last letter of the reading is taken back.
pub open spec fn reading_backspace(
    m: EngineModel,
    reading: Seq<char>,
    pending_roman: Seq<char>,
) -> (EngineModel, ResponseModel) {
    if m.pending.len() > 0 {
        showing(
            EngineModel {
                pending: m.pending.drop_last(),
                composition: CompositionModel::PreComposition {
                    reading,
                    pending_roman: m.pending.drop_last(),
                },
                ..m
            },
        )
    } else if reading.len() > 1 {
        showing(
            EngineModel {
                composition: CompositionModel::PreComposition {
                    reading: reading.drop_last(),
                    pending_roman,
                },
                ..m
            },
        )
    } else {
        cancelled(m)
    }
}

/// A key while the reading is being typed.
pub open spec fn pre_step(
    m: EngineModel,
    reading: Seq<char>,
    pending_roman: Seq<char>,
    key: KeyEvent,
) -> (EngineModel, ResponseModel) {
    let all = reading + romaji::flushed(m.pending);
    let empty = EngineModel { pending: Seq::empty(), ..m };
    if is_backspace(key) {
        reading_backspace(m, reading, pending_roman)
    } else if is_confirm(key) {
        ended_with(shown(m), empty, all)
    } else if is_cancel(key) {
        cancelled(m)
    } else {
        match key.key {
            Key::Space => conversion_started(m, reading),
            Key::Char(ch) => if !key.ctrl && !key.shift && ch == m.config.toggle_kana {
                ended_with(shown(m), empty, katakana(all))
            } else if key.shift && text::is_upper(ch) {
                okuri_started(m, reading, text::lower(ch))
            } else if !key.ctrl && text::is_lower(ch) {
                reading_fed(m, reading, ch)
            } else {
                (m, ResponseModel::PassThrough)
            },
            _ => (m, ResponseModel::PassThrough),
        }
    }
}

/// The text of the candidate at a position, with the okurigana.
pub open spec fn candidate_text(
    candidates: Seq<EntryModel>,
    selected: int,
    okuri: Option<Seq<char>>,
) -> Seq<char> {
    (if 0 <= selected < candidates.len() {
        candidates[selected].word
    } else {
        Seq::empty()
    }) + or_empty(okuri)
}

/// The next candidate; behind the last one a registration starts, unless one
/// waits already.
pub open spec fn next_candidate(
    m: EngineModel,
    reading: Seq<char>,
    okuri: Option<Seq<char>>,
    candidates: Seq<EntryModel>,
    selected: int,
) -> (EngineModel, ResponseModel) {
    if selected + 1 < candidates.len() {
        showing(
            EngineModel {
                composition: CompositionModel::Conversion {
                    reading,
                    okuri,
                    candidates,
                    selected: selected + 1,
                },
                ..m
            },
        )
    } else if m.saved is Some {
        showing(m)
    } else {
        showing(
            EngineModel {
                composition: CompositionModel::Registration {
                    reading,
                    okuri,
                    word: Seq::empty(),
                    pending_roman: Seq::empty(),
                },
                ..m
            },
        )
    }
}

/// The candidate before; before the first one comes the reading.
pub open spec fn previous_candidate(
    m: EngineModel,
    reading: Seq<char>,
    okuri: Option<Seq<char>>,
    candidates: Seq<EntryModel>,
    selected: int,
) -> (EngineModel, ResponseModel) {
    showing(
        EngineModel {
            composition: if selected > 0 {
                CompositionModel::Conversion { reading, okuri, candidates, selected: selected - 1 }
            } else {
                CompositionModel::PreComposition { reading, pending_roman: Seq::empty() }
            },
            ..m
        },
    )
}

/// The position of the candidate with a number on the page that shows
/// `selected`; a page holds nine.
pub open spec fn numbered(selected: int, number: int) -> int {
    selected / 9 * 9 + number - 1
}

/// A key while a candidate is being chosen.
pub open spec fn conversion_step(
    m: EngineModel,
    reading: Seq<char>,
    okuri: Option<Seq<char>>,
    candidates: Seq<EntryModel>,
    selected: int,
    key: KeyEvent,
) -> (EngineModel, ResponseModel) {
    let chosen = candidate_text(candidates, selected, okuri);
    let free = EngineModel { okuri_prefix: None, ..m };
    if is_confirm(key) {
        ended_with(shown(m), m, chosen)
    } else if is_cancel(key) {
        showing(
            EngineModel {
                composition: CompositionModel::PreComposition {
                    reading,
                    pending_roman: Seq::empty(),
                },
                pending: Seq::empty(),
                ..free
            },
        )
    } else {
        match key.key {
            Key::Space => next_candidate(m, reading, okuri, candidates, selected),
            Key::Char(ch) => if !key.ctrl && !key.shift && ch == m.config.prev_candidate {
                previous_candidate(m, reading, okuri, candidates, selected)
            } else if key.shift && text::is_upper(ch) {
                let next = started(free, text::lower(ch));
                if chosen.len() == 0 {
                    showing(next)
                } else {
                    (next, ResponseModel::Commit(chosen))
                }
            } else if !key.ctrl && '1' <= ch <= '9' {
                let at = numbered(selected, ch as int - '0' as int);
                if at < candidates.len() {
                    (
                        EngineModel { composition: CompositionModel::Direct, ..free },
                        ResponseModel::Commit(candidate_text(candidates, at, okuri)),
                    )
                } else {
                    (m, ResponseModel::Consumed)
                }
            } else if !key.ctrl && text::is_lower(ch) {
                let (kana, rest) = romaji::fed(m.rules, m.pending, ch);
                let total = chosen + kana_in(m.mode, kana);
                (
                    EngineModel { composition: CompositionModel::Direct, pending: rest, ..free },
                    if total.len() == 0 {
                        ResponseModel::UpdateComposition { display: rest, candidates: None }
                    } else {
                        ResponseModel::Commit(total)
                    },
                )
            } else {
                (m, ResponseModel::PassThrough)
            },
            _ => (m, ResponseModel::PassThrough),
        }
    }
}

/// A key in full-width mode.
pub open spec fn zenkaku_step(m: EngineModel, key: KeyEvent) -> (EngineModel, ResponseModel) {
    if key.ctrl {
        if is_char(key, 'j') {
            (EngineModel { mode: InputMode::Hiragana, ..m }, ResponseModel::Consumed)
        } else {
            (m, ResponseModel::PassThrough)
        }
    } else {
        match key.key {
            Key::Char(ch) => if !key.shift && ch == m.config.enter_ascii {
                (EngineModel { mode: InputMode::Ascii, ..m }, ResponseModel::Consumed)
            } else if !key.shift && ch == m.config.toggle_kana {
                (EngineModel { mode: InputMode::Hiragana, ..m }, ResponseModel::Consumed)
            } else if !text::is_control_char(ch) {
                (m, ResponseModel::Commit(seq![fullwidth(ch)]))
            } else {
                (m, ResponseModel::PassThrough)
            },
            Key::Space => (m, ResponseModel::Commit(seq!['\u{3000}'])),
            _ => (m, ResponseModel::PassThrough),
        }
    }
}

/// The registration is given up; the reading can be typed on.
pub open spec fn registration_cancelled(m: EngineModel, reading: Seq<char>) -> (
    EngineModel,
    ResponseModel,
) {
    showing(
        EngineModel {
            composition: CompositionModel::PreComposition { reading, pending_roman: Seq::empty() },
            pending: Seq::empty(),
            okuri_prefix: None,
            saved: None,
            sub_mode: None,
            ..m
        },
    )
}

/// A word put into the user dictionary, where there is one.
pub open spec fn registered(m: EngineModel, key: Option<Seq<char>>, word: Seq<char>) -> EngineModel {
    match (key, m.user_dict) {
        (Some(k), Some(d)) => EngineModel {
            user_dict: Some(
                skk_format::with_entry(d, k, EntryModel { word, annotation: None }),
            ),
            save_due: m.save_due || m.file is Some,
            ..m
        },
        _ => m,
    }
}

/// The registration is done: the word goes into the user dictionary and, with
/// the okurigana, to the application. Without a word it is given up.
pub open spec fn registration_confirmed(
    m: EngineModel,
    reading: Seq<char>,
    okuri: Option<Seq<char>>,
    word: Seq<char>,
) -> (EngineModel, ResponseModel) {
    let all = word + romaji::flushed(m.pending);
    if all.len() == 0 {
        registration_cancelled(m, reading)
    } else {
        (
            EngineModel {
                composition: CompositionModel::Direct,
                pending: Seq::empty(),
                okuri_prefix: None,
                last_lookup_key: None,
                sub_mode: None,
                ..registered(m, m.last_lookup_key, all)
            },
            ResponseModel::Commit(all + or_empty(okuri)),
        )
    }
}

/// The last letter of the word is taken back.
pub open spec fn word_backspace(
    m: EngineModel,
    reading: Seq<char>,
    okuri: Option<Seq<char>>,
    word: Seq<char>,
    pending_roman: Seq<char>,
) -> (EngineModel, ResponseModel) {
    if m.pending.len() > 0 {
        showing(
            EngineModel {
                pending: m.pending.drop_last(),
                composition: CompositionModel::Registration {
                    reading,
                    okuri,
                    word,
                    pending_roman: m.pending.drop_last(),
                },
                ..m
            },
        )
    } else {
        showing(
            EngineModel {
                composition: CompositionModel::Registration {
                    reading,
                    okuri,
                    word: if word.len() > 0 {
                        word.drop_last()
                    } else {
                        word
                    },
                    pending_roman,
                },
                ..m
            },
        )
    }
}

/// The word is longer by one character.
pub open spec fn word_pushed(
    m: EngineModel,
    reading: Seq<char>,
    okuri: Option<Seq<char>>,
    word: Seq<char>,
    pending_roman: Seq<char>,
    ch: char,
) -> (EngineModel, ResponseModel) {
    showing(
        EngineModel {
            composition: CompositionModel::Registration {
                reading,
                okuri,
                word: word.push(ch),
                pending_roman,
            },
            ..m
        },
    )
}

/// A key while letters of the word are taken as they are.
pub open spec fn literal_step(
    m: EngineModel,
    reading: Seq<char>,
    okuri: Option<Seq<char>>,
    word: Seq<char>,
    pending_roman: Seq<char>,
    key: KeyEvent,
) -> (EngineModel, ResponseModel) {
    let wide = m.sub_mode == Some(InputMode::ZenkakuAscii);
    if key.ctrl && is_char(key, 'j') {
        showing(EngineModel { sub_mode: None, ..m })
    } else if key.key == Key::Enter {
        registration_confirmed(m, reading, okuri, word)
    } else if is_cancel(key) {
        registration_cancelled(m, reading)
    } else if is_backspace(key) {
        word_backspace(m, reading, okuri, word, pending_roman)
    } else {
        match key.key {
            Key::Space => word_pushed(
                m,
                reading,
                okuri,
                word,
                pending_roman,
                if wide {
                    '\u{3000}'
                } else {
                    ' '
                },
            ),
            Key::Char(ch) => if !key.ctrl {
                word_pushed(
                    m,
                    reading,
                    okuri,
                    word,
                    pending_roman,
                    if wide {
                        fullwidth(ch)
                    } else {
                        ch
                    },
                )
            } else {
                (m, ResponseModel::Consumed)
            },
            _ => (m, ResponseModel::Consumed),
        }
    }
}

/// A character of the word, by way of romaji where the table knows it.
pub open spec fn word_fed(
    m: EngineModel,
    reading: Seq<char>,
    okuri: Option<Seq<char>>,
    word: Seq<char>,
    ch: char,
) -> (EngineModel, ResponseModel) {
    let (kana, rest) = romaji::fed(m.rules, m.pending, ch);
    let next = EngineModel { pending: rest, ..m };
    if kana.len() == 0 && rest.len() == 0 {
        word_pushed(next, reading, okuri, word, rest, ch)
    } else {
        showing(
            EngineModel {
                composition: CompositionModel::Registration {
                    reading,
                    okuri,
                    word: word + kana,
                    pending_roman: rest,
                },
                ..next
            },
        )
    }
}

/// A conversion starts within the registration, which waits.
pub open spec fn nested_started(
    m: EngineModel,
    reading: Seq<char>,
    okuri: Option<Seq<char>>,
    word: Seq<char>,
    ch: char,
) -> (EngineModel, ResponseModel) {
    showing(
        started(
            EngineModel {
                pending: Seq::empty(),
                saved: Some(
                    SavedModel {
                        reading,
                        okuri,
                        word: word + romaji::flushed(m.pending),
                        last_lookup_key: m.last_lookup_key,
                    },
                ),
                last_lookup_key: None,
                ..m
            },
            ch,
        ),
    )
}

/// A key while a word is being registered.
pub open spec fn registration_step(
    m: EngineModel,
    reading: Seq<char>,
    okuri: Option<Seq<char>>,
    word: Seq<char>,
    pending_roman: Seq<char>,
    key: KeyEvent,
) -> (EngineModel, ResponseModel) {
    let literal = EngineModel {
        pending: Seq::empty(),
        composition: CompositionModel::Registration {
            reading,
            okuri,
            word,
            pending_roman: Seq::empty(),
        },
        ..m
    };
    if m.sub_mode is Some {
        literal_step(m, reading, okuri, word, pending_roman, key)
    } else if is_confirm(key) {
        registration_confirmed(m, reading, okuri, word)
    } else if is_cancel(key) {
        registration_cancelled(m, reading)
    } else if is_backspace(key) {
        word_backspace(m, reading, okuri, word, pending_roman)
    } else {
        match key.key {
            Key::Char(ch) => if !key.shift && !key.ctrl && ch == m.config.enter_ascii {
                showing(EngineModel { sub_mode: Some(InputMode::Ascii), ..literal })
            } else if key.shift && ch == m.config.enter_zenkaku {
                showing(EngineModel { sub_mode: Some(InputMode::ZenkakuAscii), ..literal })
            } else if key.shift && text::is_upper(ch) {
                nested_started(m, reading, okuri, word, text::lower(ch))
            } else if !key.ctrl {
                word_fed(m, reading, okuri, word, ch)
            } else {
                (m, ResponseModel::Consumed)
            },
            _ => (m, ResponseModel::Consumed),
        }
    }
}

/// The registration that waited goes on, with this word and what is pending.
pub open spec fn resumed(m: EngineModel, s: SavedModel, word: Seq<char>) -> EngineModel {
    EngineModel {
        composition: CompositionModel::Registration {
            reading: s.reading,
            okuri: s.okuri,
            word,
            pending_roman: m.pending,
        },
        last_lookup_key: s.last_lookup_key,
        saved: None,
        ..m
    }
}

/// What a conversion within a registration commits goes into the word.
pub open spec fn intercepted(m: EngineModel, r: ResponseModel) -> (EngineModel, ResponseModel) {
    match (m.saved, r) {
        (None, _) => (m, r),
        (Some(s), ResponseModel::Commit(t)) => if m.composition is PreComposition {
            showing(EngineModel { saved: Some(SavedModel { word: s.word + t, ..s }), ..m })
        } else {
            showing(resumed(m, s, s.word + t))
        },
        (Some(s), _) => if m.composition is Direct {
            showing(resumed(m, s, s.word))
        } else {
            (m, r)
        },
    }
}

/// A key in a kana mode, before a waiting registration is looked at.
pub open spec fn kana_step(m: EngineModel, key: KeyEvent) -> (EngineModel, ResponseModel) {
    match m.composition {
        CompositionModel::Direct => direct_step(m, key),
        CompositionModel::PreComposition { reading, pending_roman } => pre_step(
            m,
            reading,
            pending_roman,
            key,
        ),
        CompositionModel::Conversion { reading, okuri, candidates, selected } => conversion_step(
            m,
            reading,
            okuri,
            candidates,
            selected,
            key,
        ),
        CompositionModel::Registration { reading, okuri, word, pending_roman } => registration_step(
            m,
            reading,
            okuri,
            word,
            pending_roman,
            key,
        ),
    }
}

/// What a key does: the next state and the answer.
pub open spec fn step(m: EngineModel, key: KeyEvent) -> (EngineModel, ResponseModel) {
    match ime_control(m, key) {
        Some(done) => done,
        None => match m.mode {
            InputMode::Hiragana | InputMode::Katakana => {
                let (next, r) = kana_step(m, key);
                intercepted(next, r)
            },
            InputMode::ZenkakuAscii => zenkaku_step(m, key),
            _ => (m, ResponseModel::PassThrough),
        },
    }
}

/// What keys do, one after the other: the last state.
pub open spec fn steps(m: EngineModel, keys: Seq<KeyEvent>) -> EngineModel
    decreases keys.len(),
{
    if keys.len() == 0 {
        m
    } else {
        step(steps(m, keys.drop_last()), keys.last()).0
    }
}

/// The engine at the start.
pub open spec fn initial(config: ConfigModel) -> EngineModel {
    EngineModel {
        config,
        mode: config.initial_mode,
        composition: CompositionModel::Direct,
        pending: Seq::empty(),
        rules: romaji::default_rules(),
        dicts: Seq::empty(),
        user_dict: None,
        file: None,
        save_due: false,
        okuri_prefix: None,
        last_lookup_key: None,
        saved: None,
        sub_mode: None,
    }
}

} // verus!
