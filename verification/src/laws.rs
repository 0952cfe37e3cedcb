//! What holds of the engine in every state and for all keys.
use crate::config::ConfigModel;
use crate::model;
use crate::model::{CompositionModel, EngineModel, ResponseModel};
use crate::romaji;
use crate::skk_format;
use crate::skk_format::{DictModel, EntryModel};
use crate::text;
use crate::{InputMode, Key, KeyEvent};
use std::path::PathBuf;
use vstd::prelude::*;

verus! {

/// Hiragana and katakana mode.
pub open spec fn is_kana_mode(mode: InputMode) -> bool {
    mode == InputMode::Hiragana || mode == InputMode::Katakana
}

/// Whether `key` is what a reading with this okurigana is looked up by: the
/// reading, and the consonant where there is okurigana.
pub open spec fn is_lookup_key(
    key: Option<Seq<char>>,
    reading: Seq<char>,
    okuri: Option<Seq<char>>,
) -> bool {
    key matches Some(k) && k.len() > 0 && if okuri is Some {
        k.len() == reading.len() + 1 && k.drop_last() == reading && text::is_lower(k.last())
    } else {
        k == reading
    }
}

/// What holds of the engine in every state.
pub open spec fn inv(m: EngineModel) -> bool {
    // The table is the SKK table, and what is pending can become kana but is not
    // kana yet.
    &&& m.rules == romaji::default_rules()
    &&& romaji::is_incomplete(m.rules, m.pending)
    // A chosen candidate exists, and nothing is pending then; what is being
    // converted or registered was looked up under its reading; what is pending
    // in a reading or a word is what the romaji converter holds.
    &&& match m.composition {
        CompositionModel::Conversion { reading, okuri, candidates, selected } => {
            &&& 0 <= selected < candidates.len()
            &&& is_lookup_key(m.last_lookup_key, reading, okuri)
            &&& m.pending.len() == 0
        },
        CompositionModel::Registration { reading, okuri, pending_roman, .. } => {
            &&& is_lookup_key(m.last_lookup_key, reading, okuri)
            &&& pending_roman == m.pending
        },
        CompositionModel::Direct => m.okuri_prefix is None,
        CompositionModel::PreComposition { pending_roman, .. } => pending_roman == m.pending,
    }
    // A registration waits only while there is a conversion within it.
    &&& match m.saved {
        Some(s) => {
            &&& m.composition is PreComposition || m.composition is Conversion
            &&& is_lookup_key(s.last_lookup_key, s.reading, s.okuri)
        },
        None => true,
    }
    // Nothing is typed in a mode without kana.
    &&& !is_kana_mode(m.mode) ==> m.composition is Direct && m.saved is None && m.pending.len() == 0
    // Letters are taken as they are only while a word is registered.
    &&& match m.sub_mode {
        Some(mode) => {
            &&& mode == InputMode::Ascii || mode == InputMode::ZenkakuAscii
            &&& m.composition is Registration
            &&& m.pending.len() == 0
        },
        None => true,
    }
    &&& match m.okuri_prefix {
        Some(p) => p.len() == 1 && text::is_lower(p[0]),
        None => true,
    }
    &&& m.save_due ==> m.user_dict is Some && m.file is Some
}

/// What holds in every state holds at the start.
pub proof fn law_inv_initial(config: ConfigModel)
    ensures
        inv(model::initial(config)),
{
}

/// What holds in every state holds when nothing is typed.
pub proof fn law_inv_reset(m: EngineModel)
    requires
        inv(m),
    ensures
        inv(model::reset(m)),
        model::shown(model::reset(m)) is None,
{
}

/// What holds in every state holds when a dictionary is added, the user
/// dictionary is set, or its text is taken for its file.
pub proof fn law_inv_setup(m: EngineModel, d: DictModel, path: PathBuf)
    requires
        inv(m),
    ensures
        inv(EngineModel { dicts: m.dicts.push(d), ..m }),
        inv(EngineModel { user_dict: Some(d), file: Some(path), ..m }),
        inv(EngineModel { user_dict: Some(d), file: None, save_due: false, ..m }),
        inv(EngineModel { save_due: false, ..m }),
{
}

proof fn lemma_inv_direct(m: EngineModel, key: KeyEvent)
    requires
        inv(m),
        is_kana_mode(m.mode),
        m.composition is Direct,
    ensures
        inv(model::direct_step(m, key).0),
{
    match key.key {
        Key::Char(ch) => {
            romaji::law_pending_is_start(m.pending, ch);
            romaji::law_pending_is_start(Seq::empty(), text::lower(ch));
        },
        _ => {},
    }
    if m.pending.len() > 0 {
        romaji::law_backspace_keeps_start(m.pending);
    }
}

proof fn lemma_inv_looked_up(
    was: Option<Seq<char>>,
    m: EngineModel,
    stay: EngineModel,
    reading: Seq<char>,
    okuri: Option<Seq<char>>,
    key: Seq<char>,
)
    requires
        inv(stay),
        stay.composition is PreComposition,
        m == (EngineModel { composition: m.composition, ..stay }),
        is_kana_mode(m.mode),
        m.pending.len() == 0,
        m.last_lookup_key == Some(key),
        is_lookup_key(Some(key), reading, okuri),
    ensures
        inv(model::looked_up(was, m, stay, reading, okuri, key).0),
{
    assert(m.pending =~= Seq::empty());
}

proof fn lemma_inv_okuri(
    was: Option<Seq<char>>,
    m: EngineModel,
    reading: Seq<char>,
    okuri: Seq<char>,
)
    requires
        inv(
            EngineModel {
                pending: Seq::empty(),
                composition: CompositionModel::PreComposition {
                    reading,
                    pending_roman: Seq::empty(),
                },
                ..m
            },
        ),
        is_kana_mode(m.mode),
        m.okuri_prefix is Some,
    ensures
        inv(model::okuri_looked_up(was, m, reading, okuri).0),
{
    let p = m.okuri_prefix->0;
    let key = reading + p;
    assert(key.drop_last() =~= reading);
    assert(key.last() == p[0]);
    let next = EngineModel {
        pending: Seq::empty(),
        okuri_prefix: None,
        last_lookup_key: Some(key),
        ..m
    };
    let stay = EngineModel {
        composition: CompositionModel::PreComposition { reading, pending_roman: Seq::empty() },
        ..next
    };
    lemma_inv_looked_up(was, next, stay, reading, Some(okuri), key);
}

proof fn lemma_inv_pre(m: EngineModel, reading: Seq<char>, pending_roman: Seq<char>, key: KeyEvent)
    requires
        inv(m),
        is_kana_mode(m.mode),
        m.composition == (CompositionModel::PreComposition { reading, pending_roman }),
    ensures
        ({
            let (next, r) = model::pre_step(m, reading, pending_roman, key);
            inv(model::intercepted(next, r).0)
        }),
{
    match key.key {
        Key::Char(ch) => {
            romaji::law_pending_is_start(m.pending, ch);
            romaji::law_pending_is_start(Seq::empty(), text::lower(ch));
            let (kana, rest) = romaji::fed(m.rules, m.pending, ch);
            if m.okuri_prefix is Some {
                lemma_inv_okuri(
                    model::shown(m),
                    EngineModel { pending: rest, ..m },
                    reading,
                    kana,
                );
            }
            if text::is_upper(ch) {
                let low = text::lower(ch);
                let all = reading + romaji::flushed(m.pending);
                let (kana2, rest2) = romaji::fed(m.rules, Seq::empty(), low);
                let next = EngineModel {
                    pending: rest2,
                    okuri_prefix: Some(seq![low]),
                    composition: CompositionModel::PreComposition {
                        reading: all,
                        pending_roman: rest2,
                    },
                    ..m
                };
                lemma_inv_okuri(model::shown(m), next, all, kana2);
            }
        },
        Key::Space => {
            let all = reading + romaji::flushed(m.pending);
            let asked = EngineModel {
                pending: Seq::empty(),
                composition: CompositionModel::PreComposition {
                    reading: all,
                    pending_roman: Seq::empty(),
                },
                last_lookup_key: Some(all),
                ..m
            };
            if all.len() > 0 {
                lemma_inv_looked_up(model::shown(m), asked, asked, all, None, all);
            }
        },
        _ => {},
    }
    if m.pending.len() > 0 {
        romaji::law_backspace_keeps_start(m.pending);
    }
}

proof fn lemma_inv_conversion(
    m: EngineModel,
    reading: Seq<char>,
    okuri: Option<Seq<char>>,
    candidates: Seq<EntryModel>,
    selected: int,
    key: KeyEvent,
)
    requires
        inv(m),
        is_kana_mode(m.mode),
        m.composition == (CompositionModel::Conversion { reading, okuri, candidates, selected }),
    ensures
        ({
            let (next, r) = model::conversion_step(m, reading, okuri, candidates, selected, key);
            inv(model::intercepted(next, r).0)
        }),
{
    assert(m.pending =~= Seq::empty());
    match key.key {
        Key::Char(ch) => {
            romaji::law_pending_is_start(m.pending, ch);
            romaji::law_pending_is_start(m.pending, text::lower(ch));
        },
        _ => {},
    }
}

proof fn lemma_inv_registration(
    m: EngineModel,
    reading: Seq<char>,
    okuri: Option<Seq<char>>,
    word: Seq<char>,
    pending_roman: Seq<char>,
    key: KeyEvent,
)
    requires
        inv(m),
        is_kana_mode(m.mode),
        m.composition == (CompositionModel::Registration { reading, okuri, word, pending_roman }),
    ensures
        inv(model::registration_step(m, reading, okuri, word, pending_roman, key).0),
{
    match key.key {
        Key::Char(ch) => {
            romaji::law_pending_is_start(m.pending, ch);
            romaji::law_pending_is_start(Seq::empty(), text::lower(ch));
        },
        _ => {},
    }
    if m.pending.len() > 0 {
        romaji::law_backspace_keeps_start(m.pending);
    }
}

/// What holds in every state holds after any key.
pub proof fn law_inv_step(m: EngineModel, key: KeyEvent)
    requires
        inv(m),
    ensures
        inv(model::step(m, key).0),
{
    law_inv_reset(m);
    if model::ime_control(m, key) is None && is_kana_mode(m.mode) {
        match m.composition {
            CompositionModel::Direct => {
                lemma_inv_direct(m, key);
                assert(model::direct_step(m, key).0.saved is None);
            },
            CompositionModel::PreComposition { reading, pending_roman } => {
                lemma_inv_pre(m, reading, pending_roman, key);
            },
            CompositionModel::Conversion { reading, okuri, candidates, selected } => {
                lemma_inv_conversion(m, reading, okuri, candidates, selected, key);
            },
            CompositionModel::Registration { reading, okuri, word, pending_roman } => {
                lemma_inv_registration(m, reading, okuri, word, pending_roman, key);
                let (next, r) = model::registration_step(
                    m,
                    reading,
                    okuri,
                    word,
                    pending_roman,
                    key,
                );
                assert(next.saved is Some ==> next.composition is PreComposition && !(r is Commit));
            },
        }
    }
}

/// What holds in every state holds after any number of keys.
pub proof fn law_inv_steps(m: EngineModel, keys: Seq<KeyEvent>)
    requires
        inv(m),
    ensures
        inv(model::steps(m, keys)),
    decreases keys.len(),
{
    if keys.len() > 0 {
        law_inv_steps(m, keys.drop_last());
        law_inv_step(model::steps(m, keys.drop_last()), keys.last());
    }
}

/// Whether `now` has every candidate of `before`.
pub open spec fn keeps_words(before: DictModel, now: DictModel) -> bool {
    forall|r: Seq<char>, w: Seq<char>|
        #![trigger before.contains_key(r), skk_format::has_word(now[r], w)]
        before.contains_key(r) && skk_format::has_word(before[r], w) ==> now.contains_key(r)
            && skk_format::has_word(now[r], w)
}

proof fn lemma_with_entry_keeps(d: DictModel, reading: Seq<char>, e: EntryModel)
    ensures
        keeps_words(d, skk_format::with_entry(d, reading, e)),
{
    let now = skk_format::with_entry(d, reading, e);
    assert forall|r: Seq<char>, w: Seq<char>|
        #![trigger d.contains_key(r), skk_format::has_word(now[r], w)]
        d.contains_key(r) && skk_format::has_word(d[r], w) implies now.contains_key(r)
        && skk_format::has_word(now[r], w) by {
        let i = choose|i: int| 0 <= i < d[r].len() && (#[trigger] d[r][i]).word == w;
        if now[r] != d[r] {
            assert(now[r][i + 1] == d[r][i]);
        } else {
            assert(now[r][i].word == w);
        }
    }
}

/// Whether the settings, the romaji table, the system dictionaries and the user
/// dictionary's file are the same.
pub open spec fn same_setting(m: EngineModel, next: EngineModel) -> bool {
    &&& next.config == m.config
    &&& next.rules == m.rules
    &&& next.dicts == m.dicts
    &&& next.file == m.file
}

proof fn lemma_keep_pre(
    m: EngineModel,
    reading: Seq<char>,
    pending_roman: Seq<char>,
    key: KeyEvent,
)
    ensures
        same_setting(m, model::pre_step(m, reading, pending_roman, key).0),
        model::pre_step(m, reading, pending_roman, key).0.user_dict == m.user_dict,
{
}

proof fn lemma_keep_registration(
    m: EngineModel,
    reading: Seq<char>,
    okuri: Option<Seq<char>>,
    word: Seq<char>,
    pending_roman: Seq<char>,
    key: KeyEvent,
)
    ensures
        ({
            let all = word + romaji::flushed(m.pending);
            let next = model::registration_step(m, reading, okuri, word, pending_roman, key).0;
            &&& same_setting(m, next)
            &&& next.user_dict == m.user_dict || next.user_dict == model::registered(
                m,
                m.last_lookup_key,
                all,
            ).user_dict
        }),
{
}

/// No key changes the settings, the romaji table, the system dictionaries or
/// the user dictionary's file, and no key takes a word out of the user
/// dictionary.
pub proof fn law_keys_keep(m: EngineModel, key: KeyEvent)
    ensures
        ({
            let next = model::step(m, key).0;
            &&& same_setting(m, next)
            &&& match m.user_dict {
                Some(d) => next.user_dict matches Some(d2) && keeps_words(d, d2),
                None => next.user_dict is None,
            }
        }),
{
    let (mid, r) = model::kana_step(m, key);
    match m.composition {
        CompositionModel::PreComposition { reading, pending_roman } => {
            lemma_keep_pre(m, reading, pending_roman, key);
        },
        CompositionModel::Registration { reading, okuri, word, pending_roman } => {
            lemma_keep_registration(m, reading, okuri, word, pending_roman, key);
            if m.user_dict is Some && m.last_lookup_key is Some {
                let e = EntryModel { word: word + romaji::flushed(m.pending), annotation: None };
                lemma_with_entry_keeps(m.user_dict->0, m.last_lookup_key->0, e);
            }
        },
        _ => {},
    }
    assert(same_setting(m, mid));
    let (next, r2) = model::intercepted(mid, r);
    assert(same_setting(mid, next) && next.user_dict == mid.user_dict);
}

/// The word that a registration has so far, with an `n` that waits made kana.
pub open spec fn word_so_far(m: EngineModel) -> Seq<char> {
    m.composition->Registration_word + romaji::flushed(m.pending)
}

/// Whether a key confirms a registration: Enter, or Ctrl-J where letters are
/// not taken as they are.
pub open spec fn confirms(m: EngineModel, key: KeyEvent) -> bool {
    &&& is_kana_mode(m.mode)
    &&& m.composition is Registration
    &&& model::is_confirm(key)
    &&& m.sub_mode is None || key.key == Key::Enter
}

/// The user dictionary changes only when Enter or Ctrl-J confirms a word that
/// is not empty in a registration. It then has the word under what was looked
/// up, and is to be saved if it has a file.
pub proof fn law_user_dictionary(m: EngineModel, key: KeyEvent)
    requires
        inv(m),
    ensures
        ({
            let next = model::step(m, key).0;
            if confirms(m, key) && word_so_far(m).len() > 0 && m.user_dict is Some {
                &&& m.last_lookup_key is Some
                &&& next.user_dict == Some(
                    skk_format::with_entry(
                        m.user_dict->0,
                        m.last_lookup_key->0,
                        EntryModel { word: word_so_far(m), annotation: None },
                    ),
                )
                &&& next.save_due == (m.save_due || m.file is Some)
            } else {
                next.user_dict == m.user_dict && next.save_due == m.save_due
            }
        }),
{
}

/// The keys that turn the input method on and off are taken in every mode, on
/// and off alike. Ctrl-Space switches between ASCII and kana, Ctrl-; goes to
/// ASCII, and both of them drop what was typed when they go to ASCII. Ctrl-J
/// goes to hiragana from a mode without kana and keeps a kana mode.
pub proof fn law_control_keys(m: EngineModel, key: KeyEvent)
    requires
        key.ctrl,
        key.key == Key::Space || key.key == Key::Char('j') || key.key == Key::Char(';'),
    ensures
        ({
            let (next, r) = model::step(m, key);
            &&& !(r is PassThrough)
            &&& key.key == Key::Space ==> next.mode == if m.mode == InputMode::Ascii {
                InputMode::Hiragana
            } else {
                InputMode::Ascii
            }
            &&& key.key == Key::Char(';') ==> next.mode == InputMode::Ascii
            &&& next.mode == InputMode::Ascii && (key.key != Key::Space || m.mode
                != InputMode::Ascii) ==> model::shown(next) is None && next.composition is Direct
                && next.pending.len() == 0
            &&& key.key == Key::Char('j') ==> next.mode == if is_kana_mode(m.mode) {
                m.mode
            } else {
                InputMode::Hiragana
            }
        }),
{
}

/// With the input method off every other key goes to the application and
/// changes nothing.
pub proof fn law_ascii_passes(m: EngineModel, key: KeyEvent)
    requires
        m.mode == InputMode::Ascii,
        !(key.ctrl && (key.key == Key::Space || key.key == Key::Char('j') || key.key == Key::Char(
            ';',
        ))),
    ensures
        model::step(m, key) == (m, ResponseModel::PassThrough),
{
}

/// Ctrl-H does what Backspace does.
pub proof fn law_ctrl_h_is_backspace(m: EngineModel, shift: bool, ctrl: bool, alt: bool)
    ensures
        model::step(m, KeyEvent { key: Key::Char('h'), shift, ctrl: true, alt }) == model::step(
            m,
            KeyEvent { key: Key::Backspace, shift, ctrl, alt },
        ),
{
}

/// A key that goes to the application changes nothing.
pub proof fn law_pass_through(m: EngineModel, key: KeyEvent)
    requires
        inv(m),
        model::step(m, key).1 is PassThrough,
    ensures
        model::step(m, key).0 == m,
{
}

/// Whether a Space finds a reading with nothing in it but pending romaji that
/// does not become kana.
pub open spec fn is_empty_lookup(m: EngineModel, key: KeyEvent) -> bool {
    &&& key.key == Key::Space && !key.ctrl
    &&& m.pending.len() > 0
    &&& m.composition matches CompositionModel::PreComposition { reading, .. } && (reading
        + romaji::flushed(m.pending)).len() == 0
}

proof fn lemma_shown_pre(
    m: EngineModel,
    reading: Seq<char>,
    pending_roman: Seq<char>,
    key: KeyEvent,
)
    requires
        inv(m),
        m.composition == (CompositionModel::PreComposition { reading, pending_roman }),
        !is_empty_lookup(m, key),
        !(key.ctrl && key.key == Key::Space),
    ensures
        ({
            let (next, r) = model::pre_step(m, reading, pending_roman, key);
            &&& r is Consumed || r is PassThrough ==> model::shown(next) == model::shown(m)
            &&& r is PassThrough ==> next == m
        }),
{
    let all = reading + romaji::flushed(m.pending);
    if m.pending.len() == 0 {
        assert(all =~= reading);
        assert(m.pending =~= Seq::empty());
    }
}

/// A key that is used without a change of what is shown, or that goes to the
/// application, leaves what is shown as it was. The one exception is Space where
/// a reading has nothing in it but romaji that does not become kana: it drops
/// the romaji.
pub proof fn law_same_shown(m: EngineModel, key: KeyEvent)
    requires
        inv(m),
        model::step(m, key).1 is Consumed || model::step(m, key).1 is PassThrough,
        !(is_kana_mode(m.mode) && is_empty_lookup(m, key)),
    ensures
        model::shown(model::step(m, key).0) == model::shown(m),
{
    if model::ime_control(m, key) is None && is_kana_mode(m.mode) {
        match m.composition {
            CompositionModel::PreComposition { reading, pending_roman } => {
                lemma_shown_pre(m, reading, pending_roman, key);
            },
            _ => {},
        }
    }
}

/// The words of the candidates that can be chosen, where some can be.
pub open spec fn offered(m: EngineModel) -> Option<Seq<Seq<char>>> {
    match m.composition {
        CompositionModel::Conversion { candidates, .. } => Some(model::words(candidates)),
        _ => None,
    }
}

/// Whether an answer that updates what is shown says what is shown in a state
/// and which candidates can be chosen there.
pub open spec fn says_what_is_shown(next: EngineModel, r: ResponseModel) -> bool {
    r matches ResponseModel::UpdateComposition { display, candidates } ==> display
        == model::or_empty(model::shown(next)) && candidates == offered(next)
}

proof fn lemma_update_direct(m: EngineModel, key: KeyEvent)
    requires
        m.composition is Direct,
        m.saved is None,
    ensures
        says_what_is_shown(model::direct_step(m, key).0, model::direct_step(m, key).1),
{
    if model::is_backspace(key) && m.pending.len() == 1 {
        assert(m.pending.drop_last() =~= Seq::empty());
    }
    if let Key::Char(ch) = key.key {
        let rest = romaji::fed(m.rules, m.pending, ch).1;
        if rest.len() == 0 {
            assert(rest =~= Seq::empty());
        }
    }
}

proof fn lemma_update_conversion(
    m: EngineModel,
    reading: Seq<char>,
    okuri: Option<Seq<char>>,
    candidates: Seq<EntryModel>,
    selected: int,
    key: KeyEvent,
)
    requires
        m.composition == (CompositionModel::Conversion { reading, okuri, candidates, selected }),
    ensures
        ({
            let (next, r) = model::conversion_step(m, reading, okuri, candidates, selected, key);
            next.saved == m.saved && (m.saved is None || !(next.composition is Direct)
                ==> says_what_is_shown(next, r))
        }),
{
    if let Key::Char(ch) = key.key {
        let rest = romaji::fed(m.rules, m.pending, ch).1;
        if rest.len() == 0 {
            assert(rest =~= Seq::empty());
        }
    }
}

proof fn lemma_update_pre(
    m: EngineModel,
    reading: Seq<char>,
    pending_roman: Seq<char>,
    key: KeyEvent,
)
    ensures
        ({
            let (next, r) = model::pre_step(m, reading, pending_roman, key);
            next.saved == m.saved && (m.saved is None || !(next.composition is Direct)
                ==> says_what_is_shown(next, r))
        }),
{
}

/// An answer that updates what is shown says what is shown from then on, and
/// which candidates can be chosen.
pub proof fn law_update(m: EngineModel, key: KeyEvent)
    requires
        inv(m),
    ensures
        says_what_is_shown(model::step(m, key).0, model::step(m, key).1),
{
    if model::ime_control(m, key) is None && is_kana_mode(m.mode) {
        match m.composition {
            CompositionModel::Direct => {
                lemma_update_direct(m, key);
            },
            CompositionModel::PreComposition { reading, pending_roman } => {
                lemma_update_pre(m, reading, pending_roman, key);
            },
            CompositionModel::Conversion { reading, okuri, candidates, selected } => {
                lemma_update_conversion(m, reading, okuri, candidates, selected, key);
            },
            CompositionModel::Registration { .. } => {},
        }
    }
}

proof fn lemma_mode_pre(
    m: EngineModel,
    reading: Seq<char>,
    pending_roman: Seq<char>,
    key: KeyEvent,
)
    ensures
        model::pre_step(m, reading, pending_roman, key).0.mode == m.mode,
{
}

proof fn lemma_mode_conversion(
    m: EngineModel,
    reading: Seq<char>,
    okuri: Option<Seq<char>>,
    candidates: Seq<EntryModel>,
    selected: int,
    key: KeyEvent,
)
    ensures
        model::conversion_step(m, reading, okuri, candidates, selected, key).0.mode == m.mode,
{
}

proof fn lemma_mode_registration(
    m: EngineModel,
    reading: Seq<char>,
    okuri: Option<Seq<char>>,
    word: Seq<char>,
    pending_roman: Seq<char>,
    key: KeyEvent,
)
    ensures
        model::registration_step(m, reading, okuri, word, pending_roman, key).0.mode == m.mode,
{
}

proof fn lemma_mode_intercepted(m: EngineModel, r: ResponseModel)
    ensures
        model::intercepted(m, r).0.mode == m.mode,
{
}

/// While a reading is typed, a candidate chosen or a word registered, no key but
/// those that turn the input method off changes the mode.
pub proof fn law_mode_kept(m: EngineModel, key: KeyEvent)
    requires
        !(m.composition is Direct),
        is_kana_mode(m.mode),
        !(key.ctrl && (key.key == Key::Space || key.key == Key::Char(';'))),
    ensures
        model::step(m, key).0.mode == m.mode,
{
    let (mid, r) = model::kana_step(m, key);
    assert(mid.mode == m.mode) by {
        match m.composition {
            CompositionModel::PreComposition { reading, pending_roman } => {
                lemma_mode_pre(m, reading, pending_roman, key);
            },
            CompositionModel::Conversion { reading, okuri, candidates, selected } => {
                lemma_mode_conversion(m, reading, okuri, candidates, selected, key);
            },
            CompositionModel::Registration { reading, okuri, word, pending_roman } => {
                lemma_mode_registration(m, reading, okuri, word, pending_roman, key);
            },
            CompositionModel::Direct => {},
        }
    }
    lemma_mode_intercepted(mid, r);
    assert(model::step(m, key) == model::intercepted(mid, r));
}

/// Something is shown exactly while something is being typed or chosen.
pub proof fn law_shown(m: EngineModel)
    requires
        inv(m),
    ensures
        model::shown(m) is None <==> m.composition is Direct && m.pending.len() == 0,
{
}

/// Ctrl-G and Escape go back from the candidates to the reading, with nothing
/// pending, and from the reading to the start, where nothing is shown.
pub proof fn law_cancel(m: EngineModel, key: KeyEvent)
    requires
        inv(m),
        is_kana_mode(m.mode),
        m.saved is None,
        model::is_cancel(key),
    ensures
        m.composition matches CompositionModel::Conversion { reading, .. } ==> {
            let next = model::step(m, key).0;
            &&& next.composition == (CompositionModel::PreComposition {
                reading,
                pending_roman: Seq::empty(),
            })
            &&& next.pending.len() == 0
            &&& next.okuri_prefix is None
            &&& next.mode == m.mode
            &&& model::shown(next) == Some(seq!['▽'] + reading)
        },
        m.composition is PreComposition ==> {
            let next = model::step(m, key).0;
            &&& next.composition is Direct
            &&& model::shown(next) is None
        },
        m.composition matches CompositionModel::Registration { reading, .. } ==> {
            let next = model::step(m, key).0;
            &&& next.composition == (CompositionModel::PreComposition {
                reading,
                pending_roman: Seq::empty(),
            })
            &&& next.user_dict == m.user_dict
        },
{
    if let CompositionModel::Conversion { reading, .. } = m.composition {
        assert(seq!['▽'] + reading + Seq::empty() =~= seq!['▽'] + reading);
    }
}

/// While a reading is typed or a candidate chosen, Enter does what Ctrl-J does,
/// and so it does in a registration, but for where letters are taken as they
/// are. Escape does what Ctrl-G does.
pub proof fn law_same_keys(m: EngineModel, shift: bool, ctrl: bool, alt: bool)
    requires
        is_kana_mode(m.mode),
        !(m.composition is Direct),
    ensures
        m.sub_mode is None || !(m.composition is Registration) ==> model::step(
            m,
            KeyEvent { key: Key::Enter, shift, ctrl, alt },
        ) == model::step(m, KeyEvent { key: Key::Char('j'), shift, ctrl: true, alt }),
        model::step(m, KeyEvent { key: Key::Escape, shift, ctrl, alt }) == model::step(
            m,
            KeyEvent { key: Key::Char('g'), shift, ctrl: true, alt },
        ),
{
}

/// After a conversion without okurigana is cancelled, Space shows the first
/// candidate of the reading again.
pub proof fn law_cancel_then_convert(m: EngineModel, cancel: KeyEvent, space: KeyEvent)
    requires
        inv(m),
        is_kana_mode(m.mode),
        model::is_cancel(cancel),
        space.key == Key::Space && !space.ctrl,
        m.composition matches CompositionModel::Conversion { reading, okuri, .. } && okuri is None
            && model::found(m, reading).len() > 0,
    ensures
        ({
            let reading = m.composition->Conversion_reading;
            let back = model::step(m, cancel).0;
            let (again, r) = model::step(back, space);
            &&& back.composition == (CompositionModel::PreComposition {
                reading,
                pending_roman: Seq::empty(),
            })
            &&& again.composition == (CompositionModel::Conversion {
                reading,
                okuri: None,
                candidates: model::found(m, reading),
                selected: 0,
            })
            &&& r == model::composed(again)
        }),
{
    let reading = m.composition->Conversion_reading;
    let back = model::step(m, cancel).0;
    assert(reading + romaji::flushed(back.pending) =~= reading);
    lemma_found_same(back, m, reading, m.dicts.len() as int);
    let asked = EngineModel { last_lookup_key: Some(reading), ..back };
    lemma_found_same(asked, m, reading, m.dicts.len() as int);
}

/// The same key, `n` times.
pub open spec fn repeated(key: KeyEvent, n: nat) -> Seq<KeyEvent> {
    Seq::new(n, |i: int| key)
}

/// From a reading with nothing pending, every Space shows one candidate more,
/// up to the last, and inserts nothing. From any of them Ctrl-G and Escape lead
/// back to the reading as it was.
pub proof fn law_convert_then_cancel(m: EngineModel, space: KeyEvent, cancel: KeyEvent, n: nat)
    requires
        inv(m),
        is_kana_mode(m.mode),
        m.pending.len() == 0,
        space.key == Key::Space && !space.ctrl,
        model::is_cancel(cancel),
        m.composition matches CompositionModel::PreComposition { reading, .. } && reading.len() > 0
            && n < model::found(m, reading).len(),
    ensures
        ({
            let reading = m.composition->PreComposition_reading;
            let before = model::steps(m, repeated(space, n));
            let (at, r) = model::step(before, space);
            let (back, s) = model::step(at, cancel);
            &&& at == model::steps(m, repeated(space, n + 1))
            &&& at == (EngineModel {
                composition: CompositionModel::Conversion {
                    reading,
                    okuri: None,
                    candidates: model::found(m, reading),
                    selected: n as int,
                },
                last_lookup_key: Some(reading),
                ..m
            })
            &&& r is UpdateComposition
            &&& back == (EngineModel {
                last_lookup_key: Some(reading),
                okuri_prefix: None,
                ..m
            })
            &&& s is UpdateComposition
            &&& model::shown(back) == model::shown(m)
            &&& m.saved is None ==> model::shown(back) == Some(seq!['▽'] + reading)
        }),
    decreases n,
{
    let reading = m.composition->PreComposition_reading;
    assert(m.pending =~= Seq::empty());
    assert(reading + romaji::flushed(m.pending) =~= reading);
    assert(seq!['▽'] + reading + m.pending =~= seq!['▽'] + reading);
    assert(repeated(space, n + 1).drop_last() =~= repeated(space, n));
    let asked = EngineModel { last_lookup_key: Some(reading), ..m };
    lemma_found_same(asked, m, reading, m.dicts.len() as int);
    if n > 0 {
        law_convert_then_cancel(m, space, cancel, (n - 1) as nat);
    } else {
        assert(repeated(space, 0) =~= Seq::empty());
    }
}

pub proof fn lemma_found_same(a: EngineModel, b: EngineModel, reading: Seq<char>, n: int)
    requires
        a.dicts == b.dicts,
        a.user_dict == b.user_dict,
    ensures
        model::found_in(a, reading, n) == model::found_in(b, reading, n),
    decreases n,
{
    if n > 0 {
        lemma_found_same(a, b, reading, n - 1);
    }
}

/// Giving up a conversion within a registration, at its reading, goes back to
/// the registration as it was.
pub proof fn law_nested_cancel(m: EngineModel, key: KeyEvent)
    requires
        inv(m),
        is_kana_mode(m.mode),
        m.saved is Some,
        m.composition is PreComposition,
        model::is_cancel(key),
    ensures
        ({
            let s = m.saved->0;
            let next = model::step(m, key).0;
            &&& next.composition == (CompositionModel::Registration {
                reading: s.reading,
                okuri: s.okuri,
                word: s.word,
                pending_roman: Seq::empty(),
            })
            &&& next.last_lookup_key == s.last_lookup_key
            &&& next.saved is None
        }),
{
}

/// What a conversion within a registration settles on goes into the word that
/// is registered, and nothing goes to the application.
pub proof fn law_nested_confirm(m: EngineModel, key: KeyEvent)
    requires
        inv(m),
        is_kana_mode(m.mode),
        m.saved is Some,
        model::is_confirm(key),
    ensures
        ({
            let s = m.saved->0;
            let (next, r) = model::step(m, key);
            let text = match m.composition {
                CompositionModel::Conversion { okuri, candidates, selected, .. } => {
                    model::candidate_text(candidates, selected, okuri)
                },
                CompositionModel::PreComposition { reading, .. } => reading + romaji::flushed(
                    m.pending,
                ),
                _ => Seq::empty(),
            };
            &&& next.composition matches CompositionModel::Registration { reading, okuri, word, .. }
                && reading == s.reading && okuri == s.okuri && word == s.word + text
            &&& next.saved is None
            &&& !(r is Commit)
        }),
{
    let s = m.saved->0;
    assert(s.word + Seq::empty() =~= s.word);
}

/// While a registration waits, no other one starts.
pub proof fn law_one_registration(m: EngineModel, key: KeyEvent)
    requires
        inv(m),
        m.saved is Some,
    ensures
        ({
            let next = model::step(m, key).0;
            next.composition matches CompositionModel::Registration { reading, okuri, .. } ==> reading
                == m.saved->0.reading && okuri == m.saved->0.okuri && next.saved is None
        }),
{
}

/// From any candidate but the last, Space and then the key for the candidate
/// before lead back to where they started.
pub proof fn law_next_then_previous(m: EngineModel, alt: bool)
    requires
        inv(m),
        is_kana_mode(m.mode),
        m.composition matches CompositionModel::Conversion { candidates, selected, .. } && selected
            + 1 < candidates.len(),
    ensures
        ({
            let space = KeyEvent { key: Key::Space, shift: false, ctrl: false, alt };
            let back = KeyEvent {
                key: Key::Char(m.config.prev_candidate),
                shift: false,
                ctrl: false,
                alt,
            };
            model::step(model::step(m, space).0, back).0 == m
        }),
{
}

/// The candidate before the next one is the one to start with, and the next one
/// behind the one before is too.
pub proof fn law_next_and_previous(
    m: EngineModel,
    reading: Seq<char>,
    okuri: Option<Seq<char>>,
    candidates: Seq<EntryModel>,
    selected: int,
)
    requires
        0 <= selected < candidates.len(),
        m.composition == (CompositionModel::Conversion { reading, okuri, candidates, selected }),
    ensures
        selected + 1 < candidates.len() ==> model::previous_candidate(
            model::next_candidate(m, reading, okuri, candidates, selected).0,
            reading,
            okuri,
            candidates,
            selected + 1,
        ).0 == m,
        selected > 0 ==> model::next_candidate(
            model::previous_candidate(m, reading, okuri, candidates, selected).0,
            reading,
            okuri,
            candidates,
            selected - 1,
        ).0 == m,
{
}

/// From the first candidate the key for the candidate before leads back to the
/// reading.
pub proof fn law_previous_of_first(m: EngineModel, alt: bool)
    requires
        inv(m),
        is_kana_mode(m.mode),
        m.composition matches CompositionModel::Conversion { selected, .. } && selected == 0,
    ensures
        ({
            let reading = m.composition->Conversion_reading;
            let back = KeyEvent {
                key: Key::Char(m.config.prev_candidate),
                shift: false,
                ctrl: false,
                alt,
            };
            let (next, r) = model::step(m, back);
            &&& next == (EngineModel {
                composition: CompositionModel::PreComposition {
                    reading,
                    pending_roman: Seq::empty(),
                },
                ..m
            })
            &&& r == model::composed(next)
            &&& m.saved is None ==> model::shown(next) == Some(seq!['▽'] + reading)
        }),
{
    let reading = m.composition->Conversion_reading;
    assert(seq!['▽'] + reading + m.pending =~= seq!['▽'] + reading);
}

/// A digit takes a candidate of the page that is shown.
pub proof fn law_number_on_page(selected: int, number: int)
    requires
        0 <= selected,
        1 <= number <= 9,
    ensures
        model::numbered(selected, number) / 9 == selected / 9,
        model::numbered(selected, number) % 9 == number - 1,
{
}

proof fn lemma_merged(found: Seq<EntryModel>, entries: Seq<EntryModel>)
    ensures
        ({
            let all = model::merged(found, entries);
            &&& all.len() >= found.len()
            &&& all.take(found.len() as int) == found
            &&& forall|i: int|
                0 <= i < entries.len() ==> skk_format::has_word(
                    all,
                    (#[trigger] entries[i]).word,
                )
            &&& forall|i: int|
                found.len() <= i < all.len() ==> entries.contains(#[trigger] all[i])
            &&& forall|i: int, j: int|
                found.len() <= i < all.len() && 0 <= j < i ==> (#[trigger] all[i]).word != (
                #[trigger] all[j]).word
        }),
    decreases entries.len(),
{
    let all = model::merged(found, entries);
    if entries.len() == 0 {
        assert(all.take(found.len() as int) =~= found);
    } else {
        let before = model::merged(found, entries.drop_last());
        lemma_merged(found, entries.drop_last());
        let last = entries.last();
        assert(all.take(found.len() as int) =~= found) by {
            assert(before.take(found.len() as int) == found);
            assert forall|i: int| 0 <= i < found.len() implies all[i] == found[i] by {
                assert(before.take(found.len() as int)[i] == before[i]);
            }
        }
        assert forall|i: int| 0 <= i < before.len() implies #[trigger] all[i] == before[i] by {}
        assert forall|i: int| 0 <= i < entries.len() implies skk_format::has_word(
            all,
            (#[trigger] entries[i]).word,
        ) by {
            if i < entries.len() - 1 {
                assert(entries.drop_last()[i] == entries[i]);
                let k = choose|k: int|
                    0 <= k < before.len() && (#[trigger] before[k]).word == entries[i].word;
                assert(all[k].word == entries[i].word);
            } else if !skk_format::has_word(before, last.word) {
                assert(all[before.len() as int].word == last.word);
            }
        }
        assert forall|i: int| found.len() <= i < all.len() implies entries.contains(
            #[trigger] all[i],
        ) by {
            if i < before.len() {
                assert(entries.drop_last().contains(before[i]));
                let k = choose|k: int|
                    0 <= k < entries.drop_last().len() && entries.drop_last()[k] == before[i];
                assert(entries[k] == all[i]);
            } else {
                assert(entries[entries.len() - 1] == all[i]);
            }
        }
        assert forall|i: int, j: int| found.len() <= i < all.len() && 0 <= j < i implies (
        #[trigger] all[i]).word != (#[trigger] all[j]).word by {
            if i < before.len() {
                assert(before[i].word != before[j].word);
            } else {
                assert(all[j] == before[j]);
            }
        }
    }
}

/// Whether one of the first `n` system dictionaries has this candidate for the
/// reading.
pub open spec fn is_in_one(m: EngineModel, reading: Seq<char>, n: int, e: EntryModel) -> bool {
    exists|k: int|
        0 <= k < n && (#[trigger] m.dicts[k]).contains_key(reading) && m.dicts[k][reading].contains(
            e,
        )
}

proof fn lemma_found_in(m: EngineModel, reading: Seq<char>, n: int)
    requires
        0 <= n <= m.dicts.len(),
    ensures
        ({
            let own = model::found_in(m, reading, 0);
            let all = model::found_in(m, reading, n);
            &&& all.len() >= own.len()
            &&& all.take(own.len() as int) == own
            &&& forall|k: int, i: int|
                0 <= k < n && m.dicts[k].contains_key(reading) && 0 <= i < m.dicts[k][reading].len()
                    ==> skk_format::has_word(all, (#[trigger] m.dicts[k][reading][i]).word)
            &&& forall|i: int|
                own.len() <= i < all.len() ==> is_in_one(m, reading, n, #[trigger] all[i])
            &&& forall|i: int, j: int|
                own.len() <= i < all.len() && 0 <= j < i ==> (#[trigger] all[i]).word != (
                #[trigger] all[j]).word
        }),
    decreases n,
{
    let own = model::found_in(m, reading, 0);
    let all = model::found_in(m, reading, n);
    if n == 0 {
        assert(all.take(own.len() as int) =~= own);
    } else {
        let before = model::found_in(m, reading, n - 1);
        lemma_found_in(m, reading, n - 1);
        if m.dicts[n - 1].contains_key(reading) {
            let entries = m.dicts[n - 1][reading];
            lemma_merged(before, entries);
            assert forall|i: int| 0 <= i < before.len() implies #[trigger] all[i] == before[i] by {
                assert(all.take(before.len() as int)[i] == all[i]);
            }
            assert(all.take(own.len() as int) =~= own) by {
                assert forall|i: int| 0 <= i < own.len() implies all[i] == own[i] by {
                    assert(before.take(own.len() as int)[i] == before[i]);
                }
            }
            assert forall|k: int, i: int|
                0 <= k < n && m.dicts[k].contains_key(reading) && 0 <= i
                    < m.dicts[k][reading].len() implies skk_format::has_word(
                all,
                (#[trigger] m.dicts[k][reading][i]).word,
            ) by {
                if k < n - 1 {
                    let w = m.dicts[k][reading][i].word;
                    let j = choose|j: int| 0 <= j < before.len() && (#[trigger] before[j]).word == w;
                    assert(all[j].word == w);
                }
            }
            assert forall|i: int| own.len() <= i < all.len() implies is_in_one(
                m,
                reading,
                n,
                #[trigger] all[i],
            ) by {
                if i < before.len() {
                    assert(all[i] == before[i]);
                    assert(is_in_one(m, reading, n - 1, before[i]));
                    let k = choose|k: int|
                        0 <= k < n - 1 && (#[trigger] m.dicts[k]).contains_key(reading)
                            && m.dicts[k][reading].contains(before[i]);
                    assert(m.dicts[k].contains_key(reading));
                } else {
                    assert(entries.contains(all[i]));
                    assert(m.dicts[n - 1].contains_key(reading));
                }
            }
            assert forall|i: int, j: int| own.len() <= i < all.len() && 0 <= j < i implies (
            #[trigger] all[i]).word != (#[trigger] all[j]).word by {
                if i < before.len() {
                    assert(before[i].word != before[j].word);
                }
            }
        } else {
            assert forall|k: int, i: int|
                0 <= k < n && m.dicts[k].contains_key(reading) && 0 <= i
                    < m.dicts[k][reading].len() implies skk_format::has_word(
                all,
                (#[trigger] m.dicts[k][reading][i]).word,
            ) by {
                assert(k < n - 1);
            }
            assert forall|i: int| own.len() <= i < all.len() implies is_in_one(
                m,
                reading,
                n,
                #[trigger] all[i],
            ) by {
                assert(is_in_one(m, reading, n - 1, all[i]));
                let k = choose|k: int|
                    0 <= k < n - 1 && (#[trigger] m.dicts[k]).contains_key(reading)
                        && m.dicts[k][reading].contains(all[i]);
                assert(m.dicts[k].contains_key(reading));
            }
        }
    }
}

/// The candidates of a reading: those of the user dictionary come first and as
/// they stand there, every word of a system dictionary is among them, none is
/// from elsewhere, and no word of a system dictionary comes twice or again
/// behind one of the user dictionary.
pub proof fn law_found(m: EngineModel, reading: Seq<char>)
    ensures
        ({
            let own = match m.user_dict {
                Some(d) => if d.contains_key(reading) {
                    d[reading]
                } else {
                    Seq::empty()
                },
                None => Seq::empty(),
            };
            let all = model::found(m, reading);
            &&& all.len() >= own.len()
            &&& all.take(own.len() as int) == own
            &&& forall|k: int, i: int|
                0 <= k < m.dicts.len() && m.dicts[k].contains_key(reading) && 0 <= i
                    < m.dicts[k][reading].len() ==> skk_format::has_word(
                    all,
                    (#[trigger] m.dicts[k][reading][i]).word,
                )
            &&& forall|i: int|
                own.len() <= i < all.len() ==> is_in_one(
                    m,
                    reading,
                    m.dicts.len() as int,
                    #[trigger] all[i],
                )
            &&& forall|i: int, j: int|
                own.len() <= i < all.len() && 0 <= j < i ==> (#[trigger] all[i]).word != (
                #[trigger] all[j]).word
        }),
{
    lemma_found_in(m, reading, m.dicts.len() as int);
}

/// A registered word is found from then on under the reading for which it was
/// registered, and comes first if the user dictionary did not have it.
pub proof fn law_registered_is_found(m: EngineModel, key: KeyEvent)
    requires
        inv(m),
        confirms(m, key),
        word_so_far(m).len() > 0,
        m.user_dict is Some,
    ensures
        ({
            let all = word_so_far(m);
            let asked = m.last_lookup_key->0;
            let (next, r) = model::step(m, key);
            let d = m.user_dict->0;
            &&& r == ResponseModel::Commit(all + model::or_empty(m.composition->Registration_okuri))
            &&& skk_format::has_word(model::found(next, asked), all)
            &&& !(d.contains_key(asked) && skk_format::has_word(d[asked], all)) ==> model::found(
                next,
                asked,
            )[0] == (EntryModel { word: all, annotation: None })
            &&& next.save_due == (m.save_due || m.file is Some)
        }),
{
    let all = word_so_far(m);
    let asked = m.last_lookup_key->0;
    let next = model::step(m, key).0;
    let d = m.user_dict->0;
    let e = EntryModel { word: all, annotation: None };
    skk_format::law_added_is_found(d, asked, e);
    law_found(next, asked);
    let own = next.user_dict->0[asked];
    let f = model::found(next, asked);
    assert(next.user_dict == Some(skk_format::with_entry(d, asked, e)));
    let i = choose|i: int| 0 <= i < own.len() && (#[trigger] own[i]).word == all;
    assert(f.take(own.len() as int)[i] == f[i]);
    assert(f.take(own.len() as int)[0] == f[0]);
    assert(f[i].word == all);
}

/// Confirming a registration without a word does what giving it up does.
/// Otherwise the word goes to the application with the okurigana, and nothing
/// is typed from then on.
pub proof fn law_confirm_registration(m: EngineModel, key: KeyEvent, cancel: KeyEvent)
    requires
        inv(m),
        confirms(m, key),
        model::is_cancel(cancel),
    ensures
        ({
            let (next, r) = model::step(m, key);
            if word_so_far(m).len() == 0 {
                &&& (next, r) == model::step(m, cancel)
                &&& next.composition == (CompositionModel::PreComposition {
                    reading: m.composition->Registration_reading,
                    pending_roman: Seq::empty(),
                })
                &&& next.user_dict == m.user_dict
            } else {
                &&& r == ResponseModel::Commit(
                    word_so_far(m) + model::or_empty(m.composition->Registration_okuri),
                )
                &&& next.composition is Direct
                &&& model::shown(next) is None
            }
        }),
{
}

/// Whether a key makes the engine look up `asked`: Space for a reading, or the
/// letter that makes the okurigana kana.
pub open spec fn looks_up(m: EngineModel, key: KeyEvent, asked: Seq<char>) -> bool {
    &&& is_kana_mode(m.mode)
    &&& m.composition matches CompositionModel::PreComposition { reading, .. } && {
        ||| {
            &&& key.key == Key::Space && !key.ctrl
            &&& reading + romaji::flushed(m.pending) == asked
        }
        ||| {
            &&& key.key matches Key::Char(ch) && !key.ctrl && !key.shift && text::is_lower(ch) && ch
                != m.config.toggle_kana && romaji::fed(m.rules, m.pending, ch).0.len() > 0
            &&& m.okuri_prefix matches Some(p) && reading + p == asked
        }
    }
}

/// A registered word is offered when what it was registered under is looked up
/// again, in whatever state, with the dictionaries as the registration left
/// them.
pub proof fn law_registered_is_offered(
    m: EngineModel,
    key: KeyEvent,
    later: EngineModel,
    lookup: KeyEvent,
)
    requires
        inv(m),
        confirms(m, key),
        word_so_far(m).len() > 0,
        m.user_dict is Some,
        inv(later),
        later.dicts == m.dicts,
        later.user_dict == model::step(m, key).0.user_dict,
        looks_up(later, lookup, m.last_lookup_key->0),
    ensures
        ({
            let (next, r) = model::step(later, lookup);
            &&& next.composition matches CompositionModel::Conversion { candidates, .. }
                && skk_format::has_word(candidates, word_so_far(m))
            &&& r == model::composed(next)
        }),
{
    let asked = m.last_lookup_key->0;
    let registered = model::step(m, key).0;
    law_registered_is_found(m, key);
    law_keys_keep(m, key);
    lemma_found_same(later, registered, asked, m.dicts.len() as int);
    let reading = later.composition->PreComposition_reading;
    if lookup.key == Key::Space {
        let next = EngineModel {
            pending: Seq::empty(),
            composition: CompositionModel::PreComposition {
                reading: asked,
                pending_roman: Seq::empty(),
            },
            last_lookup_key: Some(asked),
            ..later
        };
        lemma_found_same(next, registered, asked, m.dicts.len() as int);
    } else {
        let next = EngineModel {
            pending: Seq::empty(),
            okuri_prefix: None,
            last_lookup_key: Some(asked),
            ..later
        };
        lemma_found_same(next, registered, asked, m.dicts.len() as int);
        assert(reading + model::or_empty(later.okuri_prefix) == asked);
    }
}

/// Making katakana keeps the length, changes nothing but hiragana, and twice is
/// as good as once.
pub proof fn law_katakana(s: Seq<char>)
    ensures
        model::katakana(s).len() == s.len(),
        model::katakana(model::katakana(s)) == model::katakana(s),
        forall|i: int|
            0 <= i < s.len() && !(0x3041 <= s[i] as u32 <= 0x3096) ==> #[trigger] model::katakana(
                s,
            )[i] == s[i],
        forall|i: int|
            0 <= i < s.len() && 0x3041 <= s[i] as u32 <= 0x3096 ==> (#[trigger] model::katakana(
                s,
            )[i]) as u32 == s[i] as u32 + 0x60,
{
    assert(model::katakana(model::katakana(s)) =~= model::katakana(s));
}

/// Printable ASCII characters have full-width forms of their own, other
/// characters stay as they are.
pub proof fn law_fullwidth(a: char, b: char)
    ensures
        0x21 <= a as u32 <= 0x7E ==> model::fullwidth(a) as u32 == a as u32 + 0xFEE0,
        !(0x21 <= a as u32 <= 0x7E) ==> model::fullwidth(a) == a,
        0x21 <= a as u32 <= 0x7E && 0x21 <= b as u32 <= 0x7E && model::fullwidth(a)
            == model::fullwidth(b) ==> a == b,
{
}

} // verus!
