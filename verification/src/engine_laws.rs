//! What each key does where text goes straight to the application, while a
//! reading is typed, while a candidate is chosen and while a word is registered,
//! and what a conversion within a registration does.
use crate::laws;
use crate::model;
use crate::model::{CompositionModel, EngineModel, ResponseModel, SavedModel};
use crate::romaji;
use crate::skk_format;
use crate::skk_format::EntryModel;
use crate::text;
use crate::{InputMode, Key, KeyEvent};
use vstd::prelude::*;

verus! {

/// The kana of pending romaji that nothing follows: a lone `n` is ん.
pub open spec fn n_kana(pending: Seq<char>) -> Seq<char> {
    if pending.len() == 1 && pending[0] == 'n' {
        seq!['ん']
    } else {
        Seq::empty()
    }
}

/// Hiragana as katakana, character by character.
pub open spec fn in_katakana(s: Seq<char>) -> Seq<char> {
    Seq::new(
        s.len(),
        |i: int|
            if 0x3041 <= s[i] as u32 <= 0x3096 {
                (s[i] as u32 + 0x60) as char
            } else {
                s[i]
            },
    )
}

/// Kana as it goes to the application: katakana in katakana mode.
pub open spec fn as_typed(mode: InputMode, s: Seq<char>) -> Seq<char> {
    if mode == InputMode::Katakana {
        in_katakana(s)
    } else {
        s
    }
}

/// The small letter of a capital one.
pub open spec fn small(ch: char) -> char {
    (ch as u32 + 32) as char
}

/// A letter with Shift that starts a reading or the okurigana.
pub open spec fn is_capital(key: KeyEvent) -> bool {
    key.shift && (key.key matches Key::Char(ch) && 'A' <= ch <= 'Z')
}

/// Ctrl with this letter.
pub open spec fn is_ctrl(key: KeyEvent, ch: char) -> bool {
    key.ctrl && key.key == Key::Char(ch)
}

/// The keys that every mode has for itself: Ctrl-Space and Ctrl-;.
pub open spec fn is_switch(key: KeyEvent) -> bool {
    key.ctrl && (key.key == Key::Space || key.key == Key::Char(';'))
}

/// The answer that shows text, with no candidates.
pub open spec fn update(display: Seq<char>) -> ResponseModel {
    ResponseModel::UpdateComposition { display, candidates: None }
}

/// The answer that shows text and offers candidates.
pub open spec fn offer(display: Seq<char>, candidates: Seq<EntryModel>) -> ResponseModel {
    ResponseModel::UpdateComposition {
        display,
        candidates: Some(Seq::new(candidates.len(), |i: int| candidates[i].word)),
    }
}

/// The mark behind a word that is registered for a reading.
pub open spec fn mark(reading: Seq<char>) -> Seq<char> {
    seq!['[', '登', '録', ':'] + reading + seq![']']
}

/// The okurigana, where there is some.
pub open spec fn kana_of(okuri: Option<Seq<char>>) -> Seq<char> {
    match okuri {
        Some(o) => o,
        None => Seq::empty(),
    }
}

/// A kana mode in which no registration waits.
pub open spec fn is_plain(m: EngineModel) -> bool {
    &&& laws::inv(m)
    &&& m.mode == InputMode::Hiragana || m.mode == InputMode::Katakana
    &&& m.saved is None
}

/// The state in which a reading is typed, with what is pending in it.
pub open spec fn reading_state(m: EngineModel, reading: Seq<char>, pending: Seq<char>) -> EngineModel {
    EngineModel {
        composition: CompositionModel::PreComposition { reading, pending_roman: pending },
        pending,
        ..m
    }
}

/// The state in which a word is registered, with what is pending in it.
pub open spec fn word_state(
    m: EngineModel,
    reading: Seq<char>,
    okuri: Option<Seq<char>>,
    word: Seq<char>,
    pending: Seq<char>,
) -> EngineModel {
    EngineModel {
        composition: CompositionModel::Registration {
            reading,
            okuri,
            word,
            pending_roman: pending,
        },
        pending,
        ..m
    }
}

/// The state in which nothing is composed, with what is pending.
pub open spec fn direct_state(m: EngineModel, pending: Seq<char>) -> EngineModel {
    EngineModel {
        composition: CompositionModel::Direct,
        pending,
        okuri_prefix: None,
        ..m
    }
}

/// What follows when `asked` is looked up for a reading and its okurigana: the
/// first candidate is shown and all are offered, or where there is none a word
/// can be registered.
pub open spec fn lookup_result(
    m: EngineModel,
    reading: Seq<char>,
    okuri: Option<Seq<char>>,
    asked: Seq<char>,
) -> (EngineModel, ResponseModel) {
    let candidates = model::found(m, asked);
    let base = EngineModel { pending: Seq::empty(), last_lookup_key: Some(asked), ..m };
    if candidates.len() > 0 {
        (
            EngineModel {
                composition: CompositionModel::Conversion {
                    reading,
                    okuri,
                    candidates,
                    selected: 0,
                },
                ..base
            },
            offer(seq!['▼'] + candidates[0].word + kana_of(okuri), candidates),
        )
    } else {
        (word_state(base, reading, okuri, Seq::empty(), Seq::empty()), update(mark(reading)))
    }
}

proof fn lemma_n(pending: Seq<char>)
    ensures
        n_kana(pending) == romaji::flushed(pending),
{
    if pending.len() == 1 && pending[0] == 'n' {
        assert(pending =~= seq!['n']);
    }
}

proof fn lemma_typed(mode: InputMode, s: Seq<char>)
    ensures
        as_typed(mode, s) == model::kana_in(mode, s),
        in_katakana(s) == model::katakana(s),
{
    assert(in_katakana(s) =~= model::katakana(s));
}

proof fn lemma_empty(s: Seq<char>)
    ensures
        s.len() == 0 ==> s == Seq::<char>::empty(),
        s + Seq::empty() == s,
        Seq::empty() + s == s,
{
    assert(s.len() == 0 ==> s =~= Seq::empty());
    assert(s + Seq::empty() =~= s);
    assert(Seq::empty() + s =~= s);
}

// ---- Text goes straight to the application ----

/// With nothing composed, Backspace and Ctrl-H take back one pending letter, and
/// go to the application where none is pending.
#[verifier::rlimit(40)]
pub proof fn law_direct_backspace(m: EngineModel, key: KeyEvent)
    requires
        is_plain(m),
        m.composition is Direct,
        key.key == Key::Backspace || is_ctrl(key, 'h'),
    ensures
        m.pending.len() > 0 ==> model::step(m, key) == (
            EngineModel { pending: m.pending.drop_last(), ..m },
            update(m.pending.drop_last()),
        ),
        m.pending.len() == 0 ==> model::step(m, key) == (m, ResponseModel::PassThrough),
{
}

/// What a key that ends pending romaji answers: it inserts the ん of a lone `n`
/// as the mode writes it, or takes other romaji off the screen, or does nothing
/// where none is pending.
pub open spec fn ended_answer(m: EngineModel) -> ResponseModel {
    if n_kana(m.pending).len() > 0 {
        ResponseModel::Commit(as_typed(m.mode, n_kana(m.pending)))
    } else if m.pending.len() > 0 {
        update(Seq::empty())
    } else {
        ResponseModel::Consumed
    }
}

/// With nothing composed, Ctrl-J, Enter and the keys for another mode end
/// pending romaji: a lone `n` is inserted as the kana of the mode that was on,
/// nothing stays pending, and the mode is the one that the key stands for.
/// Enter goes to the application where nothing is pending.
#[verifier::rlimit(40)]
pub proof fn law_direct_end(m: EngineModel, key: KeyEvent)
    requires
        is_plain(m),
        m.composition is Direct,
    ensures
        is_ctrl(key, 'j') ==> model::step(m, key) == (
            EngineModel { pending: Seq::empty(), ..m },
            ended_answer(m),
        ),
        key.key == Key::Enter && !key.ctrl ==> model::step(m, key) == if m.pending.len() == 0 {
            (m, ResponseModel::PassThrough)
        } else {
            (EngineModel { pending: Seq::empty(), ..m }, ended_answer(m))
        },
        key.key == Key::Char(m.config.enter_ascii) && !key.shift && !key.ctrl ==> model::step(
            m,
            key,
        ) == (
            EngineModel { pending: Seq::empty(), mode: InputMode::Ascii, ..m },
            ended_answer(m),
        ),
        key.key == Key::Char(m.config.enter_zenkaku) && key.shift && !key.ctrl ==> model::step(
            m,
            key,
        ) == (
            EngineModel { pending: Seq::empty(), mode: InputMode::ZenkakuAscii, ..m },
            ended_answer(m),
        ),
        key.key == Key::Char(m.config.toggle_kana) && m.config.toggle_kana != m.config.enter_ascii
            && !key.shift && !key.ctrl ==> model::step(m, key) == (
            EngineModel {
                pending: Seq::empty(),
                mode: if m.mode == InputMode::Hiragana {
                    InputMode::Katakana
                } else {
                    InputMode::Hiragana
                },
                ..m
            },
            ended_answer(m),
        ),
{
    lemma_n(m.pending);
    lemma_typed(m.mode, n_kana(m.pending));
    lemma_empty(m.pending);
}

/// With nothing composed, a letter with Shift inserts the ん of a pending `n` as
/// the mode writes it, and starts a reading with that letter alone.
#[verifier::rlimit(40)]
pub proof fn law_direct_capital(m: EngineModel, key: KeyEvent)
    requires
        is_plain(m),
        m.composition is Direct,
        is_capital(key),
        !key.ctrl,
        key.key != Key::Char(m.config.enter_zenkaku),
    ensures
        ({
            let (kana, rest) = romaji::fed(m.rules, Seq::empty(), small(key.key->Char_0));
            let (next, r) = model::step(m, key);
            &&& next == reading_state(m, kana, rest)
            &&& r == if m.pending == seq!['n'] {
                ResponseModel::Commit(
                    if m.mode == InputMode::Katakana {
                        seq!['ン']
                    } else {
                        seq!['ん']
                    },
                )
            } else {
                update(seq!['▽'] + kana + rest)
            }
        }),
{
    lemma_n(m.pending);
    lemma_typed(m.mode, n_kana(m.pending));
    assert(in_katakana(seq!['ん']) =~= seq!['ン']);
}

/// With nothing composed, a small letter goes to the romaji: kana that it
/// completes is inserted as the mode writes it, and the rest is pending.
#[verifier::rlimit(40)]
pub proof fn law_direct_letter(m: EngineModel, key: KeyEvent)
    requires
        is_plain(m),
        m.composition is Direct,
        !key.ctrl,
        key.key matches Key::Char(ch) && 'a' <= ch <= 'z' && !(ch == m.config.enter_zenkaku
            && key.shift) && !((ch == m.config.enter_ascii || ch == m.config.toggle_kana)
            && !key.shift),
    ensures
        ({
            let (kana, rest) = romaji::fed(m.rules, m.pending, key.key->Char_0);
            model::step(m, key) == (
                EngineModel { pending: rest, ..m },
                if kana.len() > 0 {
                    ResponseModel::Commit(as_typed(m.mode, kana))
                } else {
                    update(rest)
                },
            )
        }),
{
    let (kana, rest) = romaji::fed(m.rules, m.pending, key.key->Char_0);
    lemma_typed(m.mode, kana);
}

/// With nothing composed, any other key goes to the application and changes
/// nothing; only Ctrl-G is used up.
#[verifier::rlimit(40)]
pub proof fn law_direct_other(m: EngineModel, key: KeyEvent)
    requires
        is_plain(m),
        m.composition is Direct,
        !is_switch(key),
        key.key != Key::Backspace,
        key.key == Key::Enter ==> key.ctrl,
        key.ctrl ==> key.key != Key::Char('j') && key.key != Key::Char('h'),
        !key.ctrl ==> (key.key matches Key::Char(ch) ==> !('a' <= ch <= 'z') && !is_capital(key)
            && !(ch == m.config.enter_zenkaku && key.shift) && !((ch == m.config.enter_ascii
            || ch == m.config.toggle_kana) && !key.shift)),
    ensures
        model::step(m, key) == (
            m,
            if is_ctrl(key, 'g') {
                ResponseModel::Consumed
            } else {
                ResponseModel::PassThrough
            },
        ),
{
}

// ---- A reading is typed ----

/// Backspace and Ctrl-H take the last pending letter off a reading, then the
/// last kana, and with the last one the reading ends.
#[verifier::rlimit(40)]
pub proof fn law_reading_backspace(m: EngineModel, key: KeyEvent, reading: Seq<char>)
    requires
        is_plain(m),
        m.composition == (CompositionModel::PreComposition { reading, pending_roman: m.pending }),
        key.key == Key::Backspace || is_ctrl(key, 'h'),
    ensures
        model::step(m, key) == if m.pending.len() > 0 {
            let left = m.pending.drop_last();
            (reading_state(m, reading, left), update(seq!['▽'] + reading + left))
        } else if reading.len() > 1 {
            (
                reading_state(m, reading.drop_last(), Seq::empty()),
                update(seq!['▽'] + reading.drop_last()),
            )
        } else {
            (direct_state(m, Seq::empty()), update(Seq::empty()))
        },
{
    lemma_empty(m.pending);
    lemma_empty(seq!['▽'] + reading.drop_last());
}

/// Enter and Ctrl-J insert the reading, with a pending `n` as ん, in hiragana,
/// and the key for katakana inserts it in katakana. Ctrl-G and Escape insert
/// nothing. The reading ends with each of them.
#[verifier::rlimit(40)]
pub proof fn law_reading_end(m: EngineModel, key: KeyEvent, reading: Seq<char>)
    requires
        is_plain(m),
        m.composition == (CompositionModel::PreComposition { reading, pending_roman: m.pending }),
    ensures
        ({
            let all = reading + n_kana(m.pending);
            let (next, r) = model::step(m, key);
            &&& key.key == Key::Enter || is_ctrl(key, 'j') ==> {
                &&& next == direct_state(m, Seq::empty())
                &&& r == if all.len() > 0 {
                    ResponseModel::Commit(all)
                } else {
                    update(Seq::empty())
                }
            }
            &&& key.key == Key::Char(m.config.toggle_kana) && !key.ctrl && !key.shift ==> {
                &&& next == direct_state(m, Seq::empty())
                &&& r == if all.len() > 0 {
                    ResponseModel::Commit(in_katakana(all))
                } else {
                    update(Seq::empty())
                }
            }
            &&& key.key == Key::Escape || is_ctrl(key, 'g') ==> (next, r) == (
                direct_state(m, Seq::empty()),
                update(Seq::empty()),
            )
        }),
{
    lemma_n(m.pending);
    lemma_typed(m.mode, reading + n_kana(m.pending));
}

/// Space looks up the reading with a pending `n` as ん. Where that is empty
/// there is nothing to look up: only what is pending is dropped.
#[verifier::rlimit(40)]
pub proof fn law_reading_space(m: EngineModel, key: KeyEvent, reading: Seq<char>)
    requires
        is_plain(m),
        m.composition == (CompositionModel::PreComposition { reading, pending_roman: m.pending }),
        key.key == Key::Space,
        !key.ctrl,
    ensures
        ({
            let all = reading + n_kana(m.pending);
            model::step(m, key) == if all.len() == 0 {
                (reading_state(m, all, Seq::empty()), ResponseModel::Consumed)
            } else {
                lookup_result(m, all, None, all)
            }
        }),
{
    let all = reading + n_kana(m.pending);
    lemma_n(m.pending);
    let asked = EngineModel {
        last_lookup_key: Some(all),
        ..reading_state(m, all, Seq::empty())
    };
    laws::lemma_found_same(asked, m, all, m.dicts.len() as int);
    lemma_first_shown(model::found(m, all), None, all);
}

proof fn lemma_first_shown(candidates: Seq<EntryModel>, okuri: Option<Seq<char>>, reading: Seq<char>)
    ensures
        model::words(candidates) == Seq::new(candidates.len(), |i: int| candidates[i].word),
        model::or_empty(okuri) == kana_of(okuri),
        Seq::<char>::empty() + Seq::empty() + model::register_mark(reading) == mark(reading),
{
    assert(Seq::<char>::empty() + Seq::empty() + model::register_mark(reading) =~= mark(reading));
}

/// A letter with Shift starts the okurigana: a pending `n` becomes ん of the
/// reading first, and nothing of the reading is lost. The letter alone starts
/// the okurigana. Where it is kana at once, the reading with that letter behind
/// it is looked up; otherwise the letter waits for the rest of its kana.
#[verifier::rlimit(40)]
pub proof fn law_okuri_start(m: EngineModel, key: KeyEvent, reading: Seq<char>)
    requires
        is_plain(m),
        m.composition == (CompositionModel::PreComposition { reading, pending_roman: m.pending }),
        is_capital(key),
    ensures
        ({
            let ch = small(key.key->Char_0);
            let all = if m.pending == seq!['n'] {
                reading + seq!['ん']
            } else {
                reading
            };
            let (kana, rest) = romaji::fed(m.rules, Seq::empty(), ch);
            let marked = EngineModel { okuri_prefix: Some(seq![ch]), ..m };
            model::step(m, key) == if kana.len() == 0 {
                (reading_state(marked, all, rest), update(seq!['▽'] + all + rest))
            } else {
                lookup_result(
                    EngineModel { okuri_prefix: None, ..m },
                    all,
                    Some(kana),
                    all.push(ch),
                )
            }
        }),
{
    lemma_n(m.pending);
    lemma_empty(reading);
    let ch = small(key.key->Char_0);
    let all = reading + n_kana(m.pending);
    let (kana, rest) = romaji::fed(m.rules, Seq::empty(), ch);
    assert(all + seq![ch] =~= all.push(ch));
    let asked = EngineModel {
        pending: Seq::empty(),
        okuri_prefix: None,
        last_lookup_key: Some(all.push(ch)),
        composition: CompositionModel::PreComposition { reading: all, pending_roman: rest },
        ..m
    };
    laws::lemma_found_same(asked, m, all.push(ch), m.dicts.len() as int);
    laws::lemma_found_same(
        EngineModel { okuri_prefix: None, ..m },
        m,
        all.push(ch),
        m.dicts.len() as int,
    );
    lemma_first_shown(model::found(m, all.push(ch)), Some(kana), all);
}

/// A small letter goes to the romaji of the reading: kana that it completes goes
/// behind the reading. Where the okurigana has started, kana that it completes
/// is the okurigana, and the reading with the letter that started it is looked
/// up.
#[verifier::rlimit(40)]
pub proof fn law_reading_letter(m: EngineModel, key: KeyEvent, reading: Seq<char>)
    requires
        is_plain(m),
        m.composition == (CompositionModel::PreComposition { reading, pending_roman: m.pending }),
        !key.ctrl,
        key.key matches Key::Char(ch) && 'a' <= ch <= 'z' && !(ch == m.config.toggle_kana
            && !key.shift),
    ensures
        ({
            let (kana, rest) = romaji::fed(m.rules, m.pending, key.key->Char_0);
            model::step(m, key) == if m.okuri_prefix is Some && kana.len() > 0 {
                lookup_result(
                    EngineModel { okuri_prefix: None, ..m },
                    reading,
                    Some(kana),
                    reading + m.okuri_prefix->0,
                )
            } else {
                (
                    reading_state(m, reading + kana, rest),
                    update(seq!['▽'] + reading + kana + rest),
                )
            }
        }),
{
    let (kana, rest) = romaji::fed(m.rules, m.pending, key.key->Char_0);
    assert(seq!['▽'] + (reading + kana) + rest =~= seq!['▽'] + reading + kana + rest);
    if m.okuri_prefix is Some {
        let asked = reading + m.okuri_prefix->0;
        let base = EngineModel {
            pending: Seq::empty(),
            okuri_prefix: None,
            last_lookup_key: Some(asked),
            ..m
        };
        laws::lemma_found_same(base, m, asked, m.dicts.len() as int);
        laws::lemma_found_same(
            EngineModel { okuri_prefix: None, ..m },
            m,
            asked,
            m.dicts.len() as int,
        );
        lemma_first_shown(model::found(m, asked), Some(kana), reading);
    }
}

/// Any other key goes to the application and leaves the reading as it is.
#[verifier::rlimit(40)]
pub proof fn law_reading_other(m: EngineModel, key: KeyEvent, reading: Seq<char>)
    requires
        is_plain(m),
        m.composition == (CompositionModel::PreComposition { reading, pending_roman: m.pending }),
        !is_switch(key),
        key.key == Key::Tab || (key.key matches Key::Char(ch) && !is_capital(key) && if key.ctrl {
            ch != 'j' && ch != 'g' && ch != 'h'
        } else {
            !('a' <= ch <= 'z') && !(ch == m.config.toggle_kana && !key.shift)
        }),
    ensures
        model::step(m, key) == (m, ResponseModel::PassThrough),
{
}

// ---- A candidate is chosen ----

/// The state in which a candidate is chosen.
pub open spec fn choice_state(
    m: EngineModel,
    reading: Seq<char>,
    okuri: Option<Seq<char>>,
    candidates: Seq<EntryModel>,
    selected: int,
) -> EngineModel {
    EngineModel {
        composition: CompositionModel::Conversion { reading, okuri, candidates, selected },
        ..m
    }
}

/// Space shows the next candidate. From the last one it starts a registration
/// with an empty word, for the same reading, the same okurigana and under what
/// was looked up.
#[verifier::rlimit(40)]
pub proof fn law_choice_space(
    m: EngineModel,
    key: KeyEvent,
    reading: Seq<char>,
    okuri: Option<Seq<char>>,
    candidates: Seq<EntryModel>,
    selected: int,
)
    requires
        is_plain(m),
        m.composition == (CompositionModel::Conversion { reading, okuri, candidates, selected }),
        key.key == Key::Space,
        !key.ctrl,
    ensures
        model::step(m, key) == if selected + 1 < candidates.len() {
            (
                choice_state(m, reading, okuri, candidates, selected + 1),
                offer(seq!['▼'] + candidates[selected + 1].word + kana_of(okuri), candidates),
            )
        } else {
            (word_state(m, reading, okuri, Seq::empty(), Seq::empty()), update(mark(reading)))
        },
        model::step(m, key).0.last_lookup_key == m.last_lookup_key,
{
    lemma_empty(m.pending);
    lemma_first_shown(candidates, okuri, reading);
}

/// The key for the candidate before shows it, and from the first one leads back
/// to the reading.
#[verifier::rlimit(40)]
pub proof fn law_choice_previous(
    m: EngineModel,
    key: KeyEvent,
    reading: Seq<char>,
    okuri: Option<Seq<char>>,
    candidates: Seq<EntryModel>,
    selected: int,
)
    requires
        is_plain(m),
        m.composition == (CompositionModel::Conversion { reading, okuri, candidates, selected }),
        key.key == Key::Char(m.config.prev_candidate),
        !key.ctrl,
        !key.shift,
    ensures
        model::step(m, key) == if selected > 0 {
            (
                choice_state(m, reading, okuri, candidates, selected - 1),
                offer(seq!['▼'] + candidates[selected - 1].word + kana_of(okuri), candidates),
            )
        } else {
            (reading_state(m, reading, Seq::empty()), update(seq!['▽'] + reading))
        },
{
    lemma_empty(m.pending);
    lemma_empty(seq!['▽'] + reading);
    lemma_first_shown(candidates, okuri, reading);
}

/// Enter and Ctrl-J insert the candidate that is shown, with the okurigana.
/// Ctrl-G and Escape lead back to the reading without it.
#[verifier::rlimit(40)]
pub proof fn law_choice_end(
    m: EngineModel,
    key: KeyEvent,
    reading: Seq<char>,
    okuri: Option<Seq<char>>,
    candidates: Seq<EntryModel>,
    selected: int,
)
    requires
        is_plain(m),
        m.composition == (CompositionModel::Conversion { reading, okuri, candidates, selected }),
    ensures
        ({
            let chosen = candidates[selected].word + kana_of(okuri);
            &&& key.key == Key::Enter || is_ctrl(key, 'j') ==> model::step(m, key) == (
                direct_state(m, Seq::empty()),
                if chosen.len() > 0 {
                    ResponseModel::Commit(chosen)
                } else {
                    update(Seq::empty())
                },
            )
            &&& key.key == Key::Escape || is_ctrl(key, 'g') ==> model::step(m, key) == (
                EngineModel { okuri_prefix: None, ..reading_state(m, reading, Seq::empty()) },
                update(seq!['▽'] + reading),
            )
        }),
{
    lemma_empty(m.pending);
    lemma_empty(seq!['▽'] + reading);
    lemma_first_shown(candidates, okuri, reading);
}

/// A digit inserts the candidate with that number on the page of nine that is
/// shown, with the okurigana; a number that the page does not have is used up.
#[verifier::rlimit(40)]
pub proof fn law_choice_digit(
    m: EngineModel,
    key: KeyEvent,
    reading: Seq<char>,
    okuri: Option<Seq<char>>,
    candidates: Seq<EntryModel>,
    selected: int,
    number: int,
)
    requires
        is_plain(m),
        m.composition == (CompositionModel::Conversion { reading, okuri, candidates, selected }),
        1 <= number <= 9,
        key.key matches Key::Char(ch) && ch as int == 0x30 + number && !(ch
            == m.config.prev_candidate && !key.shift),
        !key.ctrl,
    ensures
        ({
            let at = selected - selected % 9 + number - 1;
            model::step(m, key) == if at < candidates.len() {
                (
                    direct_state(m, Seq::empty()),
                    ResponseModel::Commit(candidates[at].word + kana_of(okuri)),
                )
            } else {
                (m, ResponseModel::Consumed)
            }
        }),
{
    lemma_empty(m.pending);
    lemma_first_shown(candidates, okuri, reading);
}

/// A letter with Shift inserts the candidate that is shown, with the okurigana,
/// and starts a reading with that letter alone.
#[verifier::rlimit(40)]
pub proof fn law_choice_capital(
    m: EngineModel,
    key: KeyEvent,
    reading: Seq<char>,
    okuri: Option<Seq<char>>,
    candidates: Seq<EntryModel>,
    selected: int,
)
    requires
        is_plain(m),
        m.composition == (CompositionModel::Conversion { reading, okuri, candidates, selected }),
        is_capital(key),
    ensures
        ({
            let chosen = candidates[selected].word + kana_of(okuri);
            let (kana, rest) = romaji::fed(m.rules, Seq::empty(), small(key.key->Char_0));
            model::step(m, key) == (
                EngineModel { okuri_prefix: None, ..reading_state(m, kana, rest) },
                if chosen.len() > 0 {
                    ResponseModel::Commit(chosen)
                } else {
                    update(seq!['▽'] + kana + rest)
                },
            )
        }),
{
    lemma_empty(m.pending);
    lemma_first_shown(candidates, okuri, reading);
}

/// A small letter inserts the candidate that is shown, with the okurigana, and
/// goes to the romaji: kana that it completes is inserted behind the candidate.
#[verifier::rlimit(40)]
pub proof fn law_choice_letter(
    m: EngineModel,
    key: KeyEvent,
    reading: Seq<char>,
    okuri: Option<Seq<char>>,
    candidates: Seq<EntryModel>,
    selected: int,
)
    requires
        is_plain(m),
        m.composition == (CompositionModel::Conversion { reading, okuri, candidates, selected }),
        !key.ctrl,
        key.key matches Key::Char(ch) && 'a' <= ch <= 'z' && !(ch == m.config.prev_candidate
            && !key.shift),
    ensures
        ({
            let chosen = candidates[selected].word + kana_of(okuri);
            let (kana, rest) = romaji::fed(m.rules, Seq::empty(), key.key->Char_0);
            let all = chosen + as_typed(m.mode, kana);
            model::step(m, key) == (
                direct_state(m, rest),
                if all.len() > 0 {
                    ResponseModel::Commit(all)
                } else {
                    update(rest)
                },
            )
        }),
{
    lemma_empty(m.pending);
    lemma_first_shown(candidates, okuri, reading);
    lemma_typed(m.mode, romaji::fed(m.rules, Seq::empty(), key.key->Char_0).0);
}

/// Any other key goes to the application and leaves the candidates as they are.
#[verifier::rlimit(40)]
pub proof fn law_choice_other(m: EngineModel, key: KeyEvent)
    requires
        is_plain(m),
        m.composition is Conversion,
        !is_switch(key),
        key.key == Key::Tab || key.key == Key::Backspace || (key.key matches Key::Char(ch)
            && !is_capital(key) && if key.ctrl {
            ch != 'j' && ch != 'g'
        } else {
            !('a' <= ch <= 'z') && !('1' <= ch <= '9') && !(ch == m.config.prev_candidate
                && !key.shift)
        }),
    ensures
        model::step(m, key) == (m, ResponseModel::PassThrough),
{
}

// ---- A word is registered ----

/// What a registration shows.
pub open spec fn word_answer(word: Seq<char>, pending: Seq<char>, reading: Seq<char>) -> ResponseModel {
    update(word + pending + mark(reading))
}

/// Enter, and Ctrl-J where letters are not taken as they are, register the word,
/// with a pending `n` as ん, first under what was looked up, and insert it with
/// the okurigana. Without a word they do what Ctrl-G and Escape do, which lead
/// back to the reading and register nothing.
#[verifier::rlimit(40)]
pub proof fn law_word_end(
    m: EngineModel,
    key: KeyEvent,
    reading: Seq<char>,
    okuri: Option<Seq<char>>,
    word: Seq<char>,
)
    requires
        is_plain(m),
        m.composition == (CompositionModel::Registration {
            reading,
            okuri,
            word,
            pending_roman: m.pending,
        }),
    ensures
        ({
            let all = word + n_kana(m.pending);
            let back = (
                EngineModel {
                    okuri_prefix: None,
                    sub_mode: None,
                    ..reading_state(m, reading, Seq::empty())
                },
                update(seq!['▽'] + reading),
            );
            let (next, r) = model::step(m, key);
            &&& key.key == Key::Enter || (is_ctrl(key, 'j') && m.sub_mode is None) ==> if all.len()
                == 0 {
                (next, r) == back
            } else {
                &&& r == ResponseModel::Commit(all + kana_of(okuri))
                &&& next == (EngineModel {
                    last_lookup_key: None,
                    sub_mode: None,
                    user_dict: match m.user_dict {
                        Some(d) => Some(
                            skk_format::with_entry(
                                d,
                                m.last_lookup_key->0,
                                EntryModel { word: all, annotation: None },
                            ),
                        ),
                        None => None,
                    },
                    save_due: m.save_due || (m.user_dict is Some && m.file is Some),
                    ..direct_state(m, Seq::empty())
                })
            }
            &&& key.key == Key::Escape || is_ctrl(key, 'g') ==> (next, r) == back
        }),
{
    lemma_n(m.pending);
    lemma_empty(seq!['▽'] + reading);
    lemma_first_shown(Seq::empty(), okuri, reading);
}

/// Backspace and Ctrl-H take back the last pending letter, then the last
/// character of the word; an empty word stays empty.
#[verifier::rlimit(40)]
pub proof fn law_word_backspace(
    m: EngineModel,
    key: KeyEvent,
    reading: Seq<char>,
    okuri: Option<Seq<char>>,
    word: Seq<char>,
)
    requires
        is_plain(m),
        m.composition == (CompositionModel::Registration {
            reading,
            okuri,
            word,
            pending_roman: m.pending,
        }),
        key.key == Key::Backspace || is_ctrl(key, 'h'),
    ensures
        model::step(m, key) == if m.pending.len() > 0 {
            let left = m.pending.drop_last();
            (word_state(m, reading, okuri, word, left), word_answer(word, left, reading))
        } else {
            let left = if word.len() > 0 {
                word.drop_last()
            } else {
                word
            };
            (
                word_state(m, reading, okuri, left, Seq::empty()),
                word_answer(left, Seq::empty(), reading),
            )
        },
{
    lemma_empty(m.pending);
}

/// The keys for ASCII and full-width letters have letters taken as they are from
/// then on; pending romaji is dropped and the word stays.
#[verifier::rlimit(40)]
pub proof fn law_word_literal(
    m: EngineModel,
    key: KeyEvent,
    reading: Seq<char>,
    okuri: Option<Seq<char>>,
    word: Seq<char>,
)
    requires
        is_plain(m),
        m.sub_mode is None,
        m.composition == (CompositionModel::Registration {
            reading,
            okuri,
            word,
            pending_roman: m.pending,
        }),
    ensures
        ({
            let literal = word_state(m, reading, okuri, word, Seq::empty());
            let r = word_answer(word, Seq::empty(), reading);
            &&& key.key == Key::Char(m.config.enter_ascii) && !key.shift && !key.ctrl
                ==> model::step(m, key) == (
                EngineModel { sub_mode: Some(InputMode::Ascii), ..literal },
                r,
            )
            &&& key.key == Key::Char(m.config.enter_zenkaku) && key.shift && !is_ctrl(key, 'j')
                && !is_ctrl(key, 'g') && !is_ctrl(key, 'h') && !is_switch(key) ==> model::step(m, key)
                == (EngineModel { sub_mode: Some(InputMode::ZenkakuAscii), ..literal }, r)
        }),
{
}

/// Where letters are taken as they are, a character or a Space goes behind the
/// word, in its full-width form where that is wanted; Ctrl-J goes back to
/// romaji with the word as it is; other keys are used up.
#[verifier::rlimit(40)]
pub proof fn law_word_as_is(
    m: EngineModel,
    key: KeyEvent,
    reading: Seq<char>,
    okuri: Option<Seq<char>>,
    word: Seq<char>,
    mode: InputMode,
)
    requires
        is_plain(m),
        m.sub_mode == Some(mode),
        m.composition == (CompositionModel::Registration {
            reading,
            okuri,
            word,
            pending_roman: m.pending,
        }),
        !is_switch(key),
    ensures
        ({
            let wide = mode == InputMode::ZenkakuAscii;
            let (next, r) = model::step(m, key);
            &&& is_ctrl(key, 'j') ==> (next, r) == (
                EngineModel { sub_mode: None, ..m },
                word_answer(word, Seq::empty(), reading),
            )
            &&& !key.ctrl ==> (key.key matches Key::Char(ch) ==> {
                let c = if wide && '!' <= ch <= '~' {
                    (ch as u32 + 0xFEE0) as char
                } else {
                    ch
                };
                (next, r) == (
                    word_state(m, reading, okuri, word.push(c), Seq::empty()),
                    word_answer(word.push(c), Seq::empty(), reading),
                )
            })
            &&& key.key == Key::Space ==> {
                let c = if wide {
                    '\u{3000}'
                } else {
                    ' '
                };
                (next, r) == (
                    word_state(m, reading, okuri, word.push(c), Seq::empty()),
                    word_answer(word.push(c), Seq::empty(), reading),
                )
            }
            &&& key.key == Key::Tab || (key.ctrl && (key.key matches Key::Char(ch) && ch != 'j' && ch
                != 'g' && ch != 'h')) ==> (next, r) == (m, ResponseModel::Consumed)
        }),
{
    lemma_empty(m.pending);
    assert('!' as u32 == 0x21 && '~' as u32 == 0x7E);
}

/// A letter with Shift starts a conversion within the registration, which waits
/// with its word, a pending `n` as ん behind it. The reading starts with that
/// letter alone.
#[verifier::rlimit(40)]
pub proof fn law_word_capital(
    m: EngineModel,
    key: KeyEvent,
    reading: Seq<char>,
    okuri: Option<Seq<char>>,
    word: Seq<char>,
)
    requires
        is_plain(m),
        m.sub_mode is None,
        m.composition == (CompositionModel::Registration {
            reading,
            okuri,
            word,
            pending_roman: m.pending,
        }),
        is_capital(key),
        key.key != Key::Char(m.config.enter_zenkaku),
    ensures
        ({
            let all = word + n_kana(m.pending);
            let (kana, rest) = romaji::fed(m.rules, Seq::empty(), small(key.key->Char_0));
            model::step(m, key) == (
                EngineModel {
                    saved: Some(
                        SavedModel {
                            reading,
                            okuri,
                            word: all,
                            last_lookup_key: m.last_lookup_key,
                        },
                    ),
                    last_lookup_key: None,
                    ..reading_state(m, kana, rest)
                },
                update(all + seq!['▽'] + kana + rest + mark(reading)),
            )
        }),
{
    lemma_n(m.pending);
    let all = word + n_kana(m.pending);
    let (kana, rest) = romaji::fed(m.rules, Seq::empty(), small(key.key->Char_0));
    assert(all + (seq!['▽'] + kana + rest) + mark(reading) =~= all + seq!['▽'] + kana + rest + mark(
        reading,
    ));
}

/// Any other character goes to the romaji of the word: kana that it completes
/// goes behind the word. A character that no romaji has goes behind the word
/// itself, and what was pending is dropped.
#[verifier::rlimit(40)]
pub proof fn law_word_letter(
    m: EngineModel,
    key: KeyEvent,
    reading: Seq<char>,
    okuri: Option<Seq<char>>,
    word: Seq<char>,
)
    requires
        is_plain(m),
        m.sub_mode is None,
        m.composition == (CompositionModel::Registration {
            reading,
            okuri,
            word,
            pending_roman: m.pending,
        }),
        !key.ctrl,
        !is_capital(key),
        key.key matches Key::Char(ch) && !(ch == m.config.enter_ascii && !key.shift) && !(ch
            == m.config.enter_zenkaku && key.shift),
    ensures
        ({
            let ch = key.key->Char_0;
            let (kana, rest) = romaji::fed(m.rules, m.pending, ch);
            let longer = if kana.len() == 0 && rest.len() == 0 {
                word.push(ch)
            } else {
                word + kana
            };
            model::step(m, key) == (
                word_state(m, reading, okuri, longer, rest),
                word_answer(longer, rest, reading),
            )
        }),
{
}

/// Any other key is used up and leaves the registration as it is.
#[verifier::rlimit(40)]
pub proof fn law_word_other(m: EngineModel, key: KeyEvent)
    requires
        is_plain(m),
        m.sub_mode is None,
        m.composition is Registration,
        !is_switch(key),
        key.key == Key::Tab || key.key == Key::Space || (key.ctrl && !is_capital(key) && (
        key.key matches Key::Char(ch) && ch != 'j' && ch != 'g' && ch != 'h' && !(ch
            == m.config.enter_zenkaku && key.shift))),
    ensures
        model::step(m, key) == (m, ResponseModel::Consumed),
{
}

// ---- A conversion within a registration ----

/// Whether a key does within a registration that waits what it does without it,
/// but for what is inserted and where the conversion ends.
pub open spec fn goes_as_alone(m: EngineModel, key: KeyEvent, s: SavedModel) -> bool {
    let (b, rb) = model::step(EngineModel { saved: None, ..m }, key);
    let (next, r) = model::step(m, key);
    let word = match rb {
        ResponseModel::Commit(t) => s.word + t,
        _ => s.word,
    };
    // Nothing goes to the application.
    &&& !(r is Commit)
    &&& match b.composition {
        // The conversion ended: the registration goes on with the word.
        CompositionModel::Direct => {
            &&& next == (EngineModel {
                last_lookup_key: s.last_lookup_key,
                ..word_state(b, s.reading, s.okuri, word, b.pending)
            })
            &&& r == word_answer(word, b.pending, s.reading)
        },
        // No registration starts within another one.
        CompositionModel::Registration { reading, .. } => if m.composition is Conversion {
            next == m
        } else {
            next == (EngineModel { saved: Some(s), ..reading_state(b, reading, Seq::empty()) })
        },
        // The conversion goes on: the registration waits with the word.
        _ => next == (EngineModel { saved: Some(SavedModel { word, ..s }), ..b }),
    }
}

#[verifier::rlimit(40)]
proof fn lemma_nested_lookup(m: EngineModel, key: KeyEvent, s: SavedModel)
    requires
        laws::inv(m),
        m.saved == Some(s),
        !is_switch(key),
        m.composition is PreComposition,
        key.key == Key::Space || is_capital(key),
    ensures
        goes_as_alone(m, key, s),
{
    let reading = m.composition->PreComposition_reading;
    let alone = EngineModel { saved: None, ..m };
    let all = reading + romaji::flushed(m.pending);
    if key.key == Key::Space {
        let base = EngineModel {
            last_lookup_key: Some(all),
            ..reading_state(m, all, Seq::empty())
        };
        laws::lemma_found_same(
            base,
            EngineModel { saved: None, ..base },
            all,
            m.dicts.len() as int,
        );
        assert(model::kana_step(m, key) == model::conversion_started(m, reading));
        assert(model::kana_step(alone, key) == model::conversion_started(alone, reading));
    } else {
        let ch = text::lower(key.key->Char_0);
        let rest = romaji::fed(m.rules, Seq::empty(), ch).1;
        let asked = all + seq![ch];
        let base = EngineModel {
            pending: Seq::empty(),
            okuri_prefix: None,
            last_lookup_key: Some(asked),
            composition: CompositionModel::PreComposition { reading: all, pending_roman: rest },
            ..m
        };
        laws::lemma_found_same(
            base,
            EngineModel { saved: None, ..base },
            asked,
            m.dicts.len() as int,
        );
        assert(model::kana_step(m, key) == model::okuri_started(m, reading, ch));
        assert(model::kana_step(alone, key) == model::okuri_started(alone, reading, ch));
    }
}

#[verifier::rlimit(40)]
proof fn lemma_nested_fed(m: EngineModel, key: KeyEvent, s: SavedModel, reading: Seq<char>, ch: char)
    requires
        laws::inv(m),
        m.saved == Some(s),
        m.composition == (CompositionModel::PreComposition { reading, pending_roman: m.pending }),
        model::kana_step(m, key) == model::reading_fed(m, reading, ch),
        model::kana_step(EngineModel { saved: None, ..m }, key) == model::reading_fed(
            EngineModel { saved: None, ..m },
            reading,
            ch,
        ),
        model::ime_control(m, key) is None,
    ensures
        goes_as_alone(m, key, s),
{
    if m.okuri_prefix is Some {
        let asked = reading + m.okuri_prefix->0;
        let base = EngineModel {
            pending: Seq::empty(),
            okuri_prefix: None,
            last_lookup_key: Some(asked),
            ..m
        };
        laws::lemma_found_same(
            base,
            EngineModel { saved: None, ..base },
            asked,
            m.dicts.len() as int,
        );
    }
}

#[verifier::rlimit(40)]
proof fn lemma_nested_pre(m: EngineModel, key: KeyEvent, s: SavedModel)
    requires
        laws::inv(m),
        m.saved == Some(s),
        !is_switch(key),
        m.composition is PreComposition,
        key.key != Key::Space,
        !is_capital(key),
    ensures
        goes_as_alone(m, key, s),
{
    let reading = m.composition->PreComposition_reading;
    let alone = EngineModel { saved: None, ..m };
    if let Key::Char(ch) = key.key {
        if !key.ctrl && text::is_lower(ch) && !(!key.shift && ch == m.config.toggle_kana) {
            assert(model::kana_step(m, key) == model::reading_fed(m, reading, ch));
            assert(model::kana_step(alone, key) == model::reading_fed(alone, reading, ch));
            lemma_nested_fed(m, key, s, reading, ch);
        }
    }
}

#[verifier::rlimit(40)]
proof fn lemma_nested_choice(m: EngineModel, key: KeyEvent, s: SavedModel)
    requires
        laws::inv(m),
        m.saved == Some(s),
        !is_switch(key),
        m.composition is Conversion,
    ensures
        goes_as_alone(m, key, s),
{
    lemma_empty(m.pending);
}

/// A conversion within a registration goes as it goes by itself, but for what it
/// inserts and where it ends: what it would insert goes behind the word of the
/// registration that waits, and nothing goes to the application. Where it ends,
/// the registration goes on with the word; while it goes on, the registration
/// waits with the word. No registration starts within another one: where one
/// would, the reading or the last candidate stays.
pub proof fn law_nested(m: EngineModel, key: KeyEvent, s: SavedModel)
    requires
        laws::inv(m),
        m.saved == Some(s),
        !is_switch(key),
    ensures
        goes_as_alone(m, key, s),
{
    if m.composition is Conversion {
        lemma_nested_choice(m, key, s);
    } else if key.key == Key::Space || is_capital(key) {
        lemma_nested_lookup(m, key, s);
    } else {
        lemma_nested_pre(m, key, s);
    }
}

/// What a conversion within a registration settles on is never lost: whatever
/// key settles it, the word that is held afterwards is the word before and the
/// text behind it. A letter with Shift on a candidate puts the candidate with
/// its okurigana there and starts the next reading.
pub proof fn law_nested_keeps_text(m: EngineModel, key: KeyEvent, s: SavedModel)
    requires
        laws::inv(m),
        m.saved == Some(s),
        !is_switch(key),
    ensures
        ({
            let alone = model::step(EngineModel { saved: None, ..m }, key).1;
            let (next, r) = model::step(m, key);
            let held = match next.saved {
                Some(w) => w.word,
                None => next.composition->Registration_word,
            };
            &&& next.saved is Some || next.composition is Registration
            &&& held == match alone {
                ResponseModel::Commit(t) => s.word + t,
                _ => s.word,
            }
            &&& is_capital(key) && m.composition is Conversion ==> next.saved is Some && held
                == s.word + (m.composition->Conversion_candidates[m.composition->selected].word
                + kana_of(m.composition->Conversion_okuri))
        }),
{
    law_nested(m, key, s);
    if is_capital(key) && m.composition is Conversion {
        let alone = EngineModel { saved: None, ..m };
        let c = m.composition;
        law_choice_capital(
            alone,
            key,
            c->Conversion_reading,
            c->Conversion_okuri,
            c->Conversion_candidates,
            c->selected,
        );
        lemma_empty(s.word);
    }
}

/// What is shown: pending romaji by itself; ▽ before a reading, with what is
/// pending behind it; ▼ before a candidate, with the okurigana behind it; a word
/// that is registered with what is pending and the mark of its reading behind
/// it. Within a registration that waits, its word stands before all of this and
/// its mark behind it.
pub proof fn law_what_is_shown(m: EngineModel)
    requires
        laws::inv(m),
    ensures
        ({
            let inner = match m.composition {
                CompositionModel::Direct => m.pending,
                CompositionModel::PreComposition { reading, .. } => seq!['▽'] + reading
                    + m.pending,
                CompositionModel::Conversion { okuri, candidates, selected, .. } => seq!['▼']
                    + candidates[selected].word + kana_of(okuri),
                CompositionModel::Registration { reading, word, .. } => word + m.pending + mark(
                    reading,
                ),
            };
            model::shown(m) == match m.saved {
                Some(s) => Some(s.word + inner + mark(s.reading)),
                None => if inner.len() > 0 {
                    Some(inner)
                } else {
                    None
                },
            }
        }),
{
}

// ---- The modes ----

/// Ctrl-Space switches the input method on from ASCII mode and off from any
/// other, Ctrl-; switches it off, and Ctrl-J leads from ASCII, half-width
/// katakana and abbreviations to hiragana. Switching on changes nothing else.
/// Switching off drops all that was typed, inserts nothing, and takes it off the
/// screen.
#[verifier::rlimit(40)]
pub proof fn law_switch(m: EngineModel, key: KeyEvent)
    requires
        laws::inv(m),
    ensures
        ({
            let on = (EngineModel { mode: InputMode::Hiragana, ..m }, ResponseModel::Consumed);
            let off = (
                EngineModel {
                    mode: InputMode::Ascii,
                    last_lookup_key: None,
                    saved: None,
                    sub_mode: None,
                    ..direct_state(m, Seq::empty())
                },
                if m.composition is Direct && m.pending.len() == 0 {
                    ResponseModel::Consumed
                } else {
                    update(Seq::empty())
                },
            );
            &&& key.ctrl && key.key == Key::Space ==> model::step(m, key) == if m.mode
                == InputMode::Ascii {
                on
            } else {
                off
            }
            &&& is_ctrl(key, ';') ==> model::step(m, key) == off
            &&& is_ctrl(key, 'j') && (m.mode == InputMode::Ascii || m.mode
                == InputMode::HankakuKatakana || m.mode == InputMode::Abbrev) ==> model::step(m, key)
                == on
        }),
{
}

/// In ASCII mode, for half-width katakana and for abbreviations every other key
/// goes to the application and changes nothing.
pub proof fn law_no_kana(m: EngineModel, key: KeyEvent)
    requires
        m.mode == InputMode::Ascii || m.mode == InputMode::HankakuKatakana || m.mode
            == InputMode::Abbrev,
        !is_switch(key),
        !is_ctrl(key, 'j'),
    ensures
        model::step(m, key) == (m, ResponseModel::PassThrough),
{
}

/// In full-width mode a printable character is inserted in its full-width form
/// and a Space as a wide one; the keys for ASCII and for kana, and Ctrl-J, lead
/// to the other mode. Nothing else is changed, and other keys go to the
/// application.
#[verifier::rlimit(40)]
pub proof fn law_full_width(m: EngineModel, key: KeyEvent)
    requires
        m.mode == InputMode::ZenkakuAscii,
        !is_switch(key),
    ensures
        model::step(m, key) == if key.ctrl {
            if key.key == Key::Char('j') {
                (EngineModel { mode: InputMode::Hiragana, ..m }, ResponseModel::Consumed)
            } else {
                (m, ResponseModel::PassThrough)
            }
        } else {
            match key.key {
                Key::Char(ch) => if ch == m.config.enter_ascii && !key.shift {
                    (EngineModel { mode: InputMode::Ascii, ..m }, ResponseModel::Consumed)
                } else if ch == m.config.toggle_kana && !key.shift {
                    (EngineModel { mode: InputMode::Hiragana, ..m }, ResponseModel::Consumed)
                } else if '!' <= ch <= '~' {
                    (m, ResponseModel::Commit(seq![(ch as u32 + 0xFEE0) as char]))
                } else if ch as u32 <= 0x1F || 0x7F <= ch as u32 <= 0x9F {
                    (m, ResponseModel::PassThrough)
                } else {
                    (m, ResponseModel::Commit(seq![ch]))
                },
                Key::Space => (m, ResponseModel::Commit(seq!['\u{3000}'])),
                _ => (m, ResponseModel::PassThrough),
            }
        },
{
    assert('!' as u32 == 0x21 && '~' as u32 == 0x7E);
}

/// A new engine has the mode of its settings, nothing typed and no dictionary.
/// Dropping what was typed keeps the settings, the mode and the dictionaries,
/// and leaves nothing typed.
pub proof fn law_start_and_reset(m: EngineModel, config: crate::config::ConfigModel)
    ensures
        ({
            let start = model::initial(config);
            &&& start.config == config
            &&& start.mode == config.initial_mode
            &&& start.rules == romaji::default_rules()
            &&& start.dicts.len() == 0
            &&& start.user_dict is None
            &&& start.file is None
            &&& !start.save_due
            &&& start == model::reset(start)
        }),
        model::reset(m) == (EngineModel {
            last_lookup_key: None,
            saved: None,
            sub_mode: None,
            ..direct_state(m, Seq::empty())
        }),
{
}

// ---- Which candidates there are ----

/// Whether `word` stands first at position `p` of candidates.
pub open spec fn is_first(entries: Seq<EntryModel>, p: int, word: Seq<char>) -> bool {
    &&& 0 <= p < entries.len()
    &&& entries[p].word == word
    &&& forall|k: int| 0 <= k < p ==> (#[trigger] entries[k]).word != word
}

/// Whether `all` is `before` and behind it the candidates of `entries` whose word
/// is not there yet, each as it stands first in `entries` and in their order.
pub open spec fn is_merge(
    before: Seq<EntryModel>,
    entries: Seq<EntryModel>,
    all: Seq<EntryModel>,
) -> bool {
    &&& all.len() >= before.len()
    &&& all.take(before.len() as int) == before
    &&& forall|p: int|
        0 <= p < entries.len() ==> skk_format::has_word(all, (#[trigger] entries[p]).word)
    &&& forall|i: int|
        before.len() <= i < all.len() ==> !skk_format::has_word(before, (#[trigger] all[i]).word)
            && exists|p: int| #[trigger]
            is_first(entries, p, all[i].word) && entries[p] == all[i]
    &&& forall|i: int, j: int, p: int, q: int|
        #![trigger all[i], all[j], is_first(entries, p, all[i].word), is_first(entries, q, all[j].word)]
        before.len() <= i < j < all.len() && is_first(entries, p, all[i].word) && is_first(
            entries,
            q,
            all[j].word,
        ) ==> p < q
}

proof fn lemma_is_merge(before: Seq<EntryModel>, entries: Seq<EntryModel>)
    ensures
        is_merge(before, entries, model::merged(before, entries)),
    decreases entries.len(),
{
    let all = model::merged(before, entries);
    if entries.len() == 0 {
        assert(all.take(before.len() as int) =~= before);
    } else {
        let rest = entries.drop_last();
        let last = entries.last();
        let mid = model::merged(before, rest);
        lemma_is_merge(before, rest);
        let n = before.len() as int;
        assert(all.take(n) =~= mid.take(n));
        assert forall|w: Seq<char>| skk_format::has_word(mid, w) implies #[trigger]
            skk_format::has_word(all, w) by {
            let i = choose|i: int| 0 <= i < mid.len() && (#[trigger] mid[i]).word == w;
            assert(all[i].word == w);
        }
        if !skk_format::has_word(mid, last.word) {
            assert(all[all.len() - 1] == last);
            assert(skk_format::has_word(all, last.word));
        }
        assert forall|p: int| 0 <= p < entries.len() implies skk_format::has_word(
            all,
            (#[trigger] entries[p]).word,
        ) by {
            if p < rest.len() {
                assert(rest[p] == entries[p]);
                assert(skk_format::has_word(mid, rest[p].word));
            }
        }
        assert forall|p: int, w: Seq<char>| is_first(rest, p, w) implies #[trigger] is_first(
            entries,
            p,
            w,
        ) by {
            assert forall|k: int| 0 <= k < p implies (#[trigger] entries[k]).word != w by {
                assert(rest[k] == entries[k]);
            }
            assert(rest[p] == entries[p]);
        }
        assert forall|p: int, q: int, w: Seq<char>|
            #[trigger] is_first(entries, p, w) && #[trigger] is_first(entries, q, w) implies p
            == q by {
            if p < q {
                assert(entries[p].word != w);
            } else if q < p {
                assert(entries[q].word != w);
            }
        }
        assert forall|i: int| n <= i < all.len() implies !skk_format::has_word(
            before,
            (#[trigger] all[i]).word,
        ) && exists|p: int| #[trigger]
            is_first(entries, p, all[i].word) && entries[p] == all[i] && (i < mid.len() ==> p
                < rest.len()) && (i == mid.len() ==> p == rest.len()) by {
            if i < mid.len() {
                assert(all[i] == mid[i]);
                let p = choose|p: int| #[trigger]
                    is_first(rest, p, mid[i].word) && rest[p] == mid[i];
                assert(is_first(entries, p, all[i].word));
                assert(rest[p] == entries[p]);
            } else {
                assert(all[i] == last);
                let p = rest.len() as int;
                assert(entries[p] == last);
                assert forall|k: int| 0 <= k < p implies (#[trigger] entries[k]).word
                    != last.word by {
                    assert(rest[k] == entries[k]);
                    assert(skk_format::has_word(mid, rest[k].word));
                }
                assert(is_first(entries, p, all[i].word));
                if skk_format::has_word(before, last.word) {
                    let k = choose|k: int| 0 <= k < before.len() && (#[trigger] before[k]).word
                        == last.word;
                    assert(mid.take(n)[k] == mid[k]);
                    assert(mid[k].word == last.word);
                }
            }
        }
        assert forall|i: int, j: int, p: int, q: int|
            #![trigger all[i], all[j], is_first(entries, p, all[i].word), is_first(entries, q, all[j].word)]
            n <= i < j < all.len() && is_first(entries, p, all[i].word) && is_first(
                entries,
                q,
                all[j].word,
            ) implies p < q by {
            assert(all[i] == mid[i]);
            let p2 = choose|p: int| #[trigger] is_first(rest, p, mid[i].word) && rest[p] == mid[i];
            assert(is_first(entries, p2, all[i].word));
            assert(p == p2);
            if j < mid.len() {
                assert(all[j] == mid[j]);
                let q2 = choose|q: int| #[trigger]
                    is_first(rest, q, mid[j].word) && rest[q] == mid[j];
                assert(is_first(entries, q2, all[j].word));
                assert(q == q2);
            }
        }
    }
}

/// The candidates of a reading come from the user dictionary first, as they
/// stand there. Another system dictionary adds, behind all that there are, those
/// of its candidates whose word is not there yet, in its own order.
pub proof fn law_candidates(m: EngineModel, d: skk_format::DictModel, reading: Seq<char>)
    ensures
        m.dicts.len() == 0 ==> model::found(m, reading) == match m.user_dict {
            Some(u) => if u.contains_key(reading) {
                u[reading]
            } else {
                Seq::empty()
            },
            None => Seq::empty(),
        },
        is_merge(
            model::found(m, reading),
            if d.contains_key(reading) {
                d[reading]
            } else {
                Seq::empty()
            },
            model::found(EngineModel { dicts: m.dicts.push(d), ..m }, reading),
        ),
{
    let more = EngineModel { dicts: m.dicts.push(d), ..m };
    let n = m.dicts.len() as int;
    lemma_found_before(m, d, reading, n);
    lemma_is_merge(
        model::found(m, reading),
        if d.contains_key(reading) {
            d[reading]
        } else {
            Seq::empty()
        },
    );
    assert(more.dicts[n] == d);
}

proof fn lemma_found_before(m: EngineModel, d: skk_format::DictModel, reading: Seq<char>, n: int)
    requires
        n <= m.dicts.len(),
    ensures
        model::found_in(EngineModel { dicts: m.dicts.push(d), ..m }, reading, n)
            == model::found_in(m, reading, n),
    decreases n,
{
    if n > 0 {
        lemma_found_before(m, d, reading, n - 1);
        assert(m.dicts.push(d)[n - 1] == m.dicts[n - 1]);
    }
}

} // verus!
