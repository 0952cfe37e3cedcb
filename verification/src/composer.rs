//! The engine: takes keys, keeps the input mode and the composition, converts
//! romaji, looks up words and registers new ones.
use crate::config;
use crate::config::Config;
use crate::dict;
use crate::dict::{DictEntry, DictError, Dictionary};
use crate::model;
use crate::model::{CompositionModel, EngineModel, ResponseModel, SavedModel};
use crate::order;
use crate::romaji;
use crate::romaji::{RomajiConverter, RomajiTable};
use crate::skk_format;
use crate::skk_format::DictModel;
use crate::text;
use crate::text::{
    char_string, concat2, is_ascii_lower, is_ascii_upper, same_text, to_lower,
};
use crate::{
    Candidate, CandidateDisplay, CandidateInfo, CompositionState, EngineResponse, InputMode, Key,
    KeyEvent,
};
use std::path::PathBuf;
use std::sync::Arc;
use vstd::prelude::*;

verus! {

/// A registration that waits for a conversion within it.
struct SavedRegistration {
    reading: String,
    okuri: Option<String>,
    word: String,
    last_lookup_key: Option<String>,
}

impl View for SavedRegistration {
    type V = SavedModel;

    closed spec fn view(&self) -> SavedModel {
        SavedModel {
            reading: self.reading@,
            okuri: dict::option_view(self.okuri),
            word: self.word@,
            last_lookup_key: dict::option_view(self.last_lookup_key),
        }
    }
}

/// The SKK engine.
pub struct SkkEngine {
    config: Config,
    input_mode: InputMode,
    composition: CompositionState,
    romaji: RomajiConverter,
    romaji_table: RomajiTable,
    dictionaries: Vec<Arc<Dictionary>>,
    /// The consonant with which okurigana starts.
    okuri_prefix: Option<String>,
    user_dict: Option<Dictionary>,
    user_dict_path: Option<PathBuf>,
    /// The user dictionary changed and its file was not yet asked for.
    save_due: bool,
    /// The reading under which a word is registered.
    last_lookup_key: Option<String>,
    saved_registration: Option<SavedRegistration>,
    /// Letters are taken as they are while a word is registered.
    registration_sub_mode: Option<InputMode>,
}

spec fn dict_views(ds: Seq<Arc<Dictionary>>) -> Seq<DictModel> {
    Seq::new(ds.len(), |i: int| (*ds[i])@)
}

impl View for SkkEngine {
    type V = EngineModel;

    closed spec fn view(&self) -> EngineModel {
        EngineModel {
            config: self.config@,
            mode: self.input_mode,
            composition: self.composition@,
            pending: self.romaji@,
            rules: self.romaji_table@,
            dicts: dict_views(self.dictionaries@),
            user_dict: match self.user_dict {
                Some(d) => Some(d@),
                None => None,
            },
            file: self.user_dict_path,
            save_due: self.save_due,
            okuri_prefix: dict::option_view(self.okuri_prefix),
            last_lookup_key: dict::option_view(self.last_lookup_key),
            saved: match self.saved_registration {
                Some(s) => Some(s@),
                None => None,
            },
            sub_mode: self.registration_sub_mode,
        }
    }
}

/// The full-width form of a printable ASCII character; other characters as
/// they are.
pub fn to_fullwidth(ch: char) -> (r: char)
    ensures
        r == model::fullwidth(ch),
{
    let cp: u32 = ch as u32;
    if 0x21 <= cp && cp <= 0x7E {
        match char::from_u32(cp + 0xFEE0) {
            Some(wide) => wide,
            None => ch,
        }
    } else {
        ch
    }
}

/// Text with its hiragana as katakana.
pub fn hiragana_to_katakana(s: &str) -> (r: String)
    ensures
        r@ == model::katakana(s@),
{
    let mut out = String::new();
    for c in it: s.chars()
        invariant
            it.seq() == s@,
            out@ == model::katakana(s@.take(it.index() as int)),
    {
        let cp: u32 = c as u32;
        let ghost n = it.index() as int;
        let k = if 0x3041 <= cp && cp <= 0x3096 {
            match char::from_u32(cp + 0x60) {
                Some(k) => k,
                None => c,
            }
        } else {
            c
        };
        out.push(k);
        assert(model::katakana(s@.take(n + 1)) =~= model::katakana(s@.take(n)).push(
            model::katakana_char(c),
        ));
    }
    assert(s@.take(s@.len() as int) =~= s@);
    out
}

fn copied_option(s: &Option<String>) -> (r: Option<String>)
    ensures
        dict::option_view(r) == dict::option_view(*s),
{
    match s {
        Some(t) => Some(t.clone()),
        None => None,
    }
}

fn has_candidate(cs: &Vec<Candidate>, word: &str) -> (r: bool)
    ensures
        r == skk_format::has_word(model::candidate_views(cs@), word@),
{
    let ghost vs = model::candidate_views(cs@);
    let mut i: usize = 0;
    while i < cs.len()
        invariant
            i <= cs@.len(),
            vs == model::candidate_views(cs@),
            forall|k: int| 0 <= k < i ==> (#[trigger] vs[k]).word != word@,
        decreases cs@.len() - i,
    {
        if same_text(cs[i].word.as_str(), word) {
            assert(vs[i as int].word == word@);
            return true;
        }
        i += 1;
    }
    false
}

fn candidate_of(e: &DictEntry) -> (r: Candidate)
    ensures
        r@ == e@,
{
    Candidate { word: e.word.clone(), annotation: copied_option(&e.annotation) }
}

/// Puts those entries behind the candidates whose word is not there yet.
fn merge_entries(found: &mut Vec<Candidate>, entries: &[DictEntry])
    ensures
        model::candidate_views(final(found)@) == model::merged(
            model::candidate_views(old(found)@),
            dict::entry_views(entries@),
        ),
{
    let ghost start = model::candidate_views(found@);
    let ghost es = dict::entry_views(entries@);
    let mut i: usize = 0;
    assert(es.take(0) =~= Seq::empty());
    while i < entries.len()
        invariant
            i <= entries@.len(),
            es == dict::entry_views(entries@),
            model::candidate_views(found@) == model::merged(start, es.take(i as int)),
        decreases entries@.len() - i,
    {
        let ghost before = found@;
        assert(es.take(i + 1).drop_last() =~= es.take(i as int));
        assert(es.take(i + 1).last() == entries@[i as int]@);
        if !has_candidate(found, entries[i].word.as_str()) {
            let c = candidate_of(&entries[i]);
            found.push(c);
            assert(model::candidate_views(found@) =~= model::candidate_views(before).push(c@));
        }
        i += 1;
    }
    assert(es.take(i as int) =~= es);
}

fn register_mark(reading: &str) -> (r: String)
    ensures
        r@ == model::register_mark(reading@),
{
    proof {
        reveal_strlit("[登録:");
        reveal_strlit("]");
        assert("[登録:"@ =~= seq!['[', '登', '録', ':']);
        assert("]"@ =~= seq![']']);
    }
    let mut out = concat2("[登録:", reading);
    out.append("]");
    out
}

fn option_text(s: &Option<String>) -> (r: &str)
    ensures
        r@ == model::or_empty(dict::option_view(*s)),
{
    proof {
        reveal_strlit("");
    }
    match s {
        Some(t) => t.as_str(),
        None => {
            assert(""@ =~= Seq::empty());
            ""
        },
    }
}

fn same_option(a: &Option<String>, b: &Option<String>) -> (r: bool)
    ensures
        r == (dict::option_view(*a) == dict::option_view(*b)),
{
    match (a, b) {
        (Some(s), Some(t)) => same_text(s.as_str(), t.as_str()),
        (None, None) => true,
        _ => false,
    }
}

fn is_backspace(key: &KeyEvent) -> (r: bool)
    ensures
        r == model::is_backspace(*key),
{
    key.key == Key::Backspace || (key.ctrl && key.key == Key::Char('h'))
}

fn is_confirm(key: &KeyEvent) -> (r: bool)
    ensures
        r == model::is_confirm(*key),
{
    (key.ctrl && key.key == Key::Char('j')) || key.key == Key::Enter
}

fn is_cancel(key: &KeyEvent) -> (r: bool)
    ensures
        r == model::is_cancel(*key),
{
    (key.ctrl && key.key == Key::Char('g')) || key.key == Key::Escape
}

/// The engine's answer that shows nothing.
fn show_nothing() -> (r: EngineResponse)
    ensures
        r@ == (ResponseModel::UpdateComposition { display: Seq::empty(), candidates: None }),
{
    EngineResponse::UpdateComposition { display: String::new(), candidates: None }
}

impl SkkEngine {
    /// An engine with these settings.
    pub fn new(config: Config) -> (r: Self)
        ensures
            r@ == model::initial(config@),
    {
        let initial_mode = config.initial_mode;
        let r = SkkEngine {
            config,
            input_mode: initial_mode,
            composition: CompositionState::Direct,
            romaji: RomajiConverter::new(),
            romaji_table: RomajiTable::default_table(),
            dictionaries: Vec::new(),
            okuri_prefix: None,
            user_dict: None,
            user_dict_path: None,
            save_due: false,
            last_lookup_key: None,
            saved_registration: None,
            registration_sub_mode: None,
        };
        assert(r@.dicts =~= Seq::empty());
        r
    }

    /// The settings.
    pub fn config(&self) -> (r: &Config)
        ensures
            r@ == self@.config,
    {
        &self.config
    }

    /// Adds a system dictionary behind the others.
    pub fn add_dictionary(&mut self, dict: Arc<Dictionary>)
        ensures
            final(self)@ == (EngineModel { dicts: old(self)@.dicts.push((*dict)@), ..old(self)@ }),
    {
        self.dictionaries.push(dict);
        assert(self@.dicts =~= old(self)@.dicts.push((*dict)@));
    }

    /// Adds a system dictionary behind the others.
    pub fn add_dictionary_owned(&mut self, dict: Dictionary)
        ensures
            final(self)@ == (EngineModel { dicts: old(self)@.dicts.push(dict@), ..old(self)@ }),
    {
        self.add_dictionary(Arc::new(dict));
    }

    /// Sets the user dictionary to what was read from its file; an empty one
    /// where the file could not be read.
    pub fn set_user_dictionary(&mut self, path: PathBuf, loaded: Result<Dictionary, DictError>)
        ensures
            final(self)@ == (EngineModel {
                user_dict: Some(
                    match loaded {
                        Ok(d) => d@,
                        Err(_) => Map::empty(),
                    },
                ),
                file: Some(path),
                ..old(self)@
            }),
    {
        let dict = match loaded {
            Ok(d) => d,
            Err(_) => Dictionary::new(),
        };
        self.user_dict = Some(dict);
        self.user_dict_path = Some(path);
    }

    /// The path of the user dictionary's file.
    pub fn user_dictionary_path(&self) -> (r: Option<&PathBuf>)
        ensures
            match r {
                Some(p) => self@.file == Some(*p),
                None => self@.file is None,
            },
    {
        match &self.user_dict_path {
            Some(p) => Some(p),
            None => None,
        }
    }

    /// Sets a user dictionary that has no file: from here on nothing is to be
    /// saved.
    pub fn use_user_dictionary(&mut self, dict: Dictionary)
        ensures
            final(self)@ == (EngineModel {
                user_dict: Some(dict@),
                file: None,
                save_due: false,
                ..old(self)@
            }),
    {
        self.user_dict = Some(dict);
        self.user_dict_path = None;
        self.save_due = false;
    }

    /// The user dictionary.
    pub fn user_dictionary(&self) -> (r: Option<&Dictionary>)
        ensures
            match r {
                Some(d) => self@.user_dict == Some(d@),
                None => self@.user_dict is None,
            },
    {
        match &self.user_dict {
            Some(d) => Some(d),
            None => None,
        }
    }

    /// The text to write to the user dictionary's file, if a word was
    /// registered since this was last asked.
    pub fn take_save_request(&mut self) -> (r: Option<String>)
        ensures
            final(self)@ == (EngineModel { save_due: false, ..old(self)@ }),
            match r {
                Some(s) => old(self)@.save_due && (old(self)@.user_dict matches Some(d) && s@
                    == skk_format::written(d)),
                None => !old(self)@.save_due || old(self)@.user_dict is None,
            },
    {
        let due = self.save_due;
        self.save_due = false;
        if due {
            match &self.user_dict {
                Some(d) => Some(d.to_skk_string()),
                None => None,
            }
        } else {
            None
        }
    }

    /// The input mode.
    pub fn current_mode(&self) -> (r: InputMode)
        ensures
            r == self@.mode,
    {
        self.input_mode
    }

    /// The mode in which letters are taken as they are while a word is
    /// registered.
    pub fn registration_sub_mode(&self) -> (r: Option<InputMode>)
        ensures
            r == self@.sub_mode,
    {
        self.registration_sub_mode
    }

    fn inner_text(&self) -> (r: Option<String>)
        ensures
            dict::option_view(r) == model::inner_text(self@),
    {
        proof {
            reveal_strlit("▽");
            reveal_strlit("▼");
            assert("▽"@ =~= seq!['▽']);
            assert("▼"@ =~= seq!['▼']);
        }
        match &self.composition {
            CompositionState::Direct => {
                let pending = self.romaji.pending();
                if pending.is_empty() {
                    None
                } else {
                    Some(pending.to_string())
                }
            },
            CompositionState::PreComposition { reading, .. } => {
                let mut out = concat2("▽", reading.as_str());
                out.append(self.romaji.pending());
                Some(out)
            },
            CompositionState::Conversion { candidates, selected, okuri, .. } => {
                if *selected < candidates.len() {
                    let mut out = concat2("▼", candidates[*selected].word.as_str());
                    out.append(option_text(okuri));
                    Some(out)
                } else {
                    None
                }
            },
            CompositionState::Registration { reading, word, pending_roman, .. } => {
                let mut out = concat2(word.as_str(), pending_roman.as_str());
                out.append(register_mark(reading.as_str()).as_str());
                Some(out)
            },
        }
    }

    /// What is shown as not yet final.
    pub fn composition_text(&self) -> (r: Option<String>)
        ensures
            dict::option_view(r) == model::shown(self@),
    {
        let base = self.inner_text();
        match &self.saved_registration {
            Some(saved) => {
                let mut out = concat2(saved.word.as_str(), option_text(&base));
                out.append(register_mark(saved.reading.as_str()).as_str());
                Some(out)
            },
            None => base,
        }
    }

    /// What the candidate window shows, while a candidate is being chosen.
    pub fn candidate_info(&self) -> (r: Option<CandidateInfo>)
        ensures
            match r {
                Some(info) => self@.composition matches CompositionModel::Conversion {
                    candidates,
                    selected,
                    ..
                } && info@ == (candidates, selected),
                None => !(self@.composition is Conversion),
            },
    {
        if let CompositionState::Conversion { candidates, selected, .. } = &self.composition {
            let mut out: Vec<CandidateDisplay> = Vec::new();
            let mut i: usize = 0;
            while i < candidates.len()
                invariant
                    i <= candidates@.len(),
                    out@.len() == i,
                    forall|k: int| 0 <= k < i ==> (#[trigger] out@[k])@ == candidates@[k]@,
                decreases candidates@.len() - i,
            {
                out.push(
                    CandidateDisplay {
                        word: candidates[i].word.clone(),
                        annotation: copied_option(&candidates[i].annotation),
                    },
                );
                i += 1;
            }
            let info = CandidateInfo { candidates: out, selected: *selected };
            assert(info@.0 =~= model::candidate_views(candidates@));
            Some(info)
        } else {
            None
        }
    }

    /// The composition.
    pub fn composition_state(&self) -> (r: &CompositionState)
        ensures
            r@ == self@.composition,
    {
        &self.composition
    }

    /// Whether romaji is pending.
    pub fn has_pending_romaji(&self) -> (r: bool)
        ensures
            r == (self@.pending.len() > 0),
    {
        !self.romaji.pending().is_empty()
    }

    /// Takes a key: changes the state and answers.
    pub fn process_key(&mut self, key: KeyEvent) -> (r: EngineResponse)
        ensures
            final(self)@ == model::step(old(self)@, key).0,
            r@ == model::step(old(self)@, key).1,
    {
        if let Some(response) = self.handle_ime_control(&key) {
            return response;
        }
        match self.input_mode {
            InputMode::Hiragana => self.handle_hiragana(&key),
            InputMode::Katakana => self.handle_hiragana(&key),
            InputMode::ZenkakuAscii => self.handle_zenkaku_ascii(&key),
            _ => EngineResponse::PassThrough,
        }
    }

    /// Drops what was typed.
    pub fn reset_state(&mut self)
        ensures
            final(self)@ == model::reset(old(self)@),
    {
        self.composition = CompositionState::Direct;
        self.romaji.clear();
        self.okuri_prefix = None;
        self.last_lookup_key = None;
        self.saved_registration = None;
        self.registration_sub_mode = None;
    }

    fn make_composition_response(&self) -> (r: EngineResponse)
        ensures
            r@ == model::composed(self@),
    {
        match self.composition_text() {
            Some(display) => {
                let candidates = match &self.composition {
                    CompositionState::Conversion { candidates, .. } => {
                        let mut out: Vec<String> = Vec::new();
                        let mut i: usize = 0;
                        while i < candidates.len()
                            invariant
                                i <= candidates@.len(),
                                out@.len() == i,
                                forall|k: int|
                                    0 <= k < i ==> (#[trigger] out@[k])@ == candidates@[k].word@,
                            decreases candidates@.len() - i,
                        {
                            out.push(candidates[i].word.clone());
                            i += 1;
                        }
                        assert(order::views(out@) =~= model::words(
                            model::candidate_views(candidates@),
                        ));
                        Some(out)
                    },
                    _ => None,
                };
                EngineResponse::UpdateComposition { display, candidates }
            },
            None => EngineResponse::Consumed,
        }
    }

    /// The answer to a key that was used without text to insert; `was` is what
    /// was shown before.
    fn take_key(&self, was: &Option<String>) -> (r: EngineResponse)
        ensures
            r@ == model::taken(dict::option_view(*was), self@),
    {
        let now = self.composition_text();
        if same_option(&now, was) {
            EngineResponse::Consumed
        } else if now.is_some() {
            self.make_composition_response()
        } else {
            show_nothing()
        }
    }

    /// Text to insert; where there is none, the answer to a key that was used.
    fn commit_or_take(&self, was: &Option<String>, s: String) -> (r: EngineResponse)
        ensures
            r@ == model::commit_or_take(dict::option_view(*was), self@, s@),
    {
        if s.as_str().is_empty() {
            self.take_key(was)
        } else {
            EngineResponse::Commit(s)
        }
    }

    fn lookup_all_dicts(&self, reading: &str) -> (r: Vec<Candidate>)
        ensures
            model::candidate_views(r@) == model::found(self@, reading@),
    {
        let mut results: Vec<Candidate> = Vec::new();
        assert(model::candidate_views(results@) =~= Seq::empty());
        if let Some(user_dict) = &self.user_dict {
            if let Some(entries) = user_dict.lookup(reading) {
                let mut i: usize = 0;
                while i < entries.len()
                    invariant
                        i <= entries@.len(),
                        results@.len() == i,
                        forall|k: int| 0 <= k < i ==> (#[trigger] results@[k])@ == entries@[k]@,
                    decreases entries@.len() - i,
                {
                    results.push(candidate_of(&entries[i]));
                    i += 1;
                }
                assert(model::candidate_views(results@) =~= dict::entry_views(entries@));
            }
        }
        let mut n: usize = 0;
        while n < self.dictionaries.len()
            invariant
                n <= self.dictionaries@.len(),
                model::candidate_views(results@) == model::found_in(self@, reading@, n as int),
            decreases self.dictionaries@.len() - n,
        {
            if let Some(entries) = self.dictionaries[n].lookup(reading) {
                merge_entries(&mut results, entries);
            }
            n += 1;
        }
        results
    }

    fn kana_output(&self, hiragana: String) -> (r: String)
        ensures
            r@ == model::kana_in(self@.mode, hiragana@),
    {
        if self.input_mode == InputMode::Katakana {
            hiragana_to_katakana(hiragana.as_str())
        } else {
            hiragana
        }
    }
}


impl SkkEngine {
    fn handle_hiragana(&mut self, key: &KeyEvent) -> (r: EngineResponse)
        ensures
            ({
                let (next, answer) = model::kana_step(old(self)@, *key);
                &&& final(self)@ == model::intercepted(next, answer).0
                &&& r@ == model::intercepted(next, answer).1
            }),
    {
        let response = match self.composition {
            CompositionState::Direct => self.handle_direct(key),
            CompositionState::PreComposition { .. } => self.handle_pre_composition(key),
            CompositionState::Conversion { .. } => self.handle_conversion(key),
            CompositionState::Registration { .. } => self.handle_registration(key),
        };
        self.intercept_for_registration(response)
    }

    /// Hands what a conversion within a registration commits to the registration.
    fn intercept_for_registration(&mut self, response: EngineResponse) -> (r: EngineResponse)
        ensures
            final(self)@ == model::intercepted(old(self)@, response@).0,
            r@ == model::intercepted(old(self)@, response@).1,
    {
        let direct = matches!(self.composition, CompositionState::Direct);
        let typing = matches!(self.composition, CompositionState::PreComposition { .. });
        match self.saved_registration.take() {
            None => response,
            Some(mut saved) => match response {
                EngineResponse::Commit(text) => {
                    saved.word.append(text.as_str());
                    if typing {
                        self.saved_registration = Some(saved);
                    } else {
                        self.resume_registration(saved);
                    }
                    self.make_composition_response()
                },
                other => {
                    if direct {
                        self.resume_registration(saved);
                        self.make_composition_response()
                    } else {
                        self.saved_registration = Some(saved);
                        other
                    }
                },
            },
        }
    }

    fn resume_registration(&mut self, saved: SavedRegistration)
        ensures
            final(self)@ == model::resumed(old(self)@, saved@, saved@.word),
    {
        let pending_roman = self.romaji.pending().to_string();
        self.saved_registration = None;
        self.last_lookup_key = saved.last_lookup_key;
        self.composition = CompositionState::Registration {
            reading: saved.reading,
            okuri: saved.okuri,
            word: saved.word,
            pending_roman,
        };
    }

    fn handle_ime_control(&mut self, key: &KeyEvent) -> (r: Option<EngineResponse>)
        ensures
            match model::ime_control(old(self)@, *key) {
                Some((next, answer)) => final(self)@ == next && (r matches Some(a) && a@ == answer),
                None => final(self)@ == old(self)@ && r is None,
            },
    {
        if !key.ctrl {
            return None;
        }
        match key.key {
            Key::Space => {
                if self.input_mode == InputMode::Ascii {
                    self.input_mode = InputMode::Hiragana;
                    Some(EngineResponse::Consumed)
                } else {
                    Some(self.turn_off())
                }
            },
            Key::Char(ch) => {
                if ch == 'j' {
                    match self.input_mode {
                        InputMode::Ascii | InputMode::HankakuKatakana | InputMode::Abbrev => {
                            self.input_mode = InputMode::Hiragana;
                            Some(EngineResponse::Consumed)
                        },
                        _ => None,
                    }
                } else if ch == ';' {
                    Some(self.turn_off())
                } else {
                    None
                }
            },
            _ => None,
        }
    }

    /// Turns the input method off and drops what was typed.
    fn turn_off(&mut self) -> (r: EngineResponse)
        ensures
            final(self)@ == model::turned_off(old(self)@).0,
            r@ == model::turned_off(old(self)@).1,
    {
        let was = self.composition_text();
        self.reset_state();
        self.input_mode = InputMode::Ascii;
        self.take_key(&was)
    }

    /// Goes to another mode, with what was typed made kana first.
    fn leave_for(&mut self, mode: InputMode) -> (r: EngineResponse)
        ensures
            final(self)@ == model::leave_for(old(self)@, mode).0,
            r@ == model::leave_for(old(self)@, mode).1,
    {
        let was = self.composition_text();
        let flushed = self.romaji.flush();
        let flushed = self.kana_output(flushed);
        self.input_mode = mode;
        self.commit_or_take(&was, flushed)
    }

    /// Starts a reading with a letter.
    fn start_precomp(&mut self, ch: char)
        ensures
            final(self)@ == model::started(old(self)@, ch),
    {
        let output = self.romaji.feed(ch, &self.romaji_table);
        self.composition = CompositionState::PreComposition {
            reading: output.committed,
            pending_roman: output.pending,
        };
    }

    /// Makes kana of what is pending, as far as it can be.
    fn flush_pending(&mut self) -> (r: EngineResponse)
        ensures
            ({
                let next = EngineModel { pending: Seq::empty(), ..old(self)@ };
                let kana = model::kana_in(old(self)@.mode, romaji::flushed(old(self)@.pending));
                &&& final(self)@ == next
                &&& r@ == model::commit_or_take(model::shown(old(self)@), next, kana)
            }),
    {
        let was = self.composition_text();
        let flushed = self.romaji.flush();
        let flushed = self.kana_output(flushed);
        self.commit_or_take(&was, flushed)
    }

    fn handle_direct(&mut self, key: &KeyEvent) -> (r: EngineResponse)
        requires
            old(self)@.composition is Direct,
        ensures
            final(self)@ == model::direct_step(old(self)@, *key).0,
            r@ == model::direct_step(old(self)@, *key).1,
    {
        if is_backspace(key) {
            return if self.romaji.backspace() {
                EngineResponse::UpdateComposition {
                    display: self.romaji.pending().to_string(),
                    candidates: None,
                }
            } else {
                EngineResponse::PassThrough
            };
        }
        if key.ctrl {
            return match key.key {
                Key::Char('j') => {
                    self.flush_pending()
                },
                Key::Char('g') => EngineResponse::Consumed,
                _ => EngineResponse::PassThrough,
            };
        }
        match key.key {
            Key::Char(ch) => {
                if !key.shift && ch == self.config.enter_ascii {
                    self.leave_for(InputMode::Ascii)
                } else if key.shift && ch == self.config.enter_zenkaku {
                    self.leave_for(InputMode::ZenkakuAscii)
                } else if !key.shift && ch == self.config.toggle_kana {
                    let other = if self.input_mode == InputMode::Hiragana {
                        InputMode::Katakana
                    } else {
                        InputMode::Hiragana
                    };
                    self.leave_for(other)
                } else if key.shift && is_ascii_upper(ch) {
                    let flushed = self.romaji.flush();
                    let flushed = self.kana_output(flushed);
                    self.start_precomp(to_lower(ch));
                    if flushed.as_str().is_empty() {
                        self.make_composition_response()
                    } else {
                        EngineResponse::Commit(flushed)
                    }
                } else if is_ascii_lower(ch) {
                    let output = self.romaji.feed(ch, &self.romaji_table);
                    if output.committed.as_str().is_empty() {
                        EngineResponse::UpdateComposition {
                            display: output.pending,
                            candidates: None,
                        }
                    } else {
                        EngineResponse::Commit(self.kana_output(output.committed))
                    }
                } else {
                    EngineResponse::PassThrough
                }
            },
            Key::Enter => {
                if self.romaji.pending().is_empty() {
                    EngineResponse::PassThrough
                } else {
                    self.flush_pending()
                }
            },
            _ => EngineResponse::PassThrough,
        }
    }

    /// The reading that is being typed.
    fn reading(&self) -> (r: String)
        requires
            self@.composition is PreComposition,
        ensures
            r@ == self@.composition->PreComposition_reading,
    {
        match &self.composition {
            CompositionState::PreComposition { reading, .. } => reading.clone(),
            _ => String::new(),
        }
    }

    fn handle_pre_composition(&mut self, key: &KeyEvent) -> (r: EngineResponse)
        requires
            old(self)@.composition is PreComposition,
        ensures
            ({
                let reading = old(self)@.composition->PreComposition_reading;
                let pending_roman = old(self)@.composition->PreComposition_pending_roman;
                let (next, answer) = model::pre_step(old(self)@, reading, pending_roman, *key);
                &&& final(self)@ == next
                &&& r@ == answer
            }),
    {
        if is_backspace(key) {
            return self.precomp_backspace();
        }
        if is_confirm(key) {
            return self.confirm_as_hiragana();
        }
        if is_cancel(key) {
            return self.cancel_composition();
        }
        match key.key {
            Key::Space => self.start_conversion(),
            Key::Char(ch) => {
                if !key.ctrl && !key.shift && ch == self.config.toggle_kana {
                    self.convert_to_katakana()
                } else if key.shift && is_ascii_upper(ch) {
                    self.start_okuri(to_lower(ch))
                } else if !key.ctrl && is_ascii_lower(ch) {
                    self.feed_precomp_char(ch)
                } else {
                    EngineResponse::PassThrough
                }
            },
            _ => EngineResponse::PassThrough,
        }
    }

    fn feed_precomp_char(&mut self, ch: char) -> (r: EngineResponse)
        requires
            old(self)@.composition is PreComposition,
        ensures
            ({
                let reading = old(self)@.composition->PreComposition_reading;
                let (next, answer) = model::reading_fed(old(self)@, reading, ch);
                &&& final(self)@ == next
                &&& r@ == answer
            }),
    {
        let was = self.composition_text();
        let mut reading = self.reading();
        let output = self.romaji.feed(ch, &self.romaji_table);
        if self.okuri_prefix.is_some() && !output.committed.as_str().is_empty() {
            return self.trigger_okuri_conversion(&was, reading, output.committed);
        }
        reading.append(output.committed.as_str());
        self.composition = CompositionState::PreComposition {
            reading,
            pending_roman: output.pending,
        };
        self.make_composition_response()
    }

    fn start_okuri(&mut self, ch: char) -> (r: EngineResponse)
        requires
            old(self)@.composition is PreComposition,
        ensures
            ({
                let reading = old(self)@.composition->PreComposition_reading;
                let (next, answer) = model::okuri_started(old(self)@, reading, ch);
                &&& final(self)@ == next
                &&& r@ == answer
            }),
    {
        let was = self.composition_text();
        let mut reading = self.reading();
        let flushed = self.romaji.flush();
        reading.append(flushed.as_str());
        self.okuri_prefix = Some(char_string(ch));
        let output = self.romaji.feed(ch, &self.romaji_table);
        self.composition = CompositionState::PreComposition {
            reading: reading.clone(),
            pending_roman: output.pending,
        };
        if !output.committed.as_str().is_empty() {
            return self.trigger_okuri_conversion(&was, reading, output.committed);
        }
        self.make_composition_response()
    }

    fn trigger_okuri_conversion(
        &mut self,
        was: &Option<String>,
        reading: String,
        okuri_kana: String,
    ) -> (r: EngineResponse)
        ensures
            ({
                let (next, answer) = model::okuri_looked_up(
                    dict::option_view(*was),
                    old(self)@,
                    reading@,
                    okuri_kana@,
                );
                &&& final(self)@ == next
                &&& r@ == answer
            }),
    {
        let prefix = self.okuri_prefix.take();
        let lookup_key = concat2(reading.as_str(), option_text(&prefix));
        self.romaji.clear();
        self.last_lookup_key = Some(lookup_key.clone());
        let candidates = self.lookup_all_dicts(lookup_key.as_str());
        let ghost asked = self@;
        assert(model::found(asked, lookup_key@) == model::candidate_views(candidates@));
        if candidates.len() > 0 {
            self.composition = CompositionState::Conversion {
                reading,
                okuri: Some(okuri_kana),
                candidates,
                selected: 0,
            };
            self.make_composition_response()
        } else if self.saved_registration.is_some() {
            self.composition = CompositionState::PreComposition {
                reading,
                pending_roman: String::new(),
            };
            self.take_key(was)
        } else {
            self.composition = CompositionState::Registration {
                reading,
                okuri: Some(okuri_kana),
                word: String::new(),
                pending_roman: String::new(),
            };
            self.make_composition_response()
        }
    }

    fn start_conversion(&mut self) -> (r: EngineResponse)
        requires
            old(self)@.composition is PreComposition,
        ensures
            ({
                let reading = old(self)@.composition->PreComposition_reading;
                let (next, answer) = model::conversion_started(old(self)@, reading);
                &&& final(self)@ == next
                &&& r@ == answer
            }),
    {
        let was = self.composition_text();
        let mut all = self.reading();
        let flushed = self.romaji.flush();
        all.append(flushed.as_str());
        self.composition = CompositionState::PreComposition {
            reading: all.clone(),
            pending_roman: String::new(),
        };
        if all.as_str().is_empty() {
            return EngineResponse::Consumed;
        }
        self.last_lookup_key = Some(all.clone());
        let candidates = self.lookup_all_dicts(all.as_str());
        let ghost asked = self@;
        assert(model::found(asked, all@) == model::candidate_views(candidates@));
        if candidates.len() > 0 {
            self.composition = CompositionState::Conversion {
                reading: all,
                okuri: None,
                candidates,
                selected: 0,
            };
            self.make_composition_response()
        } else if self.saved_registration.is_some() {
            self.take_key(&was)
        } else {
            self.composition = CompositionState::Registration {
                reading: all,
                okuri: None,
                word: String::new(),
                pending_roman: String::new(),
            };
            self.make_composition_response()
        }
    }

    /// The composition ends with this text.
    fn end_with(&mut self, was: &Option<String>, text: String) -> (r: EngineResponse)
        ensures
            final(self)@ == model::ended_with(dict::option_view(*was), old(self)@, text@).0,
            r@ == model::ended_with(dict::option_view(*was), old(self)@, text@).1,
    {
        self.composition = CompositionState::Direct;
        self.okuri_prefix = None;
        self.commit_or_take(was, text)
    }

    fn confirm_as_hiragana(&mut self) -> (r: EngineResponse)
        requires
            old(self)@.composition is PreComposition,
        ensures
            ({
                let reading = old(self)@.composition->PreComposition_reading;
                let (next, answer) = model::ended_with(
                    model::shown(old(self)@),
                    EngineModel { pending: Seq::empty(), ..old(self)@ },
                    reading + romaji::flushed(old(self)@.pending),
                );
                &&& final(self)@ == next
                &&& r@ == answer
            }),
    {
        let was = self.composition_text();
        let mut text = self.reading();
        let flushed = self.romaji.flush();
        text.append(flushed.as_str());
        self.end_with(&was, text)
    }

    fn convert_to_katakana(&mut self) -> (r: EngineResponse)
        requires
            old(self)@.composition is PreComposition,
        ensures
            ({
                let reading = old(self)@.composition->PreComposition_reading;
                let (next, answer) = model::ended_with(
                    model::shown(old(self)@),
                    EngineModel { pending: Seq::empty(), ..old(self)@ },
                    model::katakana(reading + romaji::flushed(old(self)@.pending)),
                );
                &&& final(self)@ == next
                &&& r@ == answer
            }),
    {
        let was = self.composition_text();
        let mut text = self.reading();
        let flushed = self.romaji.flush();
        text.append(flushed.as_str());
        self.end_with(&was, hiragana_to_katakana(text.as_str()))
    }

    fn precomp_backspace(&mut self) -> (r: EngineResponse)
        requires
            old(self)@.composition is PreComposition,
        ensures
            ({
                let reading = old(self)@.composition->PreComposition_reading;
                let pending_roman = old(self)@.composition->PreComposition_pending_roman;
                let (next, answer) = model::reading_backspace(old(self)@, reading, pending_roman);
                &&& final(self)@ == next
                &&& r@ == answer
            }),
    {
        if self.romaji.backspace() {
            let pending = self.romaji.pending().to_string();
            self.update_pending_roman(pending);
            return self.make_composition_response();
        }
        let mut shorter = self.reading();
        if shorter.pop().is_some() && !shorter.as_str().is_empty() {
            if let CompositionState::PreComposition { reading, .. } = &mut self.composition {
                *reading = shorter;
            }
            return self.make_composition_response();
        }
        self.cancel_composition()
    }

    fn update_pending_roman(&mut self, pending: String)
        requires
            old(self)@.composition is PreComposition,
        ensures
            final(self)@ == (EngineModel {
                composition: CompositionModel::PreComposition {
                    reading: old(self)@.composition->PreComposition_reading,
                    pending_roman: pending@,
                },
                ..old(self)@
            }),
    {
        if let CompositionState::PreComposition { pending_roman, .. } = &mut self.composition {
            *pending_roman = pending;
        }
    }

    fn cancel_composition(&mut self) -> (r: EngineResponse)
        ensures
            final(self)@ == model::cancelled(old(self)@).0,
            r@ == model::cancelled(old(self)@).1,
    {
        self.composition = CompositionState::Direct;
        self.romaji.clear();
        self.okuri_prefix = None;
        show_nothing()
    }
}


impl SkkEngine {
    /// The text of the chosen candidate, with the okurigana.
    fn get_confirmed_text(&self) -> (r: String)
        requires
            self@.composition is Conversion,
        ensures
            r@ == model::candidate_text(
                self@.composition->Conversion_candidates,
                self@.composition->Conversion_selected,
                self@.composition->Conversion_okuri,
            ),
    {
        match &self.composition {
            CompositionState::Conversion { candidates, selected, okuri, .. } => {
                let mut out = String::new();
                if *selected < candidates.len() {
                    out = candidates[*selected].word.clone();
                }
                out.append(option_text(okuri));
                out
            },
            _ => String::new(),
        }
    }

    fn handle_conversion(&mut self, key: &KeyEvent) -> (r: EngineResponse)
        requires
            old(self)@.composition is Conversion,
        ensures
            ({
                let reading = old(self)@.composition->Conversion_reading;
                let okuri = old(self)@.composition->Conversion_okuri;
                let candidates = old(self)@.composition->Conversion_candidates;
                let selected = old(self)@.composition->Conversion_selected;
                let (next, answer) = model::conversion_step(
                    old(self)@,
                    reading,
                    okuri,
                    candidates,
                    selected,
                    *key,
                );
                &&& final(self)@ == next
                &&& r@ == answer
            }),
    {
        if is_confirm(key) {
            return self.confirm_candidate();
        }
        if is_cancel(key) {
            return self.cancel_to_precomp();
        }
        match key.key {
            Key::Space => self.next_candidate(),
            Key::Char(ch) => {
                if !key.ctrl && !key.shift && ch == self.config.prev_candidate {
                    self.prev_candidate()
                } else if key.shift && is_ascii_upper(ch) {
                    self.confirm_and_start_precomp(to_lower(ch))
                } else if !key.ctrl && '1' <= ch && ch <= '9' {
                    self.select_candidate_by_number((ch as u32 - '0' as u32) as usize)
                } else if !key.ctrl && is_ascii_lower(ch) {
                    self.confirm_and_continue(ch)
                } else {
                    EngineResponse::PassThrough
                }
            },
            _ => EngineResponse::PassThrough,
        }
    }

    fn next_candidate(&mut self) -> (r: EngineResponse)
        requires
            old(self)@.composition is Conversion,
        ensures
            ({
                let reading = old(self)@.composition->Conversion_reading;
                let okuri = old(self)@.composition->Conversion_okuri;
                let candidates = old(self)@.composition->Conversion_candidates;
                let selected = old(self)@.composition->Conversion_selected;
                let (next, answer) = model::next_candidate(
                    old(self)@,
                    reading,
                    okuri,
                    candidates,
                    selected,
                );
                &&& final(self)@ == next
                &&& r@ == answer
            }),
    {
        let nested = self.saved_registration.is_some();
        let mut registration: Option<(String, Option<String>)> = None;
        if let CompositionState::Conversion { reading, okuri, candidates, selected } = &mut self.composition {
            if *selected < candidates.len() && candidates.len() - *selected > 1 {
                *selected = *selected + 1;
            } else if !nested {
                registration = Some((reading.clone(), copied_option(okuri)));
            }
        }
        if let Some((reading, okuri)) = registration {
            self.composition = CompositionState::Registration {
                reading,
                okuri,
                word: String::new(),
                pending_roman: String::new(),
            };
        }
        self.make_composition_response()
    }

    fn prev_candidate(&mut self) -> (r: EngineResponse)
        requires
            old(self)@.composition is Conversion,
        ensures
            ({
                let reading = old(self)@.composition->Conversion_reading;
                let okuri = old(self)@.composition->Conversion_okuri;
                let candidates = old(self)@.composition->Conversion_candidates;
                let selected = old(self)@.composition->Conversion_selected;
                let (next, answer) = model::previous_candidate(
                    old(self)@,
                    reading,
                    okuri,
                    candidates,
                    selected,
                );
                &&& final(self)@ == next
                &&& r@ == answer
            }),
    {
        let mut back: Option<String> = None;
        if let CompositionState::Conversion { reading, selected, .. } = &mut self.composition {
            if *selected > 0 {
                *selected = *selected - 1;
            } else {
                back = Some(reading.clone());
            }
        }
        if let Some(reading) = back {
            self.composition = CompositionState::PreComposition {
                reading,
                pending_roman: String::new(),
            };
        }
        self.make_composition_response()
    }

    /// Takes the candidate with this number on the page.
    fn select_candidate_by_number(&mut self, number: usize) -> (r: EngineResponse)
        requires
            old(self)@.composition is Conversion,
            1 <= number <= 9,
        ensures
            ({
                let okuri = old(self)@.composition->Conversion_okuri;
                let candidates = old(self)@.composition->Conversion_candidates;
                let selected = old(self)@.composition->Conversion_selected;
                let at = model::numbered(selected, number as int);
                if at < candidates.len() {
                    &&& final(self)@ == (EngineModel {
                        composition: CompositionModel::Direct,
                        okuri_prefix: None,
                        ..old(self)@
                    })
                    &&& r@ == ResponseModel::Commit(model::candidate_text(candidates, at, okuri))
                } else {
                    &&& final(self)@ == old(self)@
                    &&& r@ == ResponseModel::Consumed
                }
            }),
    {
        let mut text: Option<String> = None;
        if let CompositionState::Conversion { candidates, selected, okuri, .. } = &self.composition {
            let page_start: usize = (*selected / 9) * 9;
            if page_start < candidates.len() && number - 1 < candidates.len() - page_start {
                text = Some(
                    concat2(candidates[page_start + (number - 1)].word.as_str(), option_text(okuri)),
                );
            }
        }
        match text {
            Some(text) => {
                self.composition = CompositionState::Direct;
                self.okuri_prefix = None;
                EngineResponse::Commit(text)
            },
            None => EngineResponse::Consumed,
        }
    }

    fn confirm_candidate(&mut self) -> (r: EngineResponse)
        requires
            old(self)@.composition is Conversion,
        ensures
            ({
                let okuri = old(self)@.composition->Conversion_okuri;
                let candidates = old(self)@.composition->Conversion_candidates;
                let selected = old(self)@.composition->Conversion_selected;
                let (next, answer) = model::ended_with(
                    model::shown(old(self)@),
                    old(self)@,
                    model::candidate_text(candidates, selected, okuri),
                );
                &&& final(self)@ == next
                &&& r@ == answer
            }),
    {
        let was = self.composition_text();
        let text = self.get_confirmed_text();
        self.end_with(&was, text)
    }

    fn confirm_and_continue(&mut self, ch: char) -> (r: EngineResponse)
        requires
            old(self)@.composition is Conversion,
        ensures
            ({
                let okuri = old(self)@.composition->Conversion_okuri;
                let candidates = old(self)@.composition->Conversion_candidates;
                let selected = old(self)@.composition->Conversion_selected;
                let (kana, rest) = romaji::fed(old(self)@.rules, old(self)@.pending, ch);
                let total = model::candidate_text(candidates, selected, okuri) + model::kana_in(
                    old(self)@.mode,
                    kana,
                );
                &&& final(self)@ == (EngineModel {
                    composition: CompositionModel::Direct,
                    pending: rest,
                    okuri_prefix: None,
                    ..old(self)@
                })
                &&& r@ == if total.len() == 0 {
                    ResponseModel::UpdateComposition { display: rest, candidates: None }
                } else {
                    ResponseModel::Commit(total)
                }
            }),
    {
        let mut total = self.get_confirmed_text();
        self.composition = CompositionState::Direct;
        self.okuri_prefix = None;
        let output = self.romaji.feed(ch, &self.romaji_table);
        let kana = self.kana_output(output.committed);
        total.append(kana.as_str());
        if total.as_str().is_empty() {
            EngineResponse::UpdateComposition { display: output.pending, candidates: None }
        } else {
            EngineResponse::Commit(total)
        }
    }

    fn confirm_and_start_precomp(&mut self, ch: char) -> (r: EngineResponse)
        requires
            old(self)@.composition is Conversion,
        ensures
            ({
                let okuri = old(self)@.composition->Conversion_okuri;
                let candidates = old(self)@.composition->Conversion_candidates;
                let selected = old(self)@.composition->Conversion_selected;
                let chosen = model::candidate_text(candidates, selected, okuri);
                let next = model::started(EngineModel { okuri_prefix: None, ..old(self)@ }, ch);
                &&& final(self)@ == next
                &&& r@ == if chosen.len() == 0 {
                    model::composed(next)
                } else {
                    ResponseModel::Commit(chosen)
                }
            }),
    {
        let confirmed = self.get_confirmed_text();
        self.okuri_prefix = None;
        self.start_precomp(ch);
        if confirmed.as_str().is_empty() {
            self.make_composition_response()
        } else {
            EngineResponse::Commit(confirmed)
        }
    }

    fn cancel_to_precomp(&mut self) -> (r: EngineResponse)
        requires
            old(self)@.composition is Conversion,
        ensures
            ({
                let next = EngineModel {
                    composition: CompositionModel::PreComposition {
                        reading: old(self)@.composition->Conversion_reading,
                        pending_roman: Seq::empty(),
                    },
                    pending: Seq::empty(),
                    okuri_prefix: None,
                    ..old(self)@
                };
                &&& final(self)@ == next
                &&& r@ == model::composed(next)
            }),
    {
        let reading = match &self.composition {
            CompositionState::Conversion { reading, .. } => reading.clone(),
            _ => String::new(),
        };
        self.composition = CompositionState::PreComposition {
            reading,
            pending_roman: String::new(),
        };
        self.okuri_prefix = None;
        self.romaji.clear();
        self.make_composition_response()
    }

    fn handle_zenkaku_ascii(&mut self, key: &KeyEvent) -> (r: EngineResponse)
        ensures
            final(self)@ == model::zenkaku_step(old(self)@, *key).0,
            r@ == model::zenkaku_step(old(self)@, *key).1,
    {
        if key.ctrl {
            return if key.key == Key::Char('j') {
                self.input_mode = InputMode::Hiragana;
                EngineResponse::Consumed
            } else {
                EngineResponse::PassThrough
            };
        }
        match key.key {
            Key::Char(ch) => {
                if !key.shift && ch == self.config.enter_ascii {
                    self.input_mode = InputMode::Ascii;
                    EngineResponse::Consumed
                } else if !key.shift && ch == self.config.toggle_kana {
                    self.input_mode = InputMode::Hiragana;
                    EngineResponse::Consumed
                } else if !ch.is_control() {
                    EngineResponse::Commit(char_string(to_fullwidth(ch)))
                } else {
                    EngineResponse::PassThrough
                }
            },
            Key::Space => EngineResponse::Commit(char_string('\u{3000}')),
            _ => EngineResponse::PassThrough,
        }
    }
}

impl SkkEngine {
    fn handle_registration(&mut self, key: &KeyEvent) -> (r: EngineResponse)
        requires
            old(self)@.composition is Registration,
        ensures
            ({
                let reading = old(self)@.composition->Registration_reading;
                let okuri = old(self)@.composition->Registration_okuri;
                let word = old(self)@.composition->Registration_word;
                let pending_roman = old(self)@.composition->Registration_pending_roman;
                let (next, answer) = model::registration_step(
                    old(self)@,
                    reading,
                    okuri,
                    word,
                    pending_roman,
                    *key,
                );
                &&& final(self)@ == next
                &&& r@ == answer
            }),
    {
        if self.registration_sub_mode.is_some() {
            return self.handle_registration_literal(key);
        }
        if is_confirm(key) {
            return self.confirm_registration();
        }
        if is_cancel(key) {
            return self.cancel_registration();
        }
        if is_backspace(key) {
            return self.registration_backspace();
        }
        match key.key {
            Key::Char(ch) => {
                if !key.shift && !key.ctrl && ch == self.config.enter_ascii {
                    self.start_literal(InputMode::Ascii)
                } else if key.shift && ch == self.config.enter_zenkaku {
                    self.start_literal(InputMode::ZenkakuAscii)
                } else if key.shift && is_ascii_upper(ch) {
                    self.start_nested_precomp(to_lower(ch))
                } else if !key.ctrl {
                    self.feed_registration_char(ch)
                } else {
                    EngineResponse::Consumed
                }
            },
            _ => EngineResponse::Consumed,
        }
    }

    /// Letters of the word are taken as they are from here on.
    fn start_literal(&mut self, mode: InputMode) -> (r: EngineResponse)
        requires
            old(self)@.composition is Registration,
        ensures
            ({
                let reading = old(self)@.composition->Registration_reading;
                let okuri = old(self)@.composition->Registration_okuri;
                let word = old(self)@.composition->Registration_word;
                let next = EngineModel {
                    pending: Seq::empty(),
                    composition: CompositionModel::Registration {
                        reading,
                        okuri,
                        word,
                        pending_roman: Seq::empty(),
                    },
                    sub_mode: Some(mode),
                    ..old(self)@
                };
                &&& final(self)@ == next
                &&& r@ == model::composed(next)
            }),
    {
        self.romaji.clear();
        if let CompositionState::Registration { pending_roman, .. } = &mut self.composition {
            *pending_roman = String::new();
        }
        self.registration_sub_mode = Some(mode);
        self.make_composition_response()
    }

    fn start_nested_precomp(&mut self, ch: char) -> (r: EngineResponse)
        requires
            old(self)@.composition is Registration,
        ensures
            ({
                let reading = old(self)@.composition->Registration_reading;
                let okuri = old(self)@.composition->Registration_okuri;
                let word = old(self)@.composition->Registration_word;
                let pending_roman = old(self)@.composition->Registration_pending_roman;
                let (next, answer) = model::nested_started(old(self)@, reading, okuri, word, ch);
                &&& final(self)@ == next
                &&& r@ == answer
            }),
    {
        let flushed = self.romaji.flush();
        let key = self.last_lookup_key.take();
        if let CompositionState::Registration { reading, okuri, word, .. } = &self.composition {
            self.saved_registration = Some(
                SavedRegistration {
                    reading: reading.clone(),
                    okuri: copied_option(okuri),
                    word: concat2(word.as_str(), flushed.as_str()),
                    last_lookup_key: key,
                },
            );
        }
        self.start_precomp(ch);
        self.make_composition_response()
    }

    /// Makes the word longer by one character.
    fn push_word(&mut self, ch: char) -> (r: EngineResponse)
        requires
            old(self)@.composition is Registration,
        ensures
            ({
                let reading = old(self)@.composition->Registration_reading;
                let okuri = old(self)@.composition->Registration_okuri;
                let word = old(self)@.composition->Registration_word;
                let pending_roman = old(self)@.composition->Registration_pending_roman;
                let (next, answer) = model::word_pushed(
                    old(self)@,
                    reading,
                    okuri,
                    word,
                    pending_roman,
                    ch,
                );
                &&& final(self)@ == next
                &&& r@ == answer
            }),
    {
        if let CompositionState::Registration { word, .. } = &mut self.composition {
            word.push(ch);
        }
        self.make_composition_response()
    }

    fn feed_registration_char(&mut self, ch: char) -> (r: EngineResponse)
        requires
            old(self)@.composition is Registration,
        ensures
            ({
                let reading = old(self)@.composition->Registration_reading;
                let okuri = old(self)@.composition->Registration_okuri;
                let word = old(self)@.composition->Registration_word;
                let (next, answer) = model::word_fed(old(self)@, reading, okuri, word, ch);
                &&& final(self)@ == next
                &&& r@ == answer
            }),
    {
        let output = self.romaji.feed(ch, &self.romaji_table);
        let unknown = output.committed.as_str().is_empty() && output.pending.as_str().is_empty();
        if let CompositionState::Registration { word, pending_roman, .. } = &mut self.composition {
            word.append(output.committed.as_str());
            *pending_roman = output.pending;
        }
        if unknown {
            self.push_word(ch)
        } else {
            self.make_composition_response()
        }
    }

    fn confirm_registration(&mut self) -> (r: EngineResponse)
        requires
            old(self)@.composition is Registration,
        ensures
            ({
                let reading = old(self)@.composition->Registration_reading;
                let okuri = old(self)@.composition->Registration_okuri;
                let word = old(self)@.composition->Registration_word;
                let (next, answer) = model::registration_confirmed(
                    old(self)@,
                    reading,
                    okuri,
                    word,
                );
                &&& final(self)@ == next
                &&& r@ == answer
            }),
    {
        self.registration_sub_mode = None;
        let flushed = self.romaji.flush();
        let mut all = String::new();
        let mut text = String::new();
        if let CompositionState::Registration { okuri, word, .. } = &self.composition {
            all = concat2(word.as_str(), flushed.as_str());
            text = concat2(all.as_str(), option_text(okuri));
        }
        if all.as_str().is_empty() {
            return self.cancel_registration();
        }
        let lookup_key = self.last_lookup_key.take();
        if let Some(key) = lookup_key {
            self.register_word(key, all);
        }
        self.composition = CompositionState::Direct;
        self.okuri_prefix = None;
        EngineResponse::Commit(text)
    }

    /// Registration while letters are taken as they are.
    fn handle_registration_literal(&mut self, key: &KeyEvent) -> (r: EngineResponse)
        requires
            old(self)@.composition is Registration,
        ensures
            ({
                let reading = old(self)@.composition->Registration_reading;
                let okuri = old(self)@.composition->Registration_okuri;
                let word = old(self)@.composition->Registration_word;
                let pending_roman = old(self)@.composition->Registration_pending_roman;
                let (next, answer) = model::literal_step(
                    old(self)@,
                    reading,
                    okuri,
                    word,
                    pending_roman,
                    *key,
                );
                &&& final(self)@ == next
                &&& r@ == answer
            }),
    {
        let wide = self.registration_sub_mode == Some(InputMode::ZenkakuAscii);
        if key.ctrl && key.key == Key::Char('j') {
            self.registration_sub_mode = None;
            return self.make_composition_response();
        }
        if key.key == Key::Enter {
            return self.confirm_registration();
        }
        if is_cancel(key) {
            return self.cancel_registration();
        }
        if is_backspace(key) {
            return self.registration_backspace();
        }
        match key.key {
            Key::Space => {
                let ch = if wide {
                    '\u{3000}'
                } else {
                    ' '
                };
                self.push_word(ch)
            },
            Key::Char(ch) => {
                if !key.ctrl {
                    let ch = if wide {
                        to_fullwidth(ch)
                    } else {
                        ch
                    };
                    self.push_word(ch)
                } else {
                    EngineResponse::Consumed
                }
            },
            _ => EngineResponse::Consumed,
        }
    }

    fn cancel_registration(&mut self) -> (r: EngineResponse)
        requires
            old(self)@.composition is Registration,
        ensures
            ({
                let reading = old(self)@.composition->Registration_reading;
                let (next, answer) = model::registration_cancelled(old(self)@, reading);
                &&& final(self)@ == next
                &&& r@ == answer
            }),
    {
        self.romaji.clear();
        self.registration_sub_mode = None;
        self.saved_registration = None;
        self.okuri_prefix = None;
        let reading = match &self.composition {
            CompositionState::Registration { reading, .. } => reading.clone(),
            _ => String::new(),
        };
        self.composition = CompositionState::PreComposition {
            reading,
            pending_roman: String::new(),
        };
        self.make_composition_response()
    }

    fn registration_backspace(&mut self) -> (r: EngineResponse)
        requires
            old(self)@.composition is Registration,
        ensures
            ({
                let reading = old(self)@.composition->Registration_reading;
                let okuri = old(self)@.composition->Registration_okuri;
                let word = old(self)@.composition->Registration_word;
                let pending_roman = old(self)@.composition->Registration_pending_roman;
                let (next, answer) = model::word_backspace(
                    old(self)@,
                    reading,
                    okuri,
                    word,
                    pending_roman,
                );
                &&& final(self)@ == next
                &&& r@ == answer
            }),
    {
        if self.romaji.backspace() {
            let pending = self.romaji.pending().to_string();
            if let CompositionState::Registration { pending_roman, .. } = &mut self.composition {
                *pending_roman = pending;
            }
            return self.make_composition_response();
        }
        if let CompositionState::Registration { word, .. } = &mut self.composition {
            let _ = word.pop();
        }
        self.make_composition_response()
    }

    fn register_word(&mut self, dict_key: String, word: String)
        ensures
            final(self)@ == model::registered(old(self)@, Some(dict_key@), word@),
    {
        if let Some(mut user_dict) = self.user_dict.take() {
            user_dict.add_entry(dict_key.as_str(), DictEntry { word, annotation: None });
            self.user_dict = Some(user_dict);
            if self.user_dict_path.is_some() {
                self.save_due = true;
            }
        }
    }
}

impl Default for SkkEngine {
    fn default() -> (r: Self)
        ensures
            r@ == model::initial(config::default_config()),
    {
        SkkEngine::new(Config::default())
    }
}

} // verus!
