//! Koyubi: an SKK input method engine for keyboards without a kana key.
use vstd::prelude::*;

pub mod candidate_ui;
pub mod class_factory;
pub mod composer;
pub mod config;
pub mod dict;
pub mod dict_tool;
pub mod engine_laws;
pub mod globals;
pub mod key_event;
pub mod lang_bar;
pub mod laws;
pub mod model;
pub mod numerals;
pub mod order;
pub mod register;
pub mod romaji;
pub mod romaji_table;
pub mod service_laws;
pub mod skk_format;
pub mod text;
pub mod text_service;
pub mod wide;

verus! {

/// The input mode.
#[derive(Debug, Clone, Copy, PartialEq, Eq, Structural)]
pub enum InputMode {
    /// Keys go to the application (input method off).
    Ascii,
    /// Hiragana input (input method on).
    Hiragana,
    /// Katakana input.
    Katakana,
    /// Half-width katakana input.
    HankakuKatakana,
    /// Full-width letters and digits.
    ZenkakuAscii,
    /// Abbreviations.
    Abbrev,
}

impl Default for InputMode {
    fn default() -> (r: Self)
        ensures
            r == InputMode::Ascii,
    {
        InputMode::Ascii
    }
}

/// A key with its modifiers.
#[derive(Debug, Clone, PartialEq, Eq, Structural)]
pub struct KeyEvent {
    pub key: Key,
    pub shift: bool,
    pub ctrl: bool,
    pub alt: bool,
}

/// A key.
#[derive(Debug, Clone, Copy, PartialEq, Eq, Structural)]
pub enum Key {
    Char(char),
    Enter,
    Space,
    Backspace,
    Escape,
    Tab,
}

/// A candidate for conversion.
#[derive(Debug, Clone, PartialEq, Eq)]
pub struct Candidate {
    pub word: String,
    pub annotation: Option<String>,
}

/// How far a conversion has come.
#[derive(Debug, Clone, PartialEq)]
pub enum CompositionState {
    /// Input goes straight to the application.
    Direct,
    /// The reading is being typed.
    PreComposition { reading: String, pending_roman: String },
    /// A candidate is being chosen.
    Conversion {
        reading: String,
        okuri: Option<String>,
        candidates: Vec<Candidate>,
        selected: usize,
    },
    /// A word is being registered for the reading.
    Registration {
        reading: String,
        okuri: Option<String>,
        word: String,
        pending_roman: String,
    },
}

impl Default for CompositionState {
    fn default() -> (r: Self)
        ensures
            r is Direct,
    {
        CompositionState::Direct
    }
}

/// A candidate as the candidate window shows it.
#[derive(Debug, Clone, PartialEq, Eq)]
pub struct CandidateDisplay {
    pub word: String,
    pub annotation: Option<String>,
}

/// What the candidate window shows.
#[derive(Debug, Clone, PartialEq, Eq)]
pub struct CandidateInfo {
    pub candidates: Vec<CandidateDisplay>,
    pub selected: usize,
}

/// The engine's answer to a key.
#[derive(Debug, Clone, PartialEq)]
pub enum EngineResponse {
    /// Insert this text.
    Commit(String),
    /// Show this text as not yet final.
    UpdateComposition { display: String, candidates: Option<Vec<String>> },
    /// The key was used; nothing changes on the screen.
    Consumed,
    /// The key is not for the engine: hand it to the application.
    PassThrough,
}

} // verus!
