//! What holds of the engine whatever is typed, on chosen keys.
use koyubi::composer::{hiragana_to_katakana, to_fullwidth, SkkEngine};
use koyubi::config::Config;
use koyubi::dict::{DictEntry, DictError, Dictionary};
use koyubi::{CompositionState, EngineResponse, InputMode, Key, KeyEvent};
use std::path::PathBuf;
use std::sync::Arc;

fn event(key: Key, shift: bool, ctrl: bool) -> KeyEvent {
    KeyEvent {
        key,
        shift,
        ctrl,
        alt: false,
    }
}

fn press(engine: &mut SkkEngine, ch: char) -> EngineResponse {
    engine.process_key(event(Key::Char(ch), ch.is_ascii_uppercase(), false))
}

fn type_in(engine: &mut SkkEngine, keys: &str) {
    for ch in keys.chars() {
        if ch == ' ' {
            engine.process_key(event(Key::Space, false, false));
        } else {
            press(engine, ch);
        }
    }
}

fn started_in(mode: InputMode) -> SkkEngine {
    let mut engine = SkkEngine::new(Config {
        initial_mode: mode,
        ..Config::default()
    });
    engine.add_dictionary_owned(Dictionary::from_str(
        "かk /書/欠/\nかんじ /漢字;kanji/感じ/幹事/\nひと /人/\n",
    ));
    engine
}

fn hiragana() -> SkkEngine {
    started_in(InputMode::Hiragana)
}

fn nothing_shown() -> EngineResponse {
    EngineResponse::UpdateComposition {
        display: String::new(),
        candidates: None,
    }
}

const MODES: [InputMode; 6] = [
    InputMode::Ascii,
    InputMode::Hiragana,
    InputMode::Katakana,
    InputMode::HankakuKatakana,
    InputMode::ZenkakuAscii,
    InputMode::Abbrev,
];

#[test]
fn law_control_keys_are_taken_in_every_mode() {
    for mode in MODES {
        for key in [Key::Space, Key::Char('j'), Key::Char(';')] {
            let mut engine = started_in(mode);
            let r = engine.process_key(event(key, false, true));
            assert_ne!(r, EngineResponse::PassThrough);
            let expected = match key {
                Key::Space if mode == InputMode::Ascii => InputMode::Hiragana,
                Key::Space => InputMode::Ascii,
                Key::Char('j') if mode == InputMode::Katakana => InputMode::Katakana,
                Key::Char('j') => InputMode::Hiragana,
                _ => InputMode::Ascii,
            };
            assert_eq!(engine.current_mode(), expected);
        }
    }
}

#[test]
fn law_off_passes_everything_else() {
    for key in [
        Key::Char('a'),
        Key::Enter,
        Key::Space,
        Key::Backspace,
        Key::Escape,
        Key::Tab,
    ] {
        let mut engine = started_in(InputMode::Ascii);
        let r = engine.process_key(event(key, false, false));
        assert_eq!(r, EngineResponse::PassThrough);
        assert_eq!(engine.current_mode(), InputMode::Ascii);
        assert_eq!(engine.composition_text(), None);
    }
}

#[test]
fn law_ctrl_h_does_what_backspace_does() {
    for keys in ["", "k", "ky", "Kan", "K", "Kanji ", "Zu ", "Zu a", "Zu ak", "Zu lab"] {
        let mut a = hiragana();
        let mut b = hiragana();
        type_in(&mut a, keys);
        type_in(&mut b, keys);
        let ra = a.process_key(event(Key::Char('h'), false, true));
        let rb = b.process_key(event(Key::Backspace, false, false));
        assert_eq!(ra, rb, "after {:?}", keys);
        assert_eq!(a.composition_text(), b.composition_text());
    }
}

#[test]
fn ctrl_h_takes_back_pending_romaji() {
    let mut engine = hiragana();
    type_in(&mut engine, "ky");
    let r = engine.process_key(event(Key::Char('h'), false, true));
    assert_eq!(
        r,
        EngineResponse::UpdateComposition {
            display: "k".to_string(),
            candidates: None,
        }
    );
}

#[test]
fn law_passed_keys_change_nothing() {
    let mut engine = hiragana();
    type_in(&mut engine, "Kanji ");
    let r = engine.process_key(event(Key::Tab, false, false));
    assert_eq!(r, EngineResponse::PassThrough);
    assert_eq!(engine.composition_text(), Some("▼漢字".to_string()));
}

#[test]
fn enter_takes_pending_romaji() {
    let mut engine = hiragana();
    type_in(&mut engine, "k");
    let r = engine.process_key(event(Key::Enter, false, false));
    assert_eq!(r, nothing_shown());
    assert!(!engine.has_pending_romaji());
    assert_eq!(engine.composition_text(), None);
    let r = engine.process_key(event(Key::Enter, false, false));
    assert_eq!(r, EngineResponse::PassThrough);
}

#[test]
fn law_used_keys_say_what_is_shown() {
    for key in [
        event(Key::Space, false, true),
        event(Key::Char(';'), false, true),
        event(Key::Char('j'), false, true),
        event(Key::Char('l'), false, false),
        event(Key::Char('q'), false, false),
        event(Key::Char('L'), true, false),
    ] {
        let mut engine = hiragana();
        assert_eq!(engine.process_key(key.clone()), EngineResponse::Consumed);
        let mut engine = hiragana();
        type_in(&mut engine, "k");
        assert_eq!(engine.process_key(key), nothing_shown());
        assert_eq!(engine.composition_text(), None);
    }
    let mut engine = hiragana();
    type_in(&mut engine, "Kanji");
    assert_eq!(engine.process_key(event(Key::Char(';'), false, true)), nothing_shown());
    let mut engine = hiragana();
    type_in(&mut engine, "K");
    assert_eq!(engine.process_key(event(Key::Enter, false, false)), nothing_shown());
    assert_eq!(engine.composition_text(), None);
}

#[test]
fn space_without_a_reading_drops_pending_romaji() {
    let mut engine = hiragana();
    type_in(&mut engine, "K");
    let r = engine.process_key(event(Key::Space, false, false));
    assert_eq!(r, EngineResponse::Consumed);
    assert_eq!(engine.composition_text(), Some("▽".to_string()));
    assert!(!engine.has_pending_romaji());
    assert_eq!(
        *engine.composition_state(),
        CompositionState::PreComposition {
            reading: String::new(),
            pending_roman: String::new(),
        }
    );
}

#[test]
fn law_pending_is_the_same_everywhere() {
    let mut engine = hiragana();
    type_in(&mut engine, "Aiu k1");
    assert_eq!(
        *engine.composition_state(),
        CompositionState::Registration {
            reading: "あいう".to_string(),
            okuri: None,
            word: "1".to_string(),
            pending_roman: String::new(),
        }
    );
    assert_eq!(engine.composition_text(), Some("1[登録:あいう]".to_string()));
    type_in(&mut engine, "Aoen");
    let r = engine.process_key(event(Key::Space, false, false));
    let shown = "1▽あおえん[登録:あいう]".to_string();
    assert_eq!(
        r,
        EngineResponse::UpdateComposition {
            display: shown.clone(),
            candidates: None,
        }
    );
    assert_eq!(engine.composition_text(), Some(shown));
    let r = engine.process_key(event(Key::Space, false, false));
    assert_eq!(r, EngineResponse::Consumed);
}

#[test]
fn law_enter_and_escape_have_ctrl_forms() {
    for keys in ["K", "Kanj", "Kanji", "Kanji ", "Aiu ka"] {
        for (key, letter) in [(Key::Enter, 'j'), (Key::Escape, 'g')] {
            let mut one = hiragana();
            let mut other = hiragana();
            type_in(&mut one, keys);
            type_in(&mut other, keys);
            assert_eq!(
                one.process_key(event(key, false, false)),
                other.process_key(event(Key::Char(letter), false, true))
            );
            assert_eq!(one.composition_state(), other.composition_state());
        }
    }
}

#[test]
fn law_space_after_cancel_shows_the_first_candidate() {
    let mut engine = hiragana();
    type_in(&mut engine, "Kanji  ");
    assert_eq!(engine.composition_text(), Some("▼感じ".to_string()));
    engine.process_key(event(Key::Escape, false, false));
    assert_eq!(engine.composition_text(), Some("▽かんじ".to_string()));
    type_in(&mut engine, " ");
    assert_eq!(engine.composition_text(), Some("▼漢字".to_string()));
}

#[test]
fn law_cancel_goes_back_step_by_step() {
    for cancel in [event(Key::Char('g'), false, true), event(Key::Escape, false, false)] {
        let mut engine = hiragana();
        type_in(&mut engine, "Kanji ");
        engine.process_key(cancel.clone());
        assert_eq!(engine.composition_text(), Some("▽かんじ".to_string()));
        engine.process_key(cancel);
        assert_eq!(engine.composition_text(), None);
        assert_eq!(engine.composition_state(), &CompositionState::Direct);
    }
}

#[test]
fn law_nested_cancel_resumes_the_registration() {
    let mut engine = hiragana();
    type_in(&mut engine, "Zu aKanji");
    assert_eq!(
        engine.composition_text(),
        Some("あ▽かんじ[登録:ず]".to_string())
    );
    engine.process_key(event(Key::Escape, false, false));
    assert_eq!(engine.composition_text(), Some("あ[登録:ず]".to_string()));
}

#[test]
fn law_nested_confirm_goes_into_the_word() {
    let mut engine = hiragana();
    type_in(&mut engine, "Zu aKanji ");
    let r = engine.process_key(event(Key::Enter, false, false));
    assert_eq!(
        r,
        EngineResponse::UpdateComposition {
            display: "あ漢字[登録:ず]".to_string(),
            candidates: None,
        }
    );
}

#[test]
fn law_no_second_registration_within_one() {
    let mut engine = hiragana();
    type_in(&mut engine, "Zu Ze ");
    assert_eq!(engine.composition_text(), Some("▽ぜ[登録:ず]".to_string()));
    type_in(&mut engine, "  ");
    assert_eq!(engine.composition_text(), Some("▽ぜ[登録:ず]".to_string()));
}

#[test]
fn law_next_then_previous_comes_back() {
    let mut engine = hiragana();
    type_in(&mut engine, "Kanji ");
    let before = engine.composition_state().clone();
    type_in(&mut engine, " x");
    assert_eq!(engine.composition_state(), &before);
}

#[test]
fn law_digits_choose_on_the_page() {
    let words: Vec<String> = (1..=20).map(|i| format!("語{}", i)).collect();
    let mut engine = SkkEngine::new(Config {
        initial_mode: InputMode::Hiragana,
        ..Config::default()
    });
    engine.add_dictionary_owned(Dictionary::from_str(&format!("ご /{}/", words.join("/"))));
    type_in(&mut engine, "Go          ");
    assert_eq!(engine.candidate_info().unwrap().selected, 9);
    assert_eq!(press(&mut engine, '3'), EngineResponse::Commit("語12".into()));
    type_in(&mut engine, "Go                   ");
    assert_eq!(engine.candidate_info().unwrap().selected, 18);
    assert_eq!(press(&mut engine, '3'), EngineResponse::Consumed);
    assert_eq!(press(&mut engine, '2'), EngineResponse::Commit("語20".into()));
}

#[test]
fn law_mode_is_kept_while_typing() {
    for keys in ["Ka", "Kanji ", "Zu "] {
        for ch in ['l', 'L'] {
            let mut engine = hiragana();
            type_in(&mut engine, keys);
            press(&mut engine, ch);
            assert_eq!(engine.current_mode(), InputMode::Hiragana);
        }
    }
}

#[test]
fn law_user_words_first_and_none_twice() {
    let mut engine = hiragana();
    engine.add_dictionary(Arc::new(Dictionary::from_str("かんじ /監事/漢字/")));
    engine.use_user_dictionary(Dictionary::from_str("かんじ /幹事;own/"));
    type_in(&mut engine, "Kanji ");
    let info = engine.candidate_info().unwrap();
    let found: Vec<&str> = info.candidates.iter().map(|c| c.word.as_str()).collect();
    assert_eq!(found, vec!["幹事", "漢字", "感じ", "監事"]);
    assert_eq!(info.candidates[0].annotation.as_deref(), Some("own"));
    assert_eq!(info.candidates[1].annotation.as_deref(), Some("kanji"));
}

#[test]
fn law_registered_word_comes_first_and_is_to_be_saved() {
    let mut engine = hiragana();
    let missing: Result<Dictionary, DictError> = Err(DictError::Encoding("none".to_string()));
    engine.set_user_dictionary(PathBuf::from("user-dict.skk"), missing);
    assert_eq!(
        engine.user_dictionary_path(),
        Some(&PathBuf::from("user-dict.skk"))
    );
    assert_eq!(engine.take_save_request(), None);
    type_in(&mut engine, "Kanji    ");
    assert_eq!(engine.composition_text(), Some("[登録:かんじ]".to_string()));
    type_in(&mut engine, "aa");
    let r = engine.process_key(event(Key::Enter, false, false));
    assert_eq!(r, EngineResponse::Commit("ああ".into()));
    assert_eq!(
        engine.take_save_request(),
        Some("かんじ /ああ/".to_string())
    );
    assert_eq!(engine.take_save_request(), None);
    type_in(&mut engine, "Kanji ");
    assert_eq!(engine.composition_text(), Some("▼ああ".to_string()));
}

#[test]
fn a_user_dictionary_without_a_file_is_never_saved() {
    let mut engine = hiragana();
    engine.set_user_dictionary(
        PathBuf::from("user-dict.skk"),
        Ok(Dictionary::from_str("かな /仮名/")),
    );
    type_in(&mut engine, "Kanji    aa");
    engine.process_key(event(Key::Enter, false, false));
    engine.use_user_dictionary(Dictionary::new());
    assert_eq!(engine.user_dictionary_path(), None);
    assert_eq!(engine.take_save_request(), None);
    type_in(&mut engine, "Kanji    ii");
    engine.process_key(event(Key::Enter, false, false));
    assert_eq!(engine.take_save_request(), None);
    assert!(engine.user_dictionary().unwrap().lookup("かんじ").is_some());
}

#[test]
fn registration_with_okuri_uses_the_consonant() {
    let mut engine = hiragana();
    engine.use_user_dictionary(Dictionary::new());
    type_in(&mut engine, "NoMu");
    assert_eq!(engine.composition_text(), Some("[登録:の]".to_string()));
    type_in(&mut engine, "a");
    let r = engine.process_key(event(Key::Enter, false, false));
    assert_eq!(r, EngineResponse::Commit("あむ".into()));
    let entries = engine.user_dictionary().unwrap().lookup("のm").unwrap();
    assert_eq!(
        entries,
        &[DictEntry {
            word: "あ".to_string(),
            annotation: None,
        }]
    );
    assert_eq!(engine.take_save_request(), None);
}

#[test]
fn set_user_dictionary_keeps_what_was_loaded() {
    let mut engine = hiragana();
    engine.set_user_dictionary(
        PathBuf::from("u"),
        Ok(Dictionary::from_str("ひと /ヒト/")),
    );
    type_in(&mut engine, "Hito ");
    assert_eq!(engine.composition_text(), Some("▼ヒト".to_string()));
}

#[test]
fn law_reset_shows_nothing() {
    for keys in ["k", "Ka", "Kanji ", "Zu a", "Zu Ka"] {
        let mut engine = hiragana();
        type_in(&mut engine, keys);
        assert!(engine.composition_text().is_some());
        engine.reset_state();
        assert_eq!(engine.composition_text(), None);
        assert_eq!(engine.composition_state(), &CompositionState::Direct);
        assert_eq!(engine.current_mode(), InputMode::Hiragana);
    }
}

#[test]
fn law_keys_keep_the_settings() {
    let mut engine = hiragana();
    type_in(&mut engine, "Kanji l L q");
    assert_eq!(engine.config().toggle_kana, 'q');
    assert_eq!(engine.config().initial_mode, InputMode::Hiragana);
}

#[test]
fn law_katakana_twice_is_once() {
    let once = hiragana_to_katakana("ぁあんゔゕゖ漢字aア");
    assert_eq!(once, "ァアンヴヵヶ漢字aア");
    assert_eq!(hiragana_to_katakana(&once), once);
}

#[test]
fn law_fullwidth_of_each_printable_character() {
    for code in 0x21u32..=0x7E {
        let ch = char::from_u32(code).unwrap();
        assert_eq!(to_fullwidth(ch) as u32, code + 0xFEE0);
    }
    assert_eq!(to_fullwidth(' '), ' ');
    assert_eq!(to_fullwidth('\u{7F}'), '\u{7F}');
    assert_eq!(to_fullwidth('あ'), 'あ');
}

#[test]
fn full_width_mode_leaves_control_characters() {
    let mut engine = started_in(InputMode::ZenkakuAscii);
    assert_eq!(press(&mut engine, '\u{1}'), EngineResponse::PassThrough);
    assert_eq!(press(&mut engine, '\u{9F}'), EngineResponse::PassThrough);
    assert_eq!(press(&mut engine, 'é'), EngineResponse::Commit("é".into()));
    assert_eq!(press(&mut engine, '!'), EngineResponse::Commit("！".into()));
}

#[test]
fn settings_move_the_keys() {
    let mut engine = SkkEngine::new(Config {
        initial_mode: InputMode::Hiragana,
        toggle_kana: ':',
        enter_ascii: ';',
        enter_zenkaku: 'Q',
        prev_candidate: '-',
        ..Config::default()
    });
    press(&mut engine, ':');
    assert_eq!(engine.current_mode(), InputMode::Katakana);
    press(&mut engine, 'Q');
    assert_eq!(engine.current_mode(), InputMode::ZenkakuAscii);
    press(&mut engine, ';');
    assert_eq!(engine.current_mode(), InputMode::Ascii);
}

#[test]
fn sentence_with_conversions() {
    let mut engine = SkkEngine::new(Config {
        initial_mode: InputMode::Hiragana,
        ..Config::default()
    });
    engine.add_dictionary_owned(Dictionary::from_str("ぬi /脱/\nはきもの /履物/\n"));
    let mut text = String::new();
    let mut seen: Vec<String> = Vec::new();
    for ch in "kokodeHakimono woNuIdekudasai".chars() {
        let answer = if ch == ' ' {
            engine.process_key(event(Key::Space, false, false))
        } else {
            press(&mut engine, ch)
        };
        if let EngineResponse::Commit(part) = answer {
            text.push_str(&part);
        }
        if let Some(shown) = engine.composition_text() {
            seen.push(shown);
        }
    }
    assert_eq!(text, "ここで履物を脱いでください");
    for shown in ["▽は", "▽はk", "▽はき", "▽はきもの", "▼履物", "▽ぬ", "▼脱い"] {
        assert!(seen.contains(&shown.to_string()), "{}", shown);
    }
}

#[test]
fn law_updates_say_what_is_shown_and_offered() {
    for keys in ["k", "kk", "Kanji  x x", "KaKu  ", "Hitok", "Inu", "Inulab", "InuKanji  ", "n"] {
        let mut engine = hiragana();
        for ch in keys.chars() {
            let r = if ch == ' ' {
                engine.process_key(event(Key::Space, false, false))
            } else {
                press(&mut engine, ch)
            };
            if let EngineResponse::UpdateComposition { display, candidates } = r {
                assert_eq!(display, engine.composition_text().unwrap_or_default(), "{}", keys);
                let offered = engine.candidate_info().map(|info| {
                    info.candidates.iter().map(|c| c.word.clone()).collect::<Vec<String>>()
                });
                assert_eq!(candidates, offered, "{}", keys);
            }
        }
    }
}

#[test]
fn law_user_dictionary_changes_only_with_a_word() {
    let user_text = |engine: &SkkEngine| engine.user_dictionary().unwrap().to_skk_string();
    let with_words = || {
        let mut engine = hiragana();
        engine.use_user_dictionary(Dictionary::from_str("かな /仮名/"));
        engine
    };
    for (keys, last) in [
        ("Kanji ", event(Key::Enter, false, false)),
        ("Inu ", event(Key::Enter, false, false)),
        ("Inu aa", event(Key::Escape, false, false)),
        ("Inu laa", event(Key::Char('j'), false, true)),
        ("Inu aa", event(Key::Char(';'), false, true)),
    ] {
        let mut engine = with_words();
        type_in(&mut engine, keys);
        engine.process_key(last);
        assert_eq!(user_text(&engine), "かな /仮名/", "{}", keys);
    }
    let mut engine = with_words();
    type_in(&mut engine, "Inu aan");
    let r = engine.process_key(event(Key::Char('j'), false, true));
    assert_eq!(r, EngineResponse::Commit("ああん".into()));
    assert_eq!(engine.composition_text(), None);
    assert_eq!(user_text(&engine), "いぬ /ああん/\nかな /仮名/");
}

#[test]
fn law_spaces_then_cancel_give_the_reading_back() {
    for cancel in [
        event(Key::Escape, false, false),
        event(Key::Char('g'), false, true),
    ] {
        for (spaces, word) in [(1usize, "漢字"), (2, "感じ"), (3, "幹事")] {
            let mut engine = hiragana();
            type_in(&mut engine, "Kanji");
            for _ in 0..spaces {
                engine.process_key(event(Key::Space, false, false));
            }
            assert_eq!(engine.composition_text(), Some(format!("▼{}", word)));
            let r = engine.process_key(cancel.clone());
            assert!(matches!(r, EngineResponse::UpdateComposition { .. }));
            assert_eq!(engine.composition_text(), Some("▽かんじ".to_string()));
            assert_eq!(engine.current_mode(), InputMode::Hiragana);
            type_in(&mut engine, " ");
            assert_eq!(engine.composition_text(), Some("▼漢字".to_string()));
        }
    }
    let mut engine = hiragana();
    type_in(&mut engine, "KaKu");
    assert_eq!(engine.composition_text(), Some("▼書く".to_string()));
    engine.process_key(event(Key::Escape, false, false));
    assert_eq!(engine.composition_text(), Some("▽か".to_string()));
}

#[test]
fn law_previous_of_the_first_is_the_reading() {
    let mut engine = hiragana();
    type_in(&mut engine, "Kanji ");
    press(&mut engine, 'x');
    assert_eq!(engine.composition_text(), Some("▽かんじ".to_string()));
}

#[test]
fn law_registered_words_are_offered_again() {
    for (register, again) in [("Inu aa", "Inu "), ("NoMuaa", "NoMu"), ("NoMuaa", "NoMa")] {
        let mut engine = hiragana();
        engine.use_user_dictionary(Dictionary::new());
        type_in(&mut engine, register);
        engine.process_key(event(Key::Enter, false, false));
        type_in(&mut engine, again);
        let info = engine.candidate_info().unwrap();
        assert!(info.candidates.iter().any(|c| c.word == "ああ"), "{}", again);
    }
}
