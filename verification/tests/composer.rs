//! Keys in, text out: the engine in all its modes.
use koyubi::composer::{hiragana_to_katakana, to_fullwidth, SkkEngine};
use koyubi::config::Config;
use koyubi::dict::{DictEntry, Dictionary};
use koyubi::{CompositionState, EngineResponse, InputMode, Key, KeyEvent};

fn engine_in(mode: InputMode) -> SkkEngine {
    SkkEngine::new(Config {
        initial_mode: mode,
        ..Config::default()
    })
}

// === テストヘルパー ===

fn key(ch: char) -> KeyEvent {
    KeyEvent {
        key: Key::Char(ch),
        shift: false,
        ctrl: false,
        alt: false,
    }
}

fn shift_key(ch: char) -> KeyEvent {
    KeyEvent {
        key: Key::Char(ch),
        shift: true,
        ctrl: false,
        alt: false,
    }
}

fn ctrl_key(ch: char) -> KeyEvent {
    KeyEvent {
        key: Key::Char(ch),
        shift: false,
        ctrl: true,
        alt: false,
    }
}

fn ctrl_space() -> KeyEvent {
    KeyEvent {
        key: Key::Space,
        shift: false,
        ctrl: true,
        alt: false,
    }
}

fn space() -> KeyEvent {
    KeyEvent {
        key: Key::Space,
        shift: false,
        ctrl: false,
        alt: false,
    }
}

fn enter() -> KeyEvent {
    KeyEvent {
        key: Key::Enter,
        shift: false,
        ctrl: false,
        alt: false,
    }
}

fn backspace() -> KeyEvent {
    KeyEvent {
        key: Key::Backspace,
        shift: false,
        ctrl: false,
        alt: false,
    }
}

fn escape() -> KeyEvent {
    KeyEvent {
        key: Key::Escape,
        shift: false,
        ctrl: false,
        alt: false,
    }
}

fn hiragana_engine() -> SkkEngine {
    engine_in(InputMode::Hiragana)
}

fn engine_with_dict() -> SkkEngine {
    let mut engine = hiragana_engine();
    engine.add_dictionary_owned(test_dict());
    engine
}

fn test_dict() -> Dictionary {
    Dictionary::from_str(
        "\
おおk /大/多/
かk /書/欠/掛/
たべr /食/
かんじ /漢字/感じ/幹事/
とうきょう /東京/
にほん /日本/
ひと /人/
き /木/気/
",
    )
}

// === IME 制御テスト ===

#[test]
fn test_ctrl_space_toggle() {
    let mut engine = SkkEngine::default();
    assert_eq!(engine.current_mode(), InputMode::Ascii);

    assert_eq!(engine.process_key(ctrl_space()), EngineResponse::Consumed);
    assert_eq!(engine.current_mode(), InputMode::Hiragana);

    assert_eq!(engine.process_key(ctrl_space()), EngineResponse::Consumed);
    assert_eq!(engine.current_mode(), InputMode::Ascii);
}

#[test]
fn test_ctrl_j_ime_on() {
    let mut engine = SkkEngine::default();
    assert_eq!(engine.process_key(ctrl_key('j')), EngineResponse::Consumed);
    assert_eq!(engine.current_mode(), InputMode::Hiragana);
}

#[test]
fn test_ctrl_semicolon_ime_off() {
    let mut engine = hiragana_engine();
    assert_eq!(engine.process_key(ctrl_key(';')), EngineResponse::Consumed);
    assert_eq!(engine.current_mode(), InputMode::Ascii);
}

// === ASCII モードテスト ===

#[test]
fn test_ascii_passthrough() {
    let mut engine = SkkEngine::default();
    assert_eq!(engine.process_key(key('a')), EngineResponse::PassThrough);
    assert_eq!(engine.process_key(space()), EngineResponse::PassThrough);
    assert_eq!(engine.process_key(enter()), EngineResponse::PassThrough);
}

// === Direct モード（ひらがな直接入力）テスト ===

#[test]
fn test_direct_basic_kana() {
    let mut engine = hiragana_engine();
    // "ka" → "か"
    assert_eq!(
        engine.process_key(key('k')),
        EngineResponse::UpdateComposition {
            display: "k".into(),
            candidates: None
        }
    );
    assert_eq!(
        engine.process_key(key('a')),
        EngineResponse::Commit("か".into())
    );
    assert_eq!(engine.composition_text(), None);
}

#[test]
fn test_direct_sokuon() {
    let mut engine = hiragana_engine();
    engine.process_key(key('k'));
    let r = engine.process_key(key('k'));
    assert_eq!(r, EngineResponse::Commit("っ".into()));
    assert_eq!(engine.composition_text(), Some("k".to_string()));

    assert_eq!(
        engine.process_key(key('a')),
        EngineResponse::Commit("か".into())
    );
    assert_eq!(engine.composition_text(), None);
}

#[test]
fn test_direct_n_before_consonant() {
    let mut engine = hiragana_engine();
    // "kan" → "か" + pending "n"
    engine.process_key(key('k'));
    engine.process_key(key('a'));
    engine.process_key(key('n'));
    assert_eq!(engine.composition_text(), Some("n".to_string()));

    // "nk" → "ん" + pending "k"
    let r = engine.process_key(key('k'));
    assert_eq!(r, EngineResponse::Commit("ん".into()));
    assert_eq!(engine.composition_text(), Some("k".to_string()));
}

#[test]
fn test_direct_enter_flushes_n() {
    let mut engine = hiragana_engine();
    engine.process_key(key('n'));
    assert_eq!(
        engine.process_key(enter()),
        EngineResponse::Commit("ん".into())
    );
}

#[test]
fn test_direct_backspace_pending() {
    let mut engine = hiragana_engine();
    engine.process_key(key('k'));
    assert_eq!(engine.composition_text(), Some("k".to_string()));

    engine.process_key(backspace());
    assert_eq!(engine.composition_text(), None);
}

#[test]
fn test_direct_passthrough() {
    let mut engine = hiragana_engine();
    assert_eq!(engine.process_key(space()), EngineResponse::PassThrough);
}

// === モード切り替えテスト ===

#[test]
fn test_l_to_ascii() {
    let mut engine = hiragana_engine();
    engine.process_key(key('l'));
    assert_eq!(engine.current_mode(), InputMode::Ascii);
}

#[test]
fn test_l_flushes_pending_n() {
    let mut engine = hiragana_engine();
    engine.process_key(key('n'));
    let r = engine.process_key(key('l'));
    assert_eq!(r, EngineResponse::Commit("ん".into()));
    assert_eq!(engine.current_mode(), InputMode::Ascii);
}

#[test]
fn test_shift_l_to_zenkaku() {
    let mut engine = hiragana_engine();
    engine.process_key(shift_key('L'));
    assert_eq!(engine.current_mode(), InputMode::ZenkakuAscii);
}

// === カタカナモードテスト ===

fn katakana_engine() -> SkkEngine {
    engine_in(InputMode::Katakana)
}

#[test]
fn test_q_toggle_hiragana_to_katakana() {
    let mut engine = hiragana_engine();
    let r = engine.process_key(key('q'));
    assert_eq!(r, EngineResponse::Consumed);
    assert_eq!(engine.current_mode(), InputMode::Katakana);
}

#[test]
fn test_q_toggle_katakana_to_hiragana() {
    let mut engine = katakana_engine();
    let r = engine.process_key(key('q'));
    assert_eq!(r, EngineResponse::Consumed);
    assert_eq!(engine.current_mode(), InputMode::Hiragana);
}

#[test]
fn test_katakana_basic_input() {
    let mut engine = katakana_engine();
    // "ka" → "カ"
    engine.process_key(key('k'));
    let r = engine.process_key(key('a'));
    assert_eq!(r, EngineResponse::Commit("カ".into()));
}

#[test]
fn test_katakana_sokuon() {
    let mut engine = katakana_engine();
    engine.process_key(key('k'));
    let r = engine.process_key(key('k'));
    assert_eq!(r, EngineResponse::Commit("ッ".into()));

    let r = engine.process_key(key('a'));
    assert_eq!(r, EngineResponse::Commit("カ".into()));
}

#[test]
fn test_katakana_enter_flushes_n() {
    let mut engine = katakana_engine();
    engine.process_key(key('n'));
    let r = engine.process_key(enter());
    assert_eq!(r, EngineResponse::Commit("ン".into()));
}

#[test]
fn test_q_toggle_flushes_pending_as_current_mode() {
    // ひらがなモードで "n" → q → "ん" がひらがなで確定、カタカナモードへ
    let mut engine = hiragana_engine();
    engine.process_key(key('n'));
    let r = engine.process_key(key('q'));
    assert_eq!(r, EngineResponse::Commit("ん".into()));
    assert_eq!(engine.current_mode(), InputMode::Katakana);
}

#[test]
fn test_q_toggle_from_katakana_flushes_as_katakana() {
    // カタカナモードで "n" → q → "ン" がカタカナで確定、ひらがなモードへ
    let mut engine = katakana_engine();
    engine.process_key(key('n'));
    let r = engine.process_key(key('q'));
    assert_eq!(r, EngineResponse::Commit("ン".into()));
    assert_eq!(engine.current_mode(), InputMode::Hiragana);
}

#[test]
fn test_katakana_precomp_same_as_hiragana() {
    // カタカナモードでも▽モードの読みはひらがな
    let mut engine = katakana_engine();
    engine.process_key(shift_key('K'));
    engine.process_key(key('a'));
    assert_eq!(engine.composition_text(), Some("▽か".to_string()));
}

#[test]
fn test_katakana_l_flushes_as_katakana() {
    let mut engine = katakana_engine();
    engine.process_key(key('n'));
    let r = engine.process_key(key('l'));
    assert_eq!(r, EngineResponse::Commit("ン".into()));
    assert_eq!(engine.current_mode(), InputMode::Ascii);
}

#[test]
fn test_katakana_confirm_and_continue() {
    // カタカナモードで▼確定後の続き入力もカタカナ
    let mut engine = katakana_engine();
    engine.add_dictionary_owned(test_dict());
    engine.process_key(shift_key('K'));
    engine.process_key(key('a'));
    engine.process_key(key('n'));
    engine.process_key(key('j'));
    engine.process_key(key('i'));
    engine.process_key(space()); // ▼漢字

    let r = engine.process_key(key('a'));
    // 漢字（辞書候補はそのまま）+ ア（カタカナ）
    assert_eq!(r, EngineResponse::Commit("漢字ア".into()));
}

// === ZenkakuAscii モードテスト ===

fn zenkaku_engine() -> SkkEngine {
    engine_in(InputMode::ZenkakuAscii)
}

#[test]
fn test_zenkaku_ascii_basic() {
    let mut engine = zenkaku_engine();
    assert_eq!(
        engine.process_key(key('a')),
        EngineResponse::Commit("\u{FF41}".into()) // ａ
    );
    assert_eq!(
        engine.process_key(key('z')),
        EngineResponse::Commit("\u{FF5A}".into()) // ｚ
    );
}

#[test]
fn test_zenkaku_ascii_uppercase() {
    let mut engine = zenkaku_engine();
    assert_eq!(
        engine.process_key(shift_key('A')),
        EngineResponse::Commit("\u{FF21}".into()) // Ａ
    );
    assert_eq!(
        engine.process_key(shift_key('Z')),
        EngineResponse::Commit("\u{FF3A}".into()) // Ｚ
    );
}

#[test]
fn test_zenkaku_ascii_digits() {
    let mut engine = zenkaku_engine();
    assert_eq!(
        engine.process_key(key('0')),
        EngineResponse::Commit("\u{FF10}".into()) // ０
    );
    assert_eq!(
        engine.process_key(key('9')),
        EngineResponse::Commit("\u{FF19}".into()) // ９
    );
}

#[test]
fn test_zenkaku_ascii_symbols() {
    let mut engine = zenkaku_engine();
    assert_eq!(
        engine.process_key(key('!')),
        EngineResponse::Commit("\u{FF01}".into()) // ！
    );
    assert_eq!(
        engine.process_key(key('~')),
        EngineResponse::Commit("\u{FF5E}".into()) // ～
    );
}

#[test]
fn test_zenkaku_ascii_space() {
    let mut engine = zenkaku_engine();
    assert_eq!(
        engine.process_key(space()),
        EngineResponse::Commit("\u{3000}".into()) // 全角スペース
    );
}

#[test]
fn test_zenkaku_l_to_ascii() {
    let mut engine = zenkaku_engine();
    assert_eq!(engine.process_key(key('l')), EngineResponse::Consumed);
    assert_eq!(engine.current_mode(), InputMode::Ascii);
}

#[test]
fn test_zenkaku_q_to_hiragana() {
    let mut engine = zenkaku_engine();
    assert_eq!(engine.process_key(key('q')), EngineResponse::Consumed);
    assert_eq!(engine.current_mode(), InputMode::Hiragana);
}

#[test]
fn test_zenkaku_ctrl_j_to_hiragana() {
    let mut engine = zenkaku_engine();
    assert_eq!(engine.process_key(ctrl_key('j')), EngineResponse::Consumed);
    assert_eq!(engine.current_mode(), InputMode::Hiragana);
}

#[test]
fn test_zenkaku_passthrough_keys() {
    let mut engine = zenkaku_engine();
    assert_eq!(engine.process_key(enter()), EngineResponse::PassThrough);
    assert_eq!(engine.process_key(backspace()), EngineResponse::PassThrough);
    assert_eq!(engine.process_key(escape()), EngineResponse::PassThrough);
}

#[test]
fn test_enter_zenkaku_from_hiragana() {
    let mut engine = hiragana_engine();
    engine.process_key(shift_key('L'));
    assert_eq!(engine.current_mode(), InputMode::ZenkakuAscii);

    assert_eq!(
        engine.process_key(key('a')),
        EngineResponse::Commit("\u{FF41}".into())
    );
}

#[test]
fn test_zenkaku_roundtrip() {
    let mut engine = zenkaku_engine();
    // ZenkakuAscii → l → Ascii → Ctrl-Space → Hiragana → L → ZenkakuAscii
    engine.process_key(key('l'));
    assert_eq!(engine.current_mode(), InputMode::Ascii);
    engine.process_key(ctrl_space());
    assert_eq!(engine.current_mode(), InputMode::Hiragana);
    engine.process_key(shift_key('L'));
    assert_eq!(engine.current_mode(), InputMode::ZenkakuAscii);
}

#[test]
fn test_to_fullwidth() {
    assert_eq!(to_fullwidth('a'), '\u{FF41}');
    assert_eq!(to_fullwidth('A'), '\u{FF21}');
    assert_eq!(to_fullwidth('0'), '\u{FF10}');
    assert_eq!(to_fullwidth('!'), '\u{FF01}');
    assert_eq!(to_fullwidth('~'), '\u{FF5E}');
    // ASCII 範囲外はそのまま
    assert_eq!(to_fullwidth(' '), ' ');
}

// === PreComposition モード（▽モード）テスト ===

#[test]
fn test_start_precomposition() {
    let mut engine = hiragana_engine();
    let r = engine.process_key(shift_key('K'));
    assert_eq!(
        r,
        EngineResponse::UpdateComposition {
            display: "▽k".into(),
            candidates: None
        }
    );
}

#[test]
fn test_precomposition_reading() {
    let mut engine = hiragana_engine();
    engine.process_key(shift_key('K'));
    engine.process_key(key('a'));
    assert_eq!(engine.composition_text(), Some("▽か".to_string()));

    engine.process_key(key('n'));
    assert_eq!(engine.composition_text(), Some("▽かn".to_string()));

    engine.process_key(key('j'));
    assert_eq!(engine.composition_text(), Some("▽かんj".to_string()));

    engine.process_key(key('i'));
    assert_eq!(engine.composition_text(), Some("▽かんじ".to_string()));
}

#[test]
fn test_precomposition_cancel() {
    let mut engine = hiragana_engine();
    engine.process_key(shift_key('K'));
    engine.process_key(key('a'));
    engine.process_key(ctrl_key('g'));
    assert_eq!(engine.composition_text(), None);
    assert!(matches!(engine.composition_state(), CompositionState::Direct));
}

#[test]
fn test_precomposition_cancel_escape() {
    let mut engine = hiragana_engine();
    engine.process_key(shift_key('K'));
    engine.process_key(key('a'));
    engine.process_key(escape());
    assert_eq!(engine.composition_text(), None);
}

#[test]
fn test_precomposition_confirm_hiragana() {
    let mut engine = hiragana_engine();
    engine.process_key(shift_key('K'));
    engine.process_key(key('a'));
    engine.process_key(key('n'));
    engine.process_key(key('j'));
    engine.process_key(key('i'));

    let r = engine.process_key(ctrl_key('j'));
    assert_eq!(r, EngineResponse::Commit("かんじ".into()));
    assert!(matches!(engine.composition_state(), CompositionState::Direct));
}

#[test]
fn test_precomposition_confirm_enter() {
    let mut engine = hiragana_engine();
    engine.process_key(shift_key('T'));
    engine.process_key(key('e'));
    engine.process_key(key('s'));
    engine.process_key(key('u'));
    engine.process_key(key('t'));
    engine.process_key(key('o'));

    let r = engine.process_key(enter());
    assert_eq!(r, EngineResponse::Commit("てすと".into()));
}

#[test]
fn test_precomposition_katakana() {
    let mut engine = hiragana_engine();
    engine.process_key(shift_key('K'));
    engine.process_key(key('a'));
    engine.process_key(key('t'));
    engine.process_key(key('a'));
    engine.process_key(key('k'));
    engine.process_key(key('a'));
    engine.process_key(key('n'));
    engine.process_key(key('a'));

    let r = engine.process_key(key('q'));
    assert_eq!(r, EngineResponse::Commit("カタカナ".into()));
}

#[test]
fn test_precomposition_backspace_pending() {
    let mut engine = hiragana_engine();
    engine.process_key(shift_key('K'));
    engine.process_key(key('a'));
    engine.process_key(key('s'));
    assert_eq!(engine.composition_text(), Some("▽かs".to_string()));

    engine.process_key(backspace());
    assert_eq!(engine.composition_text(), Some("▽か".to_string()));
}

#[test]
fn test_precomposition_backspace_reading() {
    let mut engine = hiragana_engine();
    engine.process_key(shift_key('K'));
    engine.process_key(key('a'));
    assert_eq!(engine.composition_text(), Some("▽か".to_string()));

    engine.process_key(backspace());
    // 読みが空 → キャンセル
    assert_eq!(engine.composition_text(), None);
}

// === Conversion モード（▼モード）テスト ===

#[test]
fn test_conversion_basic() {
    let mut engine = engine_with_dict();
    // "Kanji" + Space
    engine.process_key(shift_key('K'));
    engine.process_key(key('a'));
    engine.process_key(key('n'));
    engine.process_key(key('j'));
    engine.process_key(key('i'));

    let r = engine.process_key(space());
    assert_eq!(
        r,
        EngineResponse::UpdateComposition {
            display: "▼漢字".into(),
            candidates: Some(vec!["漢字".into(), "感じ".into(), "幹事".into()])
        }
    );
}

#[test]
fn test_conversion_next_candidate() {
    let mut engine = engine_with_dict();
    engine.process_key(shift_key('K'));
    engine.process_key(key('a'));
    engine.process_key(key('n'));
    engine.process_key(key('j'));
    engine.process_key(key('i'));
    engine.process_key(space()); // ▼漢字

    engine.process_key(space()); // next → 感じ
    assert_eq!(engine.composition_text(), Some("▼感じ".to_string()));

    engine.process_key(space()); // next → 幹事
    assert_eq!(engine.composition_text(), Some("▼幹事".to_string()));
}

#[test]
fn test_conversion_prev_candidate() {
    let mut engine = engine_with_dict();
    engine.process_key(shift_key('K'));
    engine.process_key(key('a'));
    engine.process_key(key('n'));
    engine.process_key(key('j'));
    engine.process_key(key('i'));
    engine.process_key(space()); // ▼漢字
    engine.process_key(space()); // ▼感じ

    engine.process_key(key('x')); // prev → 漢字
    assert_eq!(engine.composition_text(), Some("▼漢字".to_string()));
}

#[test]
fn test_conversion_prev_at_first_returns_to_precomp() {
    let mut engine = engine_with_dict();
    engine.process_key(shift_key('K'));
    engine.process_key(key('a'));
    engine.process_key(key('n'));
    engine.process_key(key('j'));
    engine.process_key(key('i'));
    engine.process_key(space()); // ▼漢字

    engine.process_key(key('x')); // prev at first → ▽かんじ
    assert_eq!(engine.composition_text(), Some("▽かんじ".to_string()));
}

#[test]
fn test_conversion_confirm_enter() {
    let mut engine = engine_with_dict();
    engine.process_key(shift_key('K'));
    engine.process_key(key('a'));
    engine.process_key(key('n'));
    engine.process_key(key('j'));
    engine.process_key(key('i'));
    engine.process_key(space());

    let r = engine.process_key(enter());
    assert_eq!(r, EngineResponse::Commit("漢字".into()));
    assert!(matches!(engine.composition_state(), CompositionState::Direct));
}

#[test]
fn test_conversion_confirm_ctrl_j() {
    let mut engine = engine_with_dict();
    engine.process_key(shift_key('K'));
    engine.process_key(key('a'));
    engine.process_key(key('n'));
    engine.process_key(key('j'));
    engine.process_key(key('i'));
    engine.process_key(space());
    engine.process_key(space()); // 感じ

    let r = engine.process_key(ctrl_key('j'));
    assert_eq!(r, EngineResponse::Commit("感じ".into()));
}

#[test]
fn test_conversion_cancel() {
    let mut engine = engine_with_dict();
    engine.process_key(shift_key('K'));
    engine.process_key(key('a'));
    engine.process_key(key('n'));
    engine.process_key(key('j'));
    engine.process_key(key('i'));
    engine.process_key(space());

    engine.process_key(ctrl_key('g'));
    assert_eq!(engine.composition_text(), Some("▽かんじ".to_string()));
}

#[test]
fn test_conversion_confirm_and_continue() {
    let mut engine = engine_with_dict();
    // "Kanji" → 変換 → "a" で確定して "あ" を入力
    engine.process_key(shift_key('K'));
    engine.process_key(key('a'));
    engine.process_key(key('n'));
    engine.process_key(key('j'));
    engine.process_key(key('i'));
    engine.process_key(space());

    let r = engine.process_key(key('a'));
    assert_eq!(r, EngineResponse::Commit("漢字あ".into()));
}

#[test]
fn test_conversion_confirm_and_new_precomp() {
    let mut engine = engine_with_dict();
    engine.process_key(shift_key('K'));
    engine.process_key(key('a'));
    engine.process_key(key('n'));
    engine.process_key(key('j'));
    engine.process_key(key('i'));
    engine.process_key(space());

    // Shift+H で確定して新しい▽モード
    let r = engine.process_key(shift_key('H'));
    assert_eq!(r, EngineResponse::Commit("漢字".into()));
    assert_eq!(engine.composition_text(), Some("▽h".to_string()));
}

#[test]
fn test_conversion_not_found_enters_registration() {
    let mut engine = engine_with_dict();
    engine.process_key(shift_key('Z'));
    engine.process_key(key('z'));
    engine.process_key(key('z'));

    let r = engine.process_key(space());
    // 候補なし → 登録モードに遷移
    assert!(matches!(r, EngineResponse::UpdateComposition { .. }));
    assert!(matches!(
        engine.composition_state(),
        CompositionState::Registration { .. }
    ));
    assert_eq!(
        engine.composition_text(),
        Some("[登録:っっ]".to_string())
    );
}

// === 数字キー候補選択テスト ===

#[test]
fn test_number_key_select_candidate() {
    let mut engine = engine_with_dict();
    engine.process_key(shift_key('K'));
    engine.process_key(key('a'));
    engine.process_key(key('n'));
    engine.process_key(key('j'));
    engine.process_key(key('i'));
    engine.process_key(space()); // ▼漢字

    // '1' → 最初の候補（漢字）を確定
    let r = engine.process_key(key('1'));
    assert_eq!(r, EngineResponse::Commit("漢字".into()));
    assert!(matches!(engine.composition_state(), CompositionState::Direct));
}

#[test]
fn test_number_key_select_second() {
    let mut engine = engine_with_dict();
    engine.process_key(shift_key('K'));
    engine.process_key(key('a'));
    engine.process_key(key('n'));
    engine.process_key(key('j'));
    engine.process_key(key('i'));
    engine.process_key(space()); // ▼漢字

    // '2' → 2番目の候補（感じ）を確定
    let r = engine.process_key(key('2'));
    assert_eq!(r, EngineResponse::Commit("感じ".into()));
}

#[test]
fn test_number_key_select_third() {
    let mut engine = engine_with_dict();
    engine.process_key(shift_key('K'));
    engine.process_key(key('a'));
    engine.process_key(key('n'));
    engine.process_key(key('j'));
    engine.process_key(key('i'));
    engine.process_key(space()); // ▼漢字

    // '3' → 3番目の候補（幹事）を確定
    let r = engine.process_key(key('3'));
    assert_eq!(r, EngineResponse::Commit("幹事".into()));
}

#[test]
fn test_number_key_out_of_range() {
    let mut engine = engine_with_dict();
    engine.process_key(shift_key('K'));
    engine.process_key(key('a'));
    engine.process_key(key('n'));
    engine.process_key(key('j'));
    engine.process_key(key('i'));
    engine.process_key(space()); // ▼漢字（3候補しかない）

    // '5' → 範囲外なので Consumed、状態変わらず
    let r = engine.process_key(key('5'));
    assert_eq!(r, EngineResponse::Consumed);
    assert!(matches!(
        engine.composition_state(),
        CompositionState::Conversion { .. }
    ));
}

#[test]
fn test_number_key_with_okuri() {
    let mut engine = engine_with_dict();
    // "OoKi" → ▼大き
    engine.process_key(shift_key('O'));
    engine.process_key(key('o'));
    engine.process_key(shift_key('K'));
    engine.process_key(key('i'));

    // '2' → 2番目の候補（多）+ 送り仮名（き）
    let r = engine.process_key(key('2'));
    assert_eq!(r, EngineResponse::Commit("多き".into()));
}

#[test]
fn test_number_key_paged_selection() {
    // 12候補ある辞書を作り、ページ2の候補を数字キーで選択
    let mut engine = hiragana_engine();
    let dict = Dictionary::from_str(
        "てすと /A/B/C/D/E/F/G/H/I/J/K/L/\n",
    );
    engine.add_dictionary_owned(dict);

    engine.process_key(shift_key('T'));
    engine.process_key(key('e'));
    engine.process_key(key('s'));
    engine.process_key(key('u'));
    engine.process_key(key('t'));
    engine.process_key(key('o'));
    engine.process_key(space()); // selected=0 (page 0)

    // Space 9回で selected=9 (page 1)
    for _ in 0..9 {
        engine.process_key(space());
    }
    let info = engine.candidate_info().unwrap();
    assert_eq!(info.selected, 9);

    // ページ1で '1' → 候補[9] = "J" を確定
    let r = engine.process_key(key('1'));
    assert_eq!(r, EngineResponse::Commit("J".into()));
}

#[test]
fn test_number_key_page_boundary() {
    let mut engine = hiragana_engine();
    let dict = Dictionary::from_str(
        "てすと /A/B/C/D/E/F/G/H/I/J/K/L/\n",
    );
    engine.add_dictionary_owned(dict);

    engine.process_key(shift_key('T'));
    engine.process_key(key('e'));
    engine.process_key(key('s'));
    engine.process_key(key('u'));
    engine.process_key(key('t'));
    engine.process_key(key('o'));
    engine.process_key(space()); // selected=0

    // selected=8 (page 0 の最後)
    for _ in 0..8 {
        engine.process_key(space());
    }
    // ページ0で '9' → 候補[8] = "I"
    let r = engine.process_key(key('9'));
    assert_eq!(r, EngineResponse::Commit("I".into()));
}

// === candidate_info テスト ===

#[test]
fn test_candidate_info_none_in_direct() {
    let engine = hiragana_engine();
    assert!(engine.candidate_info().is_none());
}

#[test]
fn test_candidate_info_none_in_precomp() {
    let mut engine = hiragana_engine();
    engine.process_key(shift_key('K'));
    engine.process_key(key('a'));
    assert!(engine.candidate_info().is_none());
}

#[test]
fn test_candidate_info_in_conversion() {
    let mut engine = engine_with_dict();
    engine.process_key(shift_key('K'));
    engine.process_key(key('a'));
    engine.process_key(key('n'));
    engine.process_key(key('j'));
    engine.process_key(key('i'));
    engine.process_key(space());

    let info = engine.candidate_info().expect("should have candidates");
    assert_eq!(info.selected, 0);
    assert_eq!(info.candidates.len(), 3);
    assert_eq!(info.candidates[0].word, "漢字");
    assert_eq!(info.candidates[1].word, "感じ");
    assert_eq!(info.candidates[2].word, "幹事");
}

// === 送り仮名テスト ===

#[test]
fn test_okuri_basic() {
    let mut engine = engine_with_dict();
    // "OoKi" → おお + 送り k + i → "き" → 辞書引き "おおk"
    engine.process_key(shift_key('O'));
    engine.process_key(key('o'));
    assert_eq!(engine.composition_text(), Some("▽おお".to_string()));

    engine.process_key(shift_key('K')); // 送り仮名開始
    assert_eq!(engine.composition_text(), Some("▽おおk".to_string()));

    let r = engine.process_key(key('i')); // "ki" → "き" → 辞書引き
    assert_eq!(
        r,
        EngineResponse::UpdateComposition {
            display: "▼大き".into(),
            candidates: Some(vec!["大".into(), "多".into()])
        }
    );
}

#[test]
fn test_okuri_confirm() {
    let mut engine = engine_with_dict();
    engine.process_key(shift_key('O'));
    engine.process_key(key('o'));
    engine.process_key(shift_key('K'));
    engine.process_key(key('i'));

    let r = engine.process_key(enter());
    assert_eq!(r, EngineResponse::Commit("大き".into()));
}

#[test]
fn test_okuri_confirm_and_continue() {
    let mut engine = engine_with_dict();
    // "OoKi" → ▼大き → "i" で確定して "い" を追加
    engine.process_key(shift_key('O'));
    engine.process_key(key('o'));
    engine.process_key(shift_key('K'));
    engine.process_key(key('i'));

    let r = engine.process_key(key('i'));
    assert_eq!(r, EngineResponse::Commit("大きい".into()));
}

// === 統合テスト ===

#[test]
fn test_full_workflow_toukyou() {
    // ASCII モードから開始して Ctrl-Space で IME ON
    let mut engine = SkkEngine::default();
    engine.add_dictionary_owned(test_dict());

    engine.process_key(ctrl_space());
    assert_eq!(engine.current_mode(), InputMode::Hiragana);

    // "Toukyou" → ▽とうきょう
    engine.process_key(shift_key('T'));
    engine.process_key(key('o'));
    engine.process_key(key('u'));
    engine.process_key(key('k'));
    engine.process_key(key('y'));
    engine.process_key(key('o'));
    engine.process_key(key('u'));
    assert_eq!(
        engine.composition_text(),
        Some("▽とうきょう".to_string())
    );

    // Space で変換
    let r = engine.process_key(space());
    assert_eq!(
        r,
        EngineResponse::UpdateComposition {
            display: "▼東京".into(),
            candidates: Some(vec!["東京".into()])
        }
    );

    // Enter で確定
    let r = engine.process_key(enter());
    assert_eq!(r, EngineResponse::Commit("東京".into()));
    assert_eq!(engine.composition_text(), None);
}

#[test]
fn test_full_workflow_with_okuri() {
    let mut engine = engine_with_dict();
    assert_eq!(engine.current_mode(), InputMode::Hiragana);

    // "KaKi" → 書き
    engine.process_key(shift_key('K'));
    engine.process_key(key('a'));
    engine.process_key(shift_key('K'));
    engine.process_key(key('i'));
    assert_eq!(engine.composition_text(), Some("▼書き".to_string()));

    // "masu" で確定して "ます" を続けて入力
    let r = engine.process_key(key('m'));
    assert_eq!(r, EngineResponse::Commit("書き".into()));
    // "m" は pending
    assert_eq!(engine.composition_text(), Some("m".to_string()));

    engine.process_key(key('a'));
    engine.process_key(key('s'));
    engine.process_key(key('u'));
    // "ます" が確定されている（各 Commit で）
}

// === Registration モード（辞書登録）テスト ===

#[test]
fn test_registration_no_candidates() {
    // 候補なしで Space → 登録モードに遷移
    let mut engine = engine_with_dict();
    engine.process_key(shift_key('Z'));
    engine.process_key(key('z'));
    engine.process_key(key('z'));
    engine.process_key(space());

    assert!(matches!(
        engine.composition_state(),
        CompositionState::Registration { .. }
    ));
}

#[test]
fn test_registration_past_last_candidate() {
    // 最終候補を超えて Space → 登録モードに遷移
    let mut engine = hiragana_engine();
    let dict = Dictionary::from_str("ひと /人/\n");
    engine.add_dictionary_owned(dict);

    engine.process_key(shift_key('H'));
    engine.process_key(key('i'));
    engine.process_key(key('t'));
    engine.process_key(key('o'));
    engine.process_key(space()); // ▼人
    assert_eq!(engine.composition_text(), Some("▼人".to_string()));

    engine.process_key(space()); // 最後の候補を超える → 登録モード
    assert!(matches!(
        engine.composition_state(),
        CompositionState::Registration { .. }
    ));
    assert_eq!(
        engine.composition_text(),
        Some("[登録:ひと]".to_string())
    );
}

#[test]
fn test_registration_romaji_input() {
    // 登録モードでローマ字入力
    let mut engine = engine_with_dict();
    engine.process_key(shift_key('Z'));
    engine.process_key(key('z'));
    engine.process_key(key('z'));
    engine.process_key(space()); // → 登録モード

    engine.process_key(key('k'));
    engine.process_key(key('a'));
    engine.process_key(key('n'));
    engine.process_key(key('j'));
    engine.process_key(key('i'));

    assert_eq!(
        engine.composition_text(),
        Some("かんじ[登録:っっ]".to_string())
    );
}

#[test]
fn test_registration_confirm_enter() {
    // Enter で確定 → Commit + 辞書登録
    let mut engine = hiragana_engine();
    engine.use_user_dictionary(Dictionary::new());
    engine.process_key(shift_key('Z'));
    engine.process_key(key('z'));
    engine.process_key(key('z'));
    engine.process_key(space()); // → 登録モード

    engine.process_key(key('t'));
    engine.process_key(key('e'));
    engine.process_key(key('s'));
    engine.process_key(key('u'));
    engine.process_key(key('t'));
    engine.process_key(key('o'));

    let r = engine.process_key(enter());
    assert_eq!(r, EngineResponse::Commit("てすと".into()));
    assert!(matches!(engine.composition_state(), CompositionState::Direct));

    // ユーザー辞書に登録されている
    let user_dict = engine.user_dictionary().unwrap();
    let entries = user_dict.lookup("っっ").expect("should be registered");
    assert_eq!(entries[0].word, "てすと");
}

#[test]
fn test_registration_confirm_ctrl_j() {
    let mut engine = hiragana_engine();
    engine.use_user_dictionary(Dictionary::new());
    engine.process_key(shift_key('Z'));
    engine.process_key(key('z'));
    engine.process_key(key('z'));
    engine.process_key(space());

    engine.process_key(key('a'));
    let r = engine.process_key(ctrl_key('j'));
    assert_eq!(r, EngineResponse::Commit("あ".into()));
}

#[test]
fn test_registration_cancel_escape() {
    // Escape でキャンセル → ▽モードに戻る
    let mut engine = engine_with_dict();
    engine.process_key(shift_key('Z'));
    engine.process_key(key('z'));
    engine.process_key(key('z'));
    engine.process_key(space());

    engine.process_key(key('a'));
    engine.process_key(escape());

    assert!(matches!(
        engine.composition_state(),
        CompositionState::PreComposition { .. }
    ));
    assert_eq!(
        engine.composition_text(),
        Some("▽っっ".to_string())
    );
}

#[test]
fn test_registration_cancel_ctrl_g() {
    let mut engine = engine_with_dict();
    engine.process_key(shift_key('Z'));
    engine.process_key(key('z'));
    engine.process_key(key('z'));
    engine.process_key(space());

    engine.process_key(ctrl_key('g'));
    assert!(matches!(
        engine.composition_state(),
        CompositionState::PreComposition { .. }
    ));
}

#[test]
fn test_registration_backspace() {
    // Backspace: pending → word の順に削除
    let mut engine = hiragana_engine();
    engine.process_key(shift_key('Z'));
    engine.process_key(key('z'));
    engine.process_key(key('z'));
    engine.process_key(space());

    engine.process_key(key('a')); // "あ"
    engine.process_key(key('k')); // pending "k"
    assert_eq!(
        engine.composition_text(),
        Some("あk[登録:っっ]".to_string())
    );

    engine.process_key(backspace()); // pending "k" 削除
    assert_eq!(
        engine.composition_text(),
        Some("あ[登録:っっ]".to_string())
    );

    engine.process_key(backspace()); // word "あ" 削除
    assert_eq!(
        engine.composition_text(),
        Some("[登録:っっ]".to_string())
    );
}

#[test]
fn test_registration_empty_word_confirm() {
    // 空の単語で確定 → キャンセルと同じ
    let mut engine = hiragana_engine();
    engine.process_key(shift_key('Z'));
    engine.process_key(key('z'));
    engine.process_key(key('z'));
    engine.process_key(space());

    engine.process_key(enter()); // 空で確定
    assert!(matches!(
        engine.composition_state(),
        CompositionState::PreComposition { .. }
    ));
}

#[test]
fn test_registered_word_appears_in_conversion() {
    // 登録した単語が次の変換で候補に出る
    let mut engine = hiragana_engine();
    engine.use_user_dictionary(Dictionary::new());

    // "zzz" で登録
    engine.process_key(shift_key('Z'));
    engine.process_key(key('z'));
    engine.process_key(key('z'));
    engine.process_key(space());
    engine.process_key(key('t'));
    engine.process_key(key('e'));
    engine.process_key(key('s'));
    engine.process_key(key('u'));
    engine.process_key(key('t'));
    engine.process_key(key('o'));
    engine.process_key(enter()); // 登録

    // もう一度同じ読みで変換
    engine.process_key(shift_key('Z'));
    engine.process_key(key('z'));
    engine.process_key(key('z'));
    let r = engine.process_key(space());

    // 登録した "てすと" が候補に出る
    assert!(matches!(r, EngineResponse::UpdateComposition { .. }));
    assert_eq!(engine.composition_text(), Some("▼てすと".to_string()));
}

#[test]
fn test_user_dict_priority_over_system() {
    // ユーザー辞書がシステム辞書より優先される
    let mut engine = engine_with_dict();
    let mut user_dict = Dictionary::new();
    user_dict.add_entry(
        "かんじ",
        DictEntry {
            word: "幹事".to_string(),
            annotation: None,
        },
    );
    engine.use_user_dictionary(user_dict);

    engine.process_key(shift_key('K'));
    engine.process_key(key('a'));
    engine.process_key(key('n'));
    engine.process_key(key('j'));
    engine.process_key(key('i'));
    engine.process_key(space());

    // ユーザー辞書の "幹事" が最初の候補
    assert_eq!(engine.composition_text(), Some("▼幹事".to_string()));
}

#[test]
fn test_registration_okuri_confirm() {
    // 送りあり変換で候補なし → 登録 → 確定時に送り仮名付き
    let mut engine = hiragana_engine();
    engine.use_user_dictionary(Dictionary::new());

    // "ZzKi" → 送りあり変換、候補なし → 登録モード
    engine.process_key(shift_key('Z'));
    engine.process_key(key('z'));
    engine.process_key(shift_key('K'));
    engine.process_key(key('i'));

    assert!(matches!(
        engine.composition_state(),
        CompositionState::Registration { .. }
    ));

    // 登録文字を入力
    engine.process_key(key('a'));
    let r = engine.process_key(enter());
    // "あ" + 送り仮名 "き" で確定
    assert_eq!(r, EngineResponse::Commit("あき".into()));
}

// === Registration ネスト変換テスト ===

#[test]
fn test_registration_nested_precomp() {
    // 登録モードで Shift+K → ネスト▽モード表示
    let mut engine = engine_with_dict();
    engine.process_key(shift_key('Z'));
    engine.process_key(key('z'));
    engine.process_key(key('z'));
    engine.process_key(space()); // → [登録:っっ]

    engine.process_key(shift_key('K'));
    assert_eq!(
        engine.composition_text(),
        Some("▽k[登録:っっ]".to_string())
    );
}

#[test]
fn test_registration_nested_conversion_confirm() {
    // 登録モードでネスト変換して確定 → 結果が登録テキストに追加
    let mut engine = engine_with_dict();
    engine.process_key(shift_key('Z'));
    engine.process_key(key('z'));
    engine.process_key(key('z'));
    engine.process_key(space()); // → [登録:っっ]

    // Shift+K → ▽ → "kanji" → Space → ▼漢字 → Enter
    engine.process_key(shift_key('K'));
    engine.process_key(key('a'));
    engine.process_key(key('n'));
    engine.process_key(key('j'));
    engine.process_key(key('i'));
    engine.process_key(space()); // ネスト▼漢字
    assert_eq!(
        engine.composition_text(),
        Some("▼漢字[登録:っっ]".to_string())
    );

    engine.process_key(enter()); // 確定 → 登録テキストに追加
    assert!(matches!(
        engine.composition_state(),
        CompositionState::Registration { .. }
    ));
    assert_eq!(
        engine.composition_text(),
        Some("漢字[登録:っっ]".to_string())
    );
}

#[test]
fn test_registration_nested_confirm_and_continue() {
    // ネスト▼モードで英字打ち → 確定して登録テキストに追加
    let mut engine = engine_with_dict();
    engine.process_key(shift_key('Z'));
    engine.process_key(key('z'));
    engine.process_key(key('z'));
    engine.process_key(space());

    engine.process_key(shift_key('K'));
    engine.process_key(key('a'));
    engine.process_key(key('n'));
    engine.process_key(key('j'));
    engine.process_key(key('i'));
    engine.process_key(space()); // ▼漢字

    engine.process_key(key('a')); // 確定 + "あ" → "漢字あ" が登録テキストに
    assert!(matches!(
        engine.composition_state(),
        CompositionState::Registration { .. }
    ));
    assert_eq!(
        engine.composition_text(),
        Some("漢字あ[登録:っっ]".to_string())
    );
}

#[test]
fn test_registration_nested_cancel_precomp() {
    // ネスト▽でEscape → 登録モードに戻る
    let mut engine = engine_with_dict();
    engine.process_key(shift_key('Z'));
    engine.process_key(key('z'));
    engine.process_key(key('z'));
    engine.process_key(space());

    engine.process_key(shift_key('K'));
    engine.process_key(key('a'));
    engine.process_key(escape()); // ▽キャンセル → 登録モードに復帰

    assert!(matches!(
        engine.composition_state(),
        CompositionState::Registration { .. }
    ));
    assert_eq!(
        engine.composition_text(),
        Some("[登録:っっ]".to_string())
    );
}

#[test]
fn test_registration_nested_cancel_conversion() {
    // ネスト▼でEscape → ネスト▽に戻る（登録には戻らない）
    let mut engine = engine_with_dict();
    engine.process_key(shift_key('Z'));
    engine.process_key(key('z'));
    engine.process_key(key('z'));
    engine.process_key(space());

    engine.process_key(shift_key('K'));
    engine.process_key(key('a'));
    engine.process_key(key('n'));
    engine.process_key(key('j'));
    engine.process_key(key('i'));
    engine.process_key(space()); // ▼漢字

    engine.process_key(escape()); // ▼キャンセル → ▽かんじ（まだネスト内）
    assert!(matches!(
        engine.composition_state(),
        CompositionState::PreComposition { .. }
    ));
    assert_eq!(
        engine.composition_text(),
        Some("▽かんじ[登録:っっ]".to_string())
    );
}

#[test]
fn test_registration_cancel_clears_saved() {
    // ネスト変換後に登録キャンセル → saved_registration がクリアされ
    // [登録:よみ] がバッファに残らない
    let mut engine = engine_with_dict();
    engine.process_key(shift_key('Z'));
    engine.process_key(key('z'));
    engine.process_key(key('z'));
    engine.process_key(space()); // 候補なし → 登録モード

    // ネスト変換を開始して戻す
    engine.process_key(shift_key('K'));
    engine.process_key(key('a'));
    engine.process_key(escape()); // ネスト▽キャンセル → 登録モードに復帰

    assert!(matches!(
        engine.composition_state(),
        CompositionState::Registration { .. }
    ));

    // 登録モードをキャンセル → ▽モードに戻る
    engine.process_key(escape());
    assert!(matches!(
        engine.composition_state(),
        CompositionState::PreComposition { .. }
    ));
    // [登録:っっ] が残らないことを確認
    assert_eq!(
        engine.composition_text(),
        Some("▽っっ".to_string())
    );
}

#[test]
fn test_registration_nested_hiragana_confirm() {
    // ネスト▽で Enter → ひらがなのまま登録テキストに追加
    let mut engine = engine_with_dict();
    engine.process_key(shift_key('Z'));
    engine.process_key(key('z'));
    engine.process_key(key('z'));
    engine.process_key(space());

    engine.process_key(shift_key('T'));
    engine.process_key(key('e'));
    engine.process_key(key('s'));
    engine.process_key(key('u'));
    engine.process_key(key('t'));
    engine.process_key(key('o'));
    engine.process_key(enter()); // ひらがな確定

    assert!(matches!(
        engine.composition_state(),
        CompositionState::Registration { .. }
    ));
    assert_eq!(
        engine.composition_text(),
        Some("てすと[登録:っっ]".to_string())
    );
}

#[test]
fn test_registration_nested_multiple_conversions() {
    // 複数回ネスト変換: 漢字→登録に戻る→もう一度変換
    let mut engine = engine_with_dict();
    engine.process_key(shift_key('Z'));
    engine.process_key(key('z'));
    engine.process_key(key('z'));
    engine.process_key(space());

    // 1回目: "漢字"
    engine.process_key(shift_key('K'));
    engine.process_key(key('a'));
    engine.process_key(key('n'));
    engine.process_key(key('j'));
    engine.process_key(key('i'));
    engine.process_key(space());
    engine.process_key(enter());
    assert_eq!(
        engine.composition_text(),
        Some("漢字[登録:っっ]".to_string())
    );

    // 2回目: "東京"
    engine.process_key(shift_key('T'));
    engine.process_key(key('o'));
    engine.process_key(key('u'));
    engine.process_key(key('k'));
    engine.process_key(key('y'));
    engine.process_key(key('o'));
    engine.process_key(key('u'));
    engine.process_key(space());
    engine.process_key(enter());
    assert_eq!(
        engine.composition_text(),
        Some("漢字東京[登録:っっ]".to_string())
    );
}

#[test]
fn test_registration_nested_final_confirm() {
    // ネスト変換後に最終確定 → Commit
    let mut engine = engine_with_dict();
    engine.use_user_dictionary(Dictionary::new());

    engine.process_key(shift_key('Z'));
    engine.process_key(key('z'));
    engine.process_key(key('z'));
    engine.process_key(space());

    // ネスト変換で "漢字" を登録テキストに追加
    engine.process_key(shift_key('K'));
    engine.process_key(key('a'));
    engine.process_key(key('n'));
    engine.process_key(key('j'));
    engine.process_key(key('i'));
    engine.process_key(space());
    engine.process_key(enter());

    // 最終確定
    let r = engine.process_key(enter());
    assert_eq!(r, EngineResponse::Commit("漢字".into()));
    assert!(matches!(engine.composition_state(), CompositionState::Direct));

    // ユーザー辞書に登録されている
    let user_dict = engine.user_dictionary().unwrap();
    let entries = user_dict.lookup("っっ").expect("should be registered");
    assert_eq!(entries[0].word, "漢字");
}

#[test]
fn test_registration_literal_chars() {
    // 登録モードで記号やローマ字テーブルにない文字
    let mut engine = hiragana_engine();
    engine.use_user_dictionary(Dictionary::new());
    engine.process_key(shift_key('Z'));
    engine.process_key(key('z'));
    engine.process_key(key('z'));
    engine.process_key(space()); // → 登録モード

    // 'l' で ASCII サブモード → 文字を直接入力
    engine.process_key(key('l'));
    engine.process_key(key('o'));
    engine.process_key(key('l'));
    assert_eq!(
        engine.composition_text(),
        Some("ol[登録:っっ]".to_string())
    );

    // Ctrl+J でサブモード終了
    engine.process_key(ctrl_key('j'));

    // 通常のローマ字入力
    engine.process_key(key('a'));
    assert_eq!(
        engine.composition_text(),
        Some("olあ[登録:っっ]".to_string())
    );
}

#[test]
fn test_registration_l_ascii_submode() {
    // 登録モードで l → ASCII サブモード → リテラル入力
    let mut engine = hiragana_engine();
    engine.use_user_dictionary(Dictionary::new());
    engine.process_key(shift_key('Z'));
    engine.process_key(key('z'));
    engine.process_key(key('z'));
    engine.process_key(space()); // → 登録モード

    engine.process_key(key('l')); // ASCII サブモード開始
    assert!(engine.registration_sub_mode().is_some());

    // 'i', 'n' はローマ字変換されず、そのまま追加
    engine.process_key(key('L'));
    engine.process_key(key('i'));
    engine.process_key(key('n'));
    engine.process_key(key('u'));
    engine.process_key(key('x'));
    assert_eq!(
        engine.composition_text(),
        Some("Linux[登録:っっ]".to_string())
    );

    // Ctrl+J でサブモード終了 → 通常ローマ字入力に復帰
    engine.process_key(ctrl_key('j'));
    assert!(engine.registration_sub_mode().is_none());
    // 以降はローマ字入力
    engine.process_key(key('a'));
    assert_eq!(
        engine.composition_text(),
        Some("Linuxあ[登録:っっ]".to_string())
    );
}

#[test]
fn test_registration_shift_l_zenkaku_submode() {
    // 登録モードで Shift+L → 全角英数サブモード
    let mut engine = hiragana_engine();
    engine.process_key(shift_key('Z'));
    engine.process_key(key('z'));
    engine.process_key(key('z'));
    engine.process_key(space());

    engine.process_key(shift_key('L')); // 全角英数サブモード
    assert_eq!(engine.registration_sub_mode(), Some(InputMode::ZenkakuAscii));

    engine.process_key(key('A'));
    engine.process_key(key('B'));
    assert_eq!(
        engine.composition_text(),
        Some("ＡＢ[登録:っっ]".to_string())
    );
}

#[test]
fn test_registration_symbols_and_digits() {
    // 登録モードで記号・数字を入力
    let mut engine = hiragana_engine();
    engine.process_key(shift_key('Z'));
    engine.process_key(key('z'));
    engine.process_key(key('z'));
    engine.process_key(space());

    // 数字と記号はローマ字テーブルにない → そのまま追加
    engine.process_key(KeyEvent {
        key: Key::Char('1'),
        shift: false,
        ctrl: false,
        alt: false,
    });
    engine.process_key(KeyEvent {
        key: Key::Char('+'),
        shift: false,
        ctrl: false,
        alt: false,
    });
    assert_eq!(
        engine.composition_text(),
        Some("1+[登録:っっ]".to_string())
    );
}

#[test]
fn test_hiragana_to_katakana() {
    assert_eq!(hiragana_to_katakana("かたかな"), "カタカナ");
    assert_eq!(hiragana_to_katakana("とうきょう"), "トウキョウ");
    assert_eq!(hiragana_to_katakana("abc"), "abc"); // ASCII はそのまま
    assert_eq!(hiragana_to_katakana(""), "");
}
