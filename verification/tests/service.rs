//! The text service around the engine: keys, answers, windows, identifiers.
use koyubi::candidate_ui::{candidate_label, page_label, row_top, window_height, MAX_ROWS};
use koyubi::class_factory::{get_class_object, ClassError, ClassFactory, CreateError};
use koyubi::composer::SkkEngine;
use koyubi::config::Config;
use koyubi::dict::Dictionary;
use koyubi::dict_tool::{
    choose_entries, content_length, dict_dir_parts, dict_url, exit_code, find_dict, parse_command,
    parse_download_args, parse_selection, part_name, summary, tally, Choice, Command, Outcome,
};
use koyubi::globals::{
    can_unload, dec_ref_count, inc_ref_count, ref_count, CLSID_KOYUBI_TEXT_SERVICE,
};
use koyubi::key_event::{
    emacs_action, has_backspace_target, is_key_down, is_repeat, modifiers, needs_translation,
    scan_code, should_eat_key, to_key_event, to_key_event_with_forced_ctrl,
    to_key_event_with_forced_shift, translation_state, EmacsAction, Forced, VK_BACK, VK_CAPITAL,
    VK_CONTROL, VK_DELETE, VK_END, VK_G, VK_H, VK_J, VK_LCONTROL, VK_MENU, VK_OEM_1, VK_RETURN,
    VK_RIGHT, VK_SHIFT, VK_SPACE, VK_TAB,
};
use koyubi::lang_bar::{
    advise, centred, description, mode_font, mode_font_size, mode_label, mode_tooltip,
    settings_to_write, unadvise, update_mode, ConnectError, DEFAULT_CONFIG_TOML, DISPLAY_NAME,
};
use koyubi::register::{class_key, guid_to_string, library_key};
use koyubi::text_service::{
    after_load, candidate_page, ctrl_key, dictionary_plan, dictionary_search_paths, handle_engine_response,
    is_thumb_shift_key, key_only, keys_on_pass, kill_line, kill_line_no_ctrl, shifted_key, simulated_key,
    space_tap, user_dictionary_path, DictionaryPlan, KeyAction, KeyLayer, SandsState, SimKey, TextAction,
};
use koyubi::{CandidateDisplay, CompositionState, EngineResponse, InputMode, Key, KeyEvent};

const NONE: [u8; 256] = [0; 256];

fn held(keys: &[u16]) -> [u8; 256] {
    let mut state = [0u8; 256];
    for vk in keys {
        state[*vk as usize] = 0x81;
    }
    state
}

fn engine_with(config: Config) -> SkkEngine {
    let mut engine = SkkEngine::new(config);
    engine.add_dictionary_owned(Dictionary::from_str("かんじ /漢字/感じ/"));
    engine
}

fn in_mode(mode: InputMode) -> SkkEngine {
    engine_with(Config {
        initial_mode: mode,
        ..Config::default()
    })
}

fn all_layers(mode: InputMode) -> SkkEngine {
    engine_with(Config {
        initial_mode: mode,
        thumb_shift_enabled: true,
        caps_ctrl_enabled: true,
        ..Config::default()
    })
}

fn type_reading(engine: &mut SkkEngine) {
    for (ch, shift) in [('K', true), ('a', false), ('n', false), ('j', false), ('i', false)] {
        engine.process_key(KeyEvent {
            key: Key::Char(ch),
            shift,
            ctrl: false,
            alt: false,
        });
    }
}

fn convert(engine: &mut SkkEngine) {
    engine.process_key(KeyEvent {
        key: Key::Space,
        shift: false,
        ctrl: false,
        alt: false,
    });
}

// Whether a key is down after these, where it was down before or not.
fn down_after(keys: &[SimKey], vk: u16, before: bool) -> bool {
    keys.iter().filter(|k| k.vk == vk).last().map_or(before, |k| !k.up)
}

#[test]
fn message_bits() {
    assert_eq!(scan_code(0x0024_0001), 0x24);
    assert_eq!(scan_code(0xFFFF_FFFF), 0xFF);
    assert!(is_repeat(0x4000_0000));
    assert!(!is_repeat(0xBFFF_FFFF));
    assert!(is_key_down(&held(&[VK_SHIFT]), VK_SHIFT));
    let mut toggled = NONE;
    toggled[VK_CAPITAL as usize] = 0x01;
    assert!(!is_key_down(&toggled, VK_CAPITAL));
}

#[test]
fn emacs_keys() {
    assert_eq!(emacs_action(0x46), Some(EmacsAction::SimulateKey(VK_RIGHT)));
    assert_eq!(emacs_action(0x44), Some(EmacsAction::SimulateKey(VK_DELETE)));
    assert_eq!(emacs_action(0x4B), Some(EmacsAction::KillLine));
    assert_eq!(emacs_action(VK_H), None);
    assert_eq!([0x42, 0x41, 0x45, 0x4E, 0x50].map(|vk| emacs_action(vk)), [
        Some(EmacsAction::SimulateKey(0x25)),
        Some(EmacsAction::SimulateKey(0x24)),
        Some(EmacsAction::SimulateKey(0x23)),
        Some(EmacsAction::SimulateKey(0x28)),
        Some(EmacsAction::SimulateKey(0x26)),
    ]);
}

#[test]
fn keys_become_events() {
    let plain = |key| {
        Some(KeyEvent {
            key,
            shift: false,
            ctrl: false,
            alt: false,
        })
    };
    assert_eq!(to_key_event(VK_RETURN, &NONE, None), plain(Key::Enter));
    assert_eq!(to_key_event(VK_TAB, &NONE, None), plain(Key::Tab));
    assert_eq!(to_key_event(0x41, &NONE, Some('a' as u16)), plain(Key::Char('a')));
    assert_eq!(to_key_event(0x41, &NONE, None), None);
    assert_eq!(to_key_event(0x41, &NONE, Some(0xD800)), None);
    assert_eq!(to_key_event(VK_SHIFT, &NONE, Some('a' as u16)), None);
    assert_eq!(
        to_key_event(VK_H, &held(&[VK_CONTROL, VK_SHIFT]), Some('h' as u16)),
        Some(KeyEvent {
            key: Key::Backspace,
            shift: true,
            ctrl: false,
            alt: false,
        })
    );
    assert_eq!(
        to_key_event(VK_J, &held(&[VK_CONTROL]), Some('j' as u16)),
        Some(KeyEvent {
            key: Key::Char('j'),
            shift: false,
            ctrl: true,
            alt: false,
        })
    );
    assert_eq!(
        to_key_event_with_forced_shift(0x4B, &NONE, Some('K' as u16)),
        Some(KeyEvent {
            key: Key::Char('K'),
            shift: true,
            ctrl: false,
            alt: false,
        })
    );
    assert_eq!(
        to_key_event_with_forced_ctrl(VK_SPACE, &held(&[VK_MENU]), None),
        Some(KeyEvent {
            key: Key::Space,
            shift: false,
            ctrl: true,
            alt: true,
        })
    );
}

#[test]
fn layout_is_asked_without_ctrl() {
    let state = held(&[VK_CONTROL, VK_LCONTROL, 0x41]);
    let asked = translation_state(&state, Forced::Nothing);
    assert_eq!(asked[VK_CONTROL as usize], 0);
    assert_eq!(asked[VK_LCONTROL as usize], 0);
    assert_eq!(asked[0x41], 0x81);
    assert_eq!(translation_state(&NONE, Forced::Shift)[VK_SHIFT as usize], 0x80);
    let mods = modifiers(&state, Forced::Nothing);
    assert!(needs_translation(VK_J, mods));
    assert!(!needs_translation(VK_H, mods));
    assert!(!needs_translation(VK_SPACE, mods));
    assert!(!needs_translation(VK_CONTROL, mods));
}

#[test]
fn law_control_keys_are_eaten_in_every_mode() {
    for mode in [InputMode::Ascii, InputMode::Hiragana, InputMode::ZenkakuAscii, InputMode::Abbrev] {
        for vk in [VK_SPACE, VK_J, VK_OEM_1] {
            assert!(should_eat_key(vk, &held(&[VK_CONTROL]), &in_mode(mode)));
        }
    }
}

#[test]
fn law_off_eats_nothing_without_ctrl() {
    let engine = in_mode(InputMode::Ascii);
    for vk in 0..=255u16 {
        assert!(!should_eat_key(vk, &NONE, &engine));
    }
}

#[test]
fn keys_that_the_engine_wants() {
    let mut engine = in_mode(InputMode::Hiragana);
    let ctrl = held(&[VK_CONTROL]);
    assert!(should_eat_key(0x41, &NONE, &engine));
    assert!(!should_eat_key(0x31, &NONE, &engine));
    assert!(!should_eat_key(VK_BACK, &NONE, &engine));
    assert!(!should_eat_key(VK_G, &ctrl, &engine));
    assert!(should_eat_key(VK_H, &ctrl, &engine));
    assert!(!should_eat_key(VK_H, &held(&[VK_CONTROL, VK_SHIFT]), &engine));
    assert!(!should_eat_key(VK_SHIFT, &NONE, &engine));
    type_reading(&mut engine);
    assert!(has_backspace_target(&engine));
    assert!(should_eat_key(VK_BACK, &NONE, &engine));
    assert!(should_eat_key(VK_G, &ctrl, &engine));
    convert(&mut engine);
    assert!(!has_backspace_target(&engine));
    assert!(should_eat_key(0x31, &NONE, &engine));
    assert!(!should_eat_key(0x30, &NONE, &engine));
    let mut engine = in_mode(InputMode::Hiragana);
    type_reading(&mut engine);
    convert(&mut engine);
    while !matches!(engine.composition_state(), CompositionState::Registration { .. }) {
        convert(&mut engine);
    }
    for vk in 0x30..=0x39u16 {
        assert!(should_eat_key(vk, &NONE, &engine));
        let event = to_key_event(vk, &NONE, Some(vk)).unwrap();
        assert_ne!(engine.process_key(event), EngineResponse::PassThrough);
    }
    let zenkaku = in_mode(InputMode::ZenkakuAscii);
    assert!(should_eat_key(0x30, &NONE, &zenkaku));
    assert!(!should_eat_key(VK_RETURN, &NONE, &zenkaku));
    assert!(!should_eat_key(VK_G, &ctrl, &zenkaku));
}

#[test]
fn law_emacs_keys_follow_the_setting() {
    let ctrl = held(&[VK_CONTROL]);
    for mode in [InputMode::Ascii, InputMode::Hiragana, InputMode::ZenkakuAscii] {
        for (on, vk) in [(true, 0x46), (false, 0x46), (true, 0x4B), (false, 0x4B)] {
            let engine = engine_with(Config {
                initial_mode: mode,
                emacs_bindings_enabled: on,
                ..Config::default()
            });
            assert_eq!(should_eat_key(vk, &ctrl, &engine), on);
            assert!(should_eat_key(VK_H, &ctrl, &engine));
            assert_eq!(KeyLayer::new().test_key_down(&engine, vk, &ctrl, false), on);
        }
    }
}

#[test]
fn law_space_alone_is_space_and_with_a_key_is_shift() {
    let engine = in_mode(InputMode::Hiragana);
    let mut layer = KeyLayer::new();
    assert!(layer.test_key_down(&engine, VK_SPACE, &NONE, false));
    assert_eq!(layer.key_down(&engine, VK_SPACE, &NONE, false, false, false), KeyAction::Eat);
    assert_eq!(layer.sands, SandsState::SpaceDown);
    assert!(layer.test_key_up(&engine, VK_SPACE));
    let tap = layer.key_up(&engine, VK_SPACE);
    assert_eq!(tap, KeyAction::SpaceToEngine);
    assert_eq!(layer, KeyLayer::new());
    assert_eq!(keys_on_pass(tap), Some(space_tap()));
    let plan = handle_engine_response(EngineResponse::PassThrough, None, false, Some(space_tap()));
    assert!(plan.eaten);
    assert_eq!(plan.inject, space_tap());
    assert_eq!(keys_on_pass(KeyAction::Eat), None);
    let on_pass = Some(key_only(VK_BACK));
    let to_engine = KeyAction::ToEngine {
        forced: Forced::Ctrl,
        on_pass: on_pass.clone(),
    };
    assert_eq!(keys_on_pass(to_engine), on_pass);

    layer.key_down(&engine, VK_SPACE, &NONE, false, false, false);
    assert_eq!(
        layer.key_down(&engine, 0x4B, &NONE, false, false, false),
        KeyAction::ToEngine {
            forced: Forced::Shift,
            on_pass: None,
        }
    );
    assert_eq!(layer.sands, SandsState::ShiftActive);
    assert_eq!(layer.key_down(&engine, VK_SPACE, &NONE, false, true, false), KeyAction::Eat);
    assert_eq!(layer.sands, SandsState::ShiftActive);
    assert_eq!(layer.key_up(&engine, VK_SPACE), KeyAction::Eat);
    assert_eq!(layer, KeyLayer::new());
    assert_eq!(layer.key_up(&engine, VK_SPACE), KeyAction::Pass);

    let off = in_mode(InputMode::Ascii);
    layer.key_down(&off, VK_SPACE, &NONE, false, false, false);
    assert_eq!(
        layer.key_down(&off, 0x4B, &NONE, false, false, false),
        KeyAction::Inject(shifted_key(0x4B))
    );
    layer.key_up(&off, VK_SPACE);
    layer.key_down(&off, VK_SPACE, &NONE, false, false, false);
    assert_eq!(layer.key_up(&off, VK_SPACE), KeyAction::Inject(space_tap()));
}

#[test]
fn law_injected_keys_pass() {
    let engine = all_layers(InputMode::Hiragana);
    let mut layer = KeyLayer {
        sands: SandsState::SpaceDown,
        thumb_shift_held: true,
        caps_ctrl_held: true,
    };
    let before = layer;
    assert!(!layer.test_key_down(&engine, 0x41, &NONE, true));
    assert_eq!(layer.key_down(&engine, 0x41, &NONE, true, false, false), KeyAction::Pass);
    assert_eq!(layer, before);
}

#[test]
fn law_unwanted_keys_change_nothing() {
    let engine = in_mode(InputMode::Ascii);
    let mut layer = KeyLayer::new();
    assert!(!layer.test_key_down(&engine, 0x41, &NONE, false));
    layer.key_down(&engine, 0x41, &NONE, false, false, false);
    assert_eq!(layer, KeyLayer::new());
    assert!(!layer.test_key_up(&engine, 0x41));
}

#[test]
fn law_caps_lock_stands_for_ctrl() {
    let engine = all_layers(InputMode::Hiragana);
    let mut layer = KeyLayer::new();
    assert!(layer.test_key_down(&engine, VK_CAPITAL, &NONE, false));
    assert_eq!(layer.key_down(&engine, VK_CAPITAL, &NONE, false, false, false), KeyAction::Eat);
    assert!(layer.test_key_down(&engine, 0x43, &NONE, false));
    assert_eq!(
        layer.key_down(&engine, 0x43, &NONE, false, false, false),
        KeyAction::ToEngine {
            forced: Forced::Ctrl,
            on_pass: Some(ctrl_key(0x43)),
        }
    );
    assert_eq!(
        layer.key_down(&engine, VK_H, &NONE, false, false, false),
        KeyAction::ToEngine {
            forced: Forced::Ctrl,
            on_pass: Some(key_only(VK_BACK)),
        }
    );
    assert_eq!(
        layer.key_down(&engine, 0x46, &NONE, false, false, false),
        KeyAction::Inject(key_only(VK_RIGHT))
    );
    assert_eq!(
        layer.key_down(&engine, 0x4B, &NONE, false, false, false),
        KeyAction::Inject(kill_line_no_ctrl())
    );
    assert!(layer.test_key_up(&engine, VK_CAPITAL));
    assert_eq!(layer.key_up(&engine, VK_CAPITAL), KeyAction::Eat);
    assert_eq!(layer, KeyLayer::new());
}

#[test]
fn law_thumb_keys_stand_for_shift() {
    let engine = all_layers(InputMode::Hiragana);
    for thumb in [0x1D, 0x1C, 0x15] {
        assert!(is_thumb_shift_key(thumb));
        let mut layer = KeyLayer::new();
        assert!(layer.test_key_down(&engine, thumb, &NONE, false));
        assert_eq!(layer.key_down(&engine, thumb, &NONE, false, false, false), KeyAction::Eat);
        assert!(layer.test_key_down(&engine, 0x41, &NONE, false));
        assert_eq!(
            layer.key_down(&engine, 0x41, &NONE, false, false, false),
            KeyAction::ToEngine {
                forced: Forced::Shift,
                on_pass: None,
            }
        );
        assert!(layer.test_key_up(&engine, thumb));
        assert_eq!(layer.key_up(&engine, thumb), KeyAction::Eat);
        assert_eq!(layer, KeyLayer::new());
    }
}

#[test]
fn ctrl_keys_without_stand_ins() {
    let engine = in_mode(InputMode::Hiragana);
    let mut layer = KeyLayer::new();
    let ctrl = held(&[VK_CONTROL]);
    assert_eq!(
        layer.key_down(&engine, 0x46, &ctrl, false, false, true),
        KeyAction::Inject(simulated_key(VK_RIGHT, true))
    );
    assert_eq!(
        layer.key_down(&engine, 0x4B, &ctrl, false, false, false),
        KeyAction::Inject(kill_line(false))
    );
    assert_eq!(
        layer.key_down(&engine, VK_H, &ctrl, false, false, true),
        KeyAction::ToEngine {
            forced: Forced::Nothing,
            on_pass: Some(simulated_key(VK_BACK, true)),
        }
    );
    let plain = engine_with(Config {
        initial_mode: InputMode::Hiragana,
        emacs_bindings_enabled: false,
        ..Config::default()
    });
    assert_eq!(
        layer.key_down(&plain, 0x46, &ctrl, false, false, true),
        KeyAction::ToEngine {
            forced: Forced::Nothing,
            on_pass: None,
        }
    );
}

#[test]
fn law_no_key_stays_down() {
    for ctrl_held in [false, true] {
        for keys in [simulated_key(VK_RIGHT, ctrl_held), kill_line(ctrl_held)] {
            assert_eq!(down_after(&keys, VK_CONTROL, true), ctrl_held);
            for vk in [VK_SHIFT, VK_RIGHT, VK_END, VK_DELETE] {
                assert!(!down_after(&keys, vk, false));
            }
        }
    }
    for keys in [
        shifted_key(0x41),
        space_tap(),
        key_only(0x41),
        kill_line_no_ctrl(),
        ctrl_key(0x41),
    ] {
        for vk in [VK_CONTROL, VK_SHIFT, VK_SPACE, VK_END, VK_DELETE, 0x41] {
            assert!(!down_after(&keys, vk, false));
        }
    }
}

#[test]
fn pressed_keys_are_marked_where_they_come_back() {
    let key = |vk, up, tagged| SimKey { vk, up, tagged };
    assert_eq!(
        simulated_key(VK_BACK, true),
        vec![
            key(VK_CONTROL, true, false),
            key(VK_BACK, false, true),
            key(VK_BACK, true, true),
            key(VK_CONTROL, false, false),
        ]
    );
    assert_eq!(
        kill_line(false),
        vec![
            key(VK_SHIFT, false, false),
            key(VK_CONTROL, true, false),
            key(VK_END, false, true),
            key(VK_END, true, true),
            key(VK_SHIFT, true, false),
            key(VK_DELETE, false, true),
            key(VK_DELETE, true, true),
        ]
    );
}

#[test]
fn answers_change_the_document() {
    let shown = || Some("▽か".to_string());
    let plan = handle_engine_response(EngineResponse::PassThrough, shown(), true, None);
    assert!(!plan.eaten && plan.inject.is_empty() && plan.texts.is_empty() && !plan.refresh);
    let keys = simulated_key(VK_BACK, false);
    let plan = handle_engine_response(EngineResponse::PassThrough, None, true, Some(keys.clone()));
    assert!(plan.eaten && !plan.refresh);
    assert_eq!(plan.inject, keys);
    let plan = handle_engine_response(EngineResponse::Commit("漢".into()), shown(), true, None);
    assert!(plan.eaten && plan.refresh);
    assert_eq!(
        plan.texts,
        vec![TextAction::Replace("漢".into()), TextAction::Update("▽か".into())]
    );
    let plan = handle_engine_response(EngineResponse::Commit("漢".into()), None, false, None);
    assert_eq!(plan.texts, vec![TextAction::Insert("漢".into())]);
    let plan = handle_engine_response(EngineResponse::Consumed, None, true, None);
    assert_eq!(plan.texts, vec![TextAction::End]);
    let plan = handle_engine_response(EngineResponse::Consumed, None, false, None);
    assert!(plan.texts.is_empty() && plan.refresh);
}

#[test]
fn pages_hold_nine() {
    let page = candidate_page(9, 20);
    assert_eq!((page.start, page.end, page.selected, page.current, page.total), (9, 18, 0, 1, 3));
    let page = candidate_page(19, 20);
    assert_eq!((page.start, page.end, page.selected, page.current, page.total), (18, 20, 1, 2, 3));
    let page = candidate_page(8, 9);
    assert_eq!((page.start, page.end, page.selected, page.current, page.total), (0, 9, 8, 0, 1));
}

#[test]
fn dictionaries_are_looked_for_in_order() {
    let paths = dictionary_search_paths(Some("P"), Some("W"), Some("A"));
    assert_eq!(
        paths,
        vec![
            vec!["P", "SKK-JISYO.L"],
            vec!["W", "dict", "SKK-JISYO.L"],
            vec!["A", "Koyubi", "dict", "SKK-JISYO.L"],
            vec!["C:\\Program Files\\Koyubi\\dict\\SKK-JISYO.L"],
        ]
    );
    assert_eq!(dictionary_search_paths(None, Some("W"), None).len(), 1);
    let plan = dictionary_plan(&vec!["x".to_string(), "y".to_string()], None, None, None);
    assert!(!plan.first_only);
    assert_eq!(plan.paths, vec![vec!["x"], vec!["y"]]);
    let plan = dictionary_plan(&Vec::new(), None, None, Some("A"));
    assert!(plan.first_only);
    assert_eq!(plan.paths.len(), 2);
    assert_eq!(user_dictionary_path(Some("u"), Some("A")), Some(vec!["u".to_string()]));
    assert_eq!(
        user_dictionary_path(None, Some("A")).unwrap(),
        vec!["A", "Koyubi", "dict", "user-dict.skk"]
    );
    assert_eq!(user_dictionary_path(None, None), None);
}

#[test]
fn law_readable_dictionaries_are_taken() {
    let taken = |plan: &DictionaryPlan, readable: &[bool]| {
        let mut taken = Vec::new();
        let mut next = Some(0usize);
        while let Some(at) = next {
            if readable[at] {
                taken.push(at);
            }
            next = after_load(plan, at, readable[at]);
        }
        taken
    };
    let names: Vec<String> = ["x", "y", "z"].iter().map(|s| s.to_string()).collect();
    let all = dictionary_plan(&names, None, None, None);
    assert_eq!(taken(&all, &[true, false, true]), vec![0, 2]);
    assert_eq!(taken(&all, &[false, false, false]), Vec::<usize>::new());
    let one = dictionary_plan(&Vec::new(), Some("P"), None, Some("A"));
    assert_eq!(taken(&one, &[false, true, true]), vec![1]);
    assert_eq!(taken(&one, &[true, true, true]), vec![0]);
    assert_eq!(taken(&one, &[false, false, false]), Vec::<usize>::new());
}

#[test]
fn candidate_rows() {
    let with_note = CandidateDisplay {
        word: "気".to_string(),
        annotation: Some("spirit".to_string()),
    };
    let plain = CandidateDisplay {
        word: "木".to_string(),
        annotation: None,
    };
    assert_eq!(candidate_label(0, &with_note), "1. 気 ; spirit");
    assert_eq!(candidate_label(8, &plain), "9. 木");
    assert_eq!(page_label(1, 3), "[2/3]");
    assert_eq!(window_height(9, 1), 206);
    assert_eq!(window_height(9, 2), 228);
    assert_eq!(row_top(2), 48);
    assert_eq!(window_height(MAX_ROWS, 2), 2_147_483_632);
}

#[test]
fn law_rows_lie_within_the_window() {
    for count in 1..=9usize {
        for i in 0..count {
            assert!(row_top(i) + 22 <= window_height(count, 1) - 4);
        }
        assert_eq!(row_top(count) + 22, window_height(count, 2) - 4);
    }
}

#[test]
fn mode_icons() {
    let labels = ["A", "あ", "ア", "ｱ", "全", "ab"];
    let modes = [
        InputMode::Ascii,
        InputMode::Hiragana,
        InputMode::Katakana,
        InputMode::HankakuKatakana,
        InputMode::ZenkakuAscii,
        InputMode::Abbrev,
    ];
    for (mode, label) in modes.iter().zip(labels.iter()) {
        assert_eq!(mode_label(*mode), *label);
        assert!(mode_tooltip(*mode).starts_with("Koyubi SKK - "));
    }
    assert_eq!(mode_tooltip(InputMode::Katakana), "Koyubi SKK - カタカナ");
    assert_eq!(mode_font(InputMode::Ascii), "Segoe UI");
    assert_eq!(mode_font(InputMode::Hiragana), "Yu Gothic UI");
    assert_eq!(mode_font_size(InputMode::Abbrev), 10);
    assert_eq!(mode_font_size(InputMode::Ascii), 14);
    assert_eq!(centred(16, 9), 3);
    assert_eq!(centred(16, 19), -1);
    assert_eq!(centred(16, -2), 9);
    assert_eq!(centred(-1, i32::MAX), -0x4000_0000);
    assert_eq!(update_mode(InputMode::Ascii, InputMode::Ascii), None);
    assert_eq!(
        update_mode(InputMode::Ascii, InputMode::Hiragana),
        Some(InputMode::Hiragana)
    );
}

#[test]
fn descriptions_have_a_fixed_size() {
    let short = description(DISPLAY_NAME);
    let expected: Vec<u16> = DISPLAY_NAME.encode_utf16().collect();
    assert_eq!(&short[..expected.len()], expected.as_slice());
    assert!(short[expected.len()..].iter().all(|u| *u == 0));
    let long = description("0123456789012345678901234567890123456789");
    assert_eq!(long[30], '0' as u16);
    assert_eq!(long[31], 0);
}

#[test]
fn listeners_connect_once() {
    assert_eq!(advise(false, false), Err(ConnectError::CannotConnect));
    assert_eq!(advise(true, true), Err(ConnectError::AdviseLimit));
    assert_eq!(advise(true, false), Ok(1));
    assert_eq!(unadvise(1, true), Ok(()));
    assert_eq!(unadvise(2, true), Err(ConnectError::NoConnection));
    assert_eq!(unadvise(1, false), Err(ConnectError::NoConnection));
}

#[test]
fn first_settings_are_the_defaults() {
    let config = Config::from_str(DEFAULT_CONFIG_TOML);
    let default = Config::default();
    assert_eq!(config.initial_mode, default.initial_mode);
    assert_eq!(config.sands_enabled, default.sands_enabled);
    assert_eq!(config.emacs_bindings_enabled, default.emacs_bindings_enabled);
    assert_eq!(config.prev_candidate, default.prev_candidate);
    let hiragana = DEFAULT_CONFIG_TOML.replace("= \"ascii\"", "= \"hiragana\"");
    assert_eq!(Config::from_str(&hiragana).initial_mode, InputMode::Hiragana);
    let edited = DEFAULT_CONFIG_TOML.replace("sands_enabled = true", "sands_enabled = false");
    let config = Config::from_str(&edited);
    assert!(!config.sands_enabled);
    assert!(config.emacs_bindings_enabled);
    assert_eq!(settings_to_write(false), Some(DEFAULT_CONFIG_TOML));
    assert_eq!(settings_to_write(true), None);
}

#[test]
fn registry_keys() {
    let id = "{A7B3C4D5-E6F7-4890-AB12-CD34EF567890}";
    assert_eq!(guid_to_string(CLSID_KOYUBI_TEXT_SERVICE), id);
    assert_eq!(class_key(CLSID_KOYUBI_TEXT_SERVICE), format!("CLSID\\{}", id));
    assert_eq!(
        library_key(CLSID_KOYUBI_TEXT_SERVICE),
        format!("CLSID\\{}\\InprocServer32", id)
    );
    assert_eq!(guid_to_string(0), "{00000000-0000-0000-0000-000000000000}");
}

#[test]
fn law_objects_are_counted_in_balance() {
    let mut count = 0u32;
    inc_ref_count(&mut count);
    assert_eq!(ref_count(&count), 1);
    assert!(!can_unload(count));
    dec_ref_count(&mut count);
    assert!(can_unload(count));
    dec_ref_count(&mut count);
    assert_eq!(count, u32::MAX);
    inc_ref_count(&mut count);
    assert_eq!(count, 0);
}

#[test]
fn factory_answers() {
    let factory = ClassFactory::new();
    assert_eq!(factory.create_instance(false, false), Err(CreateError::NullPointer));
    assert_eq!(factory.create_instance(true, true), Err(CreateError::NoAggregation));
    assert_eq!(factory.create_instance(true, false), Ok(()));
    let mut count = 0u32;
    factory.lock_server(&mut count, true);
    assert_eq!(count, 1);
    factory.lock_server(&mut count, false);
    assert_eq!(count, 0);
    assert_eq!(get_class_object(false, true, true), Err(ClassError::Fail));
    assert_eq!(get_class_object(true, false, true), Err(ClassError::Fail));
    assert_eq!(get_class_object(true, true, false), Err(ClassError::NotAvailable));
    assert_eq!(get_class_object(true, true, true), Ok(ClassFactory));
}

#[test]
fn tool_commands() {
    let command = |args: &[&str]| {
        parse_command(&args.iter().map(|s| s.to_string()).collect::<Vec<String>>())
    };
    assert_eq!(command(&["koyubi-dict"]), Command::Usage);
    assert_eq!(command(&["koyubi-dict", "list"]), Command::List);
    assert_eq!(command(&["koyubi-dict", "download", "--all"]), Command::Download);
    assert_eq!(command(&["koyubi-dict", "status"]), Command::Status);
    for help in ["help", "--help", "-h"] {
        assert_eq!(command(&["koyubi-dict", help]), Command::Usage);
    }
    assert_eq!(
        command(&["koyubi-dict", "x"]),
        Command::Unknown("x".to_string())
    );
}

#[test]
fn tool_choices() {
    let options = |args: &[&str]| {
        parse_download_args(&args.iter().map(|s| s.to_string()).collect::<Vec<String>>()).unwrap()
    };
    match choose_entries(&options(&["--all", "-d", "x"])) {
        Ok(Choice::Entries(es)) => assert_eq!(es.len(), 5),
        other => panic!("{:?}", other),
    }
    assert_eq!(choose_entries(&options(&["-q"])), Ok(Choice::Ask));
    assert_eq!(
        choose_entries(&options(&["-d", "x"])),
        Err("Unknown dictionary: x".to_string())
    );
    match choose_entries(&options(&["-d", "SKK-JISYO.geo"])) {
        Ok(Choice::Entries(es)) => assert_eq!(es[0].description, "Place names"),
        other => panic!("{:?}", other),
    }
}

#[test]
fn selections_with_odd_numbers() {
    assert_eq!(parse_selection("+1").unwrap()[0].name, "SKK-JISYO.L");
    assert_eq!(
        parse_selection("1 007 x"),
        Err("Number out of range: 7".to_string())
    );
    assert_eq!(parse_selection("1 x 99"), Err("Invalid number: x".to_string()));
    assert_eq!(
        parse_selection("99999999999999999999"),
        Err("Invalid number: 99999999999999999999".to_string())
    );
    assert_eq!(parse_selection("\u{3000}2\u{3000}2 ").unwrap().len(), 2);
}

#[test]
fn downloads_are_reported() {
    let outcomes = vec![
        Outcome::Downloaded,
        Outcome::Skipped,
        Outcome::Downloaded,
        Outcome::Failed,
    ];
    let t = tally(&outcomes);
    assert_eq!((t.success, t.skipped, t.failed), (2, 1, 1));
    assert_eq!(summary(&t), "Done: 2 downloaded, 1 skipped, 1 failed");
    assert_eq!(exit_code(&t), 1);
    assert_eq!(exit_code(&tally(&vec![Outcome::Skipped])), 0);
    let entry = find_dict("SKK-JISYO.geo").unwrap();
    assert_eq!(
        dict_url(&entry),
        "https://raw.githubusercontent.com/skk-dev/dict/master/SKK-JISYO.geo"
    );
    assert_eq!(part_name(&entry), "SKK-JISYO.geo.part");
    assert_eq!(content_length("4300000"), Some(4_300_000));
    assert_eq!(content_length("many"), None);
}

#[test]
fn dictionary_folder() {
    assert_eq!(
        dict_dir_parts(true, Some("C:\\A")).unwrap(),
        vec!["C:\\A", "Koyubi", "dict"]
    );
    assert_eq!(
        dict_dir_parts(false, Some("/home/u")).unwrap(),
        vec!["/home/u", ".config", "koyubi", "dict"]
    );
    assert_eq!(
        dict_dir_parts(true, None),
        Err("APPDATA environment variable not set".to_string())
    );
    assert_eq!(
        dict_dir_parts(false, None),
        Err("HOME environment variable not set".to_string())
    );
}
