//! Romaji, dictionaries, settings and numbers: laws and edges on chosen values.
use koyubi::config::{parse_mode, Config, TomlField};
use koyubi::dict::{
    accept_decoded, decode_auto, format_dict_line, has_word, io_message, parse_line, DictEntry,
    DictError, Dictionary,
};
use koyubi::numerals::{decimal_text, hex_text, parse_u64};
use koyubi::order::{comes_before, sorted_positions};
use koyubi::romaji::{RomajiConverter, RomajiTable};
use koyubi::romaji_table::DEFAULT_ENTRIES;
use koyubi::text::{char_string, chars_of, concat2, find_char, same_text, string_of, trim_range};
use koyubi::wide::{to_wide, to_wide_null};
use koyubi::InputMode;

fn entry(word: &str, annotation: Option<&str>) -> DictEntry {
    DictEntry {
        word: word.to_string(),
        annotation: annotation.map(|a| a.to_string()),
    }
}

#[test]
fn law_no_romaji_starts_another() {
    for (a, _, _) in DEFAULT_ENTRIES.iter() {
        for (b, _, _) in DEFAULT_ENTRIES.iter() {
            assert!(a == b || !b.starts_with(a), "{} {}", a, b);
        }
    }
}

#[test]
fn law_typing_each_row_gives_its_kana() {
    let table = RomajiTable::default_table();
    for (romaji, kana, remainder) in DEFAULT_ENTRIES.iter() {
        let mut conv = RomajiConverter::new();
        let mut out = String::new();
        for ch in romaji.chars() {
            out.push_str(&conv.feed(ch, &table).committed);
        }
        assert_eq!(&out, kana);
        assert_eq!(&conv.pending(), remainder);
        let (k, r) = table.lookup(romaji).unwrap();
        assert_eq!((k.as_str(), r.as_str()), (*kana, *remainder));
        assert!(table.lookup(remainder).is_none());
    }
}

#[test]
fn law_pending_is_always_a_start() {
    let table = RomajiTable::default_table();
    let mut conv = RomajiConverter::default();
    for ch in "kyqxtsuu9あnnk shch!".chars() {
        conv.feed(ch, &table);
        assert!(conv.pending().is_empty() || table.is_valid_prefix(conv.pending()));
        assert!(table.lookup(conv.pending()).is_none());
        assert!(conv.pending().len() <= 3);
    }
}

#[test]
fn law_backspace_keeps_a_start() {
    let table = RomajiTable::default_table();
    let mut conv = RomajiConverter::new();
    conv.feed('c', &table);
    conv.feed('h', &table);
    assert_eq!(conv.pending(), "ch");
    assert!(conv.backspace());
    assert!(table.is_valid_prefix(conv.pending()));
    assert!(conv.backspace());
    assert!(!conv.backspace());
}

#[test]
fn empty_text_is_no_start() {
    let table = RomajiTable::default_table();
    assert!(!table.is_valid_prefix(""));
    assert!(table.lookup("").is_none());
}

#[test]
fn law_written_dictionary_is_read_back() {
    let mut dict = Dictionary::new();
    dict.add_entry("おおk", entry("大", None));
    dict.add_entry("うごk", entry("動", Some("move; go")));
    dict.add_entry("き", entry("木", None));
    dict.add_entry("き", entry("", Some("only a note")));
    dict.add_entry(";a", entry(" ", None));
    let text = dict.to_skk_string();
    assert_eq!(
        text,
        ";a / /\nうごk /動;move; go/\nおおk /大/\nき /;only a note/木/"
    );
    let back = Dictionary::from_str(&text);
    assert_eq!(back.to_skk_string(), text);
    for reading in ["おおk", "うごk", "き", ";a"] {
        assert_eq!(back.lookup(reading), dict.lookup(reading));
    }
    assert_eq!(back.entry_count(), dict.entry_count());
}

#[test]
fn law_file_bytes_are_read_back() {
    let dict = Dictionary::from_str("かんじ /漢字;kanji/感じ/\nおおk /大/\n");
    let bytes = dict.to_skk_string().into_bytes();
    let back = Dictionary::from_bytes(&bytes).unwrap();
    assert_eq!(back.to_skk_string(), dict.to_skk_string());
}

#[test]
fn what_cannot_stand_in_a_line_is_not_read_back() {
    let mut dict = Dictionary::new();
    dict.add_entry("き", entry("a/b", None));
    let back = Dictionary::from_str(&dict.to_skk_string());
    assert_eq!(back.lookup("き").unwrap(), &[entry("a", None), entry("b", None)]);
}

#[test]
fn law_added_word_is_found_once() {
    let mut dict = Dictionary::from_str("き /木/気/");
    dict.add_entry("き", entry("樹", None));
    dict.add_entry("き", entry("樹", Some("again")));
    dict.add_entry("き", entry("気", None));
    let words: Vec<&str> = dict.lookup("き").unwrap().iter().map(|e| e.word.as_str()).collect();
    assert_eq!(words, vec!["樹", "木", "気"]);
    assert!(has_word(&vec![entry("木", None)], "木"));
    assert!(!has_word(&vec![entry("木", None)], "気"));
}

#[test]
fn law_other_lines_change_nothing() {
    let plain = Dictionary::from_str("き /木/\n");
    let noisy = Dictionary::from_str(";; note\n\nき\n /x/\nき 木\n  き /木/\t\r\nく //\n;;き /火/\n");
    assert_eq!(noisy.to_skk_string(), plain.to_skk_string());
}

#[test]
fn law_counts_add_up() {
    let dict = Dictionary::from_str("おおk /大/\nうごk /動/\nき /木/\n");
    assert_eq!(dict.okuri_ari_count(), 2);
    assert_eq!(dict.okuri_nashi_count(), 1);
    assert_eq!(dict.entry_count(), 3);
}

#[test]
fn law_line_is_read_as_it_was_written() {
    let entries = vec![entry("木", None), entry("気", Some("spirit"))];
    let line = format_dict_line("き", &entries);
    assert_eq!(line, "き /木/気;spirit/");
    assert_eq!(parse_line(&line), Some(("き".to_string(), entries)));
}

#[test]
fn euc_jp_file_is_read() {
    let (encoded, _, _) = encoding_rs::EUC_JP.encode("かんじ /漢字/\n");
    let dict = Dictionary::from_bytes(&encoded).unwrap();
    assert_eq!(dict.lookup("かんじ").unwrap(), &[entry("漢字", None)]);
}

#[test]
fn undecodable_bytes_are_an_encoding_error() {
    let bytes: &[u8] = &[0x80, 0x81];
    match decode_auto(bytes) {
        Err(DictError::Encoding(msg)) => assert_eq!(msg, "Failed to decode as UTF-8 or EUC-JP"),
        other => panic!("unexpected: {:?}", other),
    }
    match Dictionary::from_bytes(bytes) {
        Err(e) => assert_eq!(
            e.message(),
            "Encoding error: Failed to decode as UTF-8 or EUC-JP"
        ),
        Ok(_) => panic!("decoded"),
    }
}

#[test]
fn decoded_text_is_accepted_without_errors_only() {
    assert_eq!(accept_decoded("a".to_string(), false).unwrap(), "a");
    assert!(accept_decoded("a".to_string(), true).is_err());
}

#[test]
fn io_errors_become_dictionary_errors() {
    let e = DictError::from(std::io::Error::new(std::io::ErrorKind::NotFound, "gone"));
    assert!(matches!(e, DictError::Io(_)));
    assert_eq!(e.message(), "I/O error: gone");
    assert_eq!(io_message("gone"), "I/O error: gone");
}

#[test]
fn law_unknown_settings_are_ignored() {
    let config = Config::from_str("a = 1\ntoggle_kana = \"t\"\n[b]\nc = 2\n");
    assert_eq!(config.toggle_kana, 't');
    assert_eq!(config.enter_ascii, 'l');
}

#[test]
fn law_missing_settings_have_defaults() {
    let config = Config::from_str("caps_ctrl_enabled = true");
    assert!(config.caps_ctrl_enabled);
    assert!(config.sands_enabled && config.emacs_bindings_enabled && !config.thumb_shift_enabled);
    assert!(config.system_dict_paths.is_empty() && config.user_dict_path.is_none());
    assert_eq!(config.enter_zenkaku, 'L');
}

#[test]
fn wrong_values_give_the_defaults() {
    for wrong in [
        "sands_enabled = 1",
        "emacs_bindings_enabled = \"yes\"",
        "thumb_shift_enabled = []",
        "caps_ctrl_enabled = 1979-05-27",
        "system_dict_paths = \"a\"",
        "system_dict_paths = [\"a\", 1]",
        "user_dict_path = 1979-05-27",
        "toggle_kana = \"\"",
        "enter_ascii = \"ab\"",
        "enter_zenkaku = true",
        "prev_candidate = 1.5",
        "initial_mode = \"Hiragana\"",
        "initial_mode = { hiragana = 1 }",
        "initial_mode = { hiragana = {}, katakana = {} }",
        "initial_mode = { hiragana = [1] }",
    ] {
        let config = Config::from_str(&format!("caps_ctrl_enabled = true\n{}", wrong));
        assert!(!config.caps_ctrl_enabled, "{}", wrong);
        assert_eq!(config.initial_mode, InputMode::Ascii, "{}", wrong);
    }
}

#[test]
fn mode_can_be_the_key_of_a_table() {
    for text in [
        "initial_mode = { hiragana = {} }",
        "initial_mode = { hiragana = [] }",
        "[initial_mode.hiragana]",
        "initial_mode = \"hiragana\"",
    ] {
        assert_eq!(Config::from_str(text).initial_mode, InputMode::Hiragana, "{}", text);
    }
    assert_eq!(
        Config::from_str("initial_mode = \"abbrev\"").initial_mode,
        InputMode::Abbrev
    );
}

#[test]
fn fields_make_settings() {
    let fields = vec![
        ("sands_enabled".to_string(), TomlField::Flag(false)),
        ("toggle_kana".to_string(), TomlField::Text("あ".to_string())),
        ("other".to_string(), TomlField::Other),
        (
            "system_dict_paths".to_string(),
            TomlField::List(vec![Some("a".to_string()), Some("b".to_string())]),
        ),
        ("user_dict_path".to_string(), TomlField::Text("u".to_string())),
    ];
    let config = Config::from_fields(&fields);
    assert!(!config.sands_enabled);
    assert_eq!(config.toggle_kana, 'あ');
    assert_eq!(config.system_dict_paths, vec!["a", "b"]);
    assert_eq!(config.user_dict_path.as_deref(), Some("u"));
    let mut wrong = fields.clone();
    wrong.push((
        "initial_mode".to_string(),
        TomlField::Group(vec![("ascii".to_string(), None)]),
    ));
    assert!(Config::from_fields(&wrong).sands_enabled);
}

#[test]
fn mode_names_are_read() {
    assert_eq!(parse_mode("zenkaku_ascii"), Some(InputMode::ZenkakuAscii));
    assert_eq!(parse_mode("Ascii"), None);
}

#[test]
fn law_decimal_numbers_are_read_back() {
    for n in [0u64, 7, 10, 1234567890, u64::MAX] {
        assert_eq!(decimal_text(n), n.to_string());
        assert_eq!(parse_u64(&decimal_text(n)), Some(n));
    }
}

#[test]
fn numbers_are_read_like_unsigned_integers() {
    for text in [
        "", "+", "+5", "-5", "-0", "007", "5 ", " 5", "18446744073709551615",
        "18446744073709551616", "99999999999999999999999", "１", "1e3",
    ] {
        assert_eq!(parse_u64(text), text.parse::<u64>().ok(), "{:?}", text);
    }
}

#[test]
fn hexadecimal_digits_have_a_width() {
    assert_eq!(hex_text(0xAB12, 4), "AB12");
    assert_eq!(hex_text(0xAB12, 6), "00AB12");
    assert_eq!(hex_text(0xAB12, 2), "12");
}

#[test]
fn units_are_utf16() {
    for text in ["", "a", "あ", "𠮷野家", "\u{10FFFF}\u{FFFF}\u{10000}"] {
        let expected: Vec<u16> = text.encode_utf16().collect();
        assert_eq!(to_wide(text), expected);
    }
}

#[test]
fn law_only_the_last_unit_is_zero() {
    let units = to_wide_null("Koyubi 𠮷");
    assert_eq!(units.iter().position(|u| *u == 0), Some(units.len() - 1));
}

#[test]
fn order_is_by_code_points() {
    let mut words: Vec<String> = ["き", "かん", "か", "", "𠮷", "ｱ", "a"]
        .iter()
        .map(|s| s.to_string())
        .collect();
    let perm = sorted_positions(&words, 0, words.len());
    let sorted: Vec<String> = perm.iter().map(|i| words[*i].clone()).collect();
    words.sort();
    assert_eq!(sorted, words);
    assert!(comes_before("か", "かん"));
    assert!(!comes_before("か", "か"));
    assert!(!comes_before("き", "かん"));
}

#[test]
fn pieces_of_text() {
    let chars = chars_of(" \u{3000}a b;\t");
    assert_eq!(trim_range(&chars, 0, chars.len()), (2, 6));
    assert_eq!(string_of(&chars, 2, 6), "a b;");
    assert_eq!(find_char(&chars, 2, 6, ';'), 5);
    assert_eq!(find_char(&chars, 2, 6, '/'), 6);
    assert_eq!(char_string('あ'), "あ");
    assert_eq!(concat2("あ", "い"), "あい");
    assert!(same_text("a", "a") && !same_text("a", "b"));
}

#[test]
fn law_one_text_behind_another() {
    let (a, b) = ("き /木/\nく /区/", ";; note\nき /気;mind/木/\nけ /毛/\n");
    let both = Dictionary::from_str(&format!("{}\n{}", a, b));
    assert_eq!(
        both.lookup("き").unwrap(),
        &[entry("木", None), entry("気", Some("mind")), entry("木", None)]
    );
    assert_eq!(both.lookup("く").unwrap(), &[entry("区", None)]);
    assert_eq!(both.lookup("け").unwrap(), &[entry("毛", None)]);
    assert_eq!(both.entry_count(), 3);
}
