//! Dictionaries: reading their text, lookup, writing.
use koyubi::dict::{decode_auto, is_okuri_ari, parse_line, DictEntry, DictError, Dictionary};

// === パース基本テスト ===

#[test]
fn test_parse_okuri_nashi() {
    let dict = Dictionary::from_str("かんじ /漢字/感じ/幹事/\n");
    let entries = dict.lookup_okuri_nashi("かんじ").expect("entry should exist");
    assert_eq!(entries.len(), 3);
    assert_eq!(entries[0].word, "漢字");
    assert_eq!(entries[1].word, "感じ");
    assert_eq!(entries[2].word, "幹事");
    assert!(entries.iter().all(|e| e.annotation.is_none()));
}

#[test]
fn test_parse_okuri_ari() {
    let dict = Dictionary::from_str("おおk /大/多/\n");
    let entries = dict.lookup_okuri_ari("おおk").expect("entry should exist");
    assert_eq!(entries.len(), 2);
    assert_eq!(entries[0].word, "大");
    assert_eq!(entries[1].word, "多");
}

#[test]
fn test_parse_annotation() {
    let dict = Dictionary::from_str("かんじ /漢字;Chinese character/感じ;feeling/\n");
    let entries = dict.lookup("かんじ").expect("entry should exist");
    assert_eq!(entries.len(), 2);
    assert_eq!(entries[0].word, "漢字");
    assert_eq!(
        entries[0].annotation.as_deref(),
        Some("Chinese character")
    );
    assert_eq!(entries[1].word, "感じ");
    assert_eq!(entries[1].annotation.as_deref(), Some("feeling"));
}

#[test]
fn test_parse_mixed_annotation() {
    let dict = Dictionary::from_str("き /木/気;spirit/\n");
    let entries = dict.lookup("き").expect("entry should exist");
    assert_eq!(entries.len(), 2);
    assert_eq!(entries[0].word, "木");
    assert!(entries[0].annotation.is_none());
    assert_eq!(entries[1].word, "気");
    assert_eq!(entries[1].annotation.as_deref(), Some("spirit"));
}

// === コメント・空行処理 ===

#[test]
fn test_skip_comments() {
    let content = "\
;; SKK-JISYO.test
;; okuri-nashi entries.
かんじ /漢字/
";
    let dict = Dictionary::from_str(content);
    assert_eq!(dict.entry_count(), 1);
    assert!(dict.lookup("かんじ").is_some());
}

#[test]
fn test_skip_empty_lines() {
    let content = "\n\nかんじ /漢字/\n\nとうきょう /東京/\n\n";
    let dict = Dictionary::from_str(content);
    assert_eq!(dict.entry_count(), 2);
}

// === 検索テスト ===

#[test]
fn test_lookup_not_found() {
    let dict = Dictionary::from_str("かんじ /漢字/\n");
    assert!(dict.lookup("そんざいしない").is_none());
}

#[test]
fn test_lookup_auto_detect_okuri() {
    let content = "\
おおk /大/多/
かんじ /漢字/
";
    let dict = Dictionary::from_str(content);

    // 送りあり（末尾が ASCII 小文字）
    let entries = dict.lookup("おおk").expect("okuri-ari should exist");
    assert_eq!(entries[0].word, "大");

    // 送りなし
    let entries = dict.lookup("かんじ").expect("okuri-nashi should exist");
    assert_eq!(entries[0].word, "漢字");
}

#[test]
fn test_lookup_okuri_nashi_does_not_find_okuri_ari() {
    let dict = Dictionary::from_str("おおk /大/\n");
    assert!(dict.lookup_okuri_nashi("おおk").is_none());
    assert!(dict.lookup_okuri_ari("おおk").is_some());
}

#[test]
fn test_lookup_okuri_ari_does_not_find_okuri_nashi() {
    let dict = Dictionary::from_str("かんじ /漢字/\n");
    assert!(dict.lookup_okuri_ari("かんじ").is_none());
    assert!(dict.lookup_okuri_nashi("かんじ").is_some());
}

// === エントリ数テスト ===

#[test]
fn test_entry_count() {
    let content = "\
;; okuri-ari entries.
おおk /大/多/
うごk /動/
;; okuri-nashi entries.
かんじ /漢字/感じ/幹事/
とうきょう /東京/
にほん /日本/
";
    let dict = Dictionary::from_str(content);
    assert_eq!(dict.okuri_ari_count(), 2);
    assert_eq!(dict.okuri_nashi_count(), 3);
    assert_eq!(dict.entry_count(), 5);
}

// === is_okuri_ari テスト ===

#[test]
fn test_is_okuri_ari() {
    assert!(is_okuri_ari("おおk"));
    assert!(is_okuri_ari("うごk"));
    assert!(is_okuri_ari("おしえr"));
    assert!(is_okuri_ari("たべr"));
    assert!(!is_okuri_ari("かんじ"));
    assert!(!is_okuri_ari("とうきょう"));
    assert!(!is_okuri_ari(""));
}

// === parse_line テスト ===

#[test]
fn test_parse_line_basic() {
    let (reading, entries) =
        parse_line("かんじ /漢字/感じ/").expect("should parse");
    assert_eq!(reading, "かんじ");
    assert_eq!(entries.len(), 2);
}

#[test]
fn test_parse_line_single_candidate() {
    let (reading, entries) =
        parse_line("とうきょう /東京/").expect("should parse");
    assert_eq!(reading, "とうきょう");
    assert_eq!(entries.len(), 1);
    assert_eq!(entries[0].word, "東京");
}

#[test]
fn test_parse_line_with_annotation() {
    let (_, entries) =
        parse_line("き /木/気;spirit/器;utensil/").expect("should parse");
    assert_eq!(entries.len(), 3);
    assert!(entries[0].annotation.is_none());
    assert_eq!(entries[1].annotation.as_deref(), Some("spirit"));
    assert_eq!(entries[2].annotation.as_deref(), Some("utensil"));
}

#[test]
fn test_parse_line_no_space() {
    assert!(parse_line("invalidline").is_none());
}

#[test]
fn test_parse_line_no_slash() {
    assert!(parse_line("かんじ 漢字").is_none());
}

#[test]
fn test_parse_line_empty_candidates() {
    assert!(parse_line("かんじ //").is_none());
}

#[test]
fn test_parse_line_empty_reading() {
    assert!(parse_line(" /漢字/").is_none());
}

// === 実用的な辞書テスト ===

#[test]
fn test_realistic_dictionary() {
    let content = "\
;; SKK-JISYO.test -*- coding: utf-8 -*-
;; okuri-ari entries.
おおk /大/多/
うごk /動/
たべr /食/
かk /書/欠/掛/
;; okuri-nashi entries.
かんじ /漢字/感じ/幹事/
とうきょう /東京/
にほん /日本/
にっぽん /日本/
ひと /人/
き /木/気;spirit/器;utensil/生;raw/
";
    let dict = Dictionary::from_str(content);

    // 送りあり
    assert_eq!(dict.okuri_ari_count(), 4);
    let entries = dict.lookup("おおk").expect("should exist");
    assert_eq!(entries.len(), 2);
    assert_eq!(entries[0].word, "大");

    let entries = dict.lookup("かk").expect("should exist");
    assert_eq!(entries.len(), 3);

    // 送りなし
    assert_eq!(dict.okuri_nashi_count(), 6);
    let entries = dict.lookup("かんじ").expect("should exist");
    assert_eq!(entries.len(), 3);

    let entries = dict.lookup("にほん").expect("should exist");
    assert_eq!(entries.len(), 1);
    assert_eq!(entries[0].word, "日本");

    // 注釈あり
    let entries = dict.lookup("き").expect("should exist");
    assert_eq!(entries.len(), 4);
    assert_eq!(entries[0].word, "木");
    assert!(entries[0].annotation.is_none());
    assert_eq!(entries[2].word, "器");
    assert_eq!(entries[2].annotation.as_deref(), Some("utensil"));

    // 見つからない読み
    assert!(dict.lookup("そんざいしない").is_none());
}

// === エンコーディングテスト ===

#[test]
fn test_decode_utf8() {
    let content = "かんじ /漢字/\n";
    let decoded = decode_auto(content.as_bytes()).expect("should decode");
    assert_eq!(decoded, content);
}

#[test]
fn test_decode_euc_jp() {
    // "かんじ /漢字/" を EUC-JP でエンコード
    let (encoded, _, _) = encoding_rs::EUC_JP.encode("かんじ /漢字/\n");
    let decoded = decode_auto(&encoded).expect("should decode");
    assert_eq!(decoded, "かんじ /漢字/\n");
}

#[test]
fn test_decode_invalid() {
    // 不正なバイト列（UTF-8 でも EUC-JP でもない）
    let bytes: &[u8] = &[0x80, 0x81, 0x82, 0x83, 0xFF, 0xFE];
    let result = decode_auto(bytes);
    // EUC-JP デコーダは寛容なので、had_errors になるかは入力次第
    // ここではエラーにならなくても OK（不正な文字が置換されるだけ）
    // 重要なのはパニックしないこと
    let _ = result;
}

// === Default トレイト ===

#[test]
fn test_empty_dictionary() {
    let dict = Dictionary::new();
    assert_eq!(dict.entry_count(), 0);
    assert!(dict.lookup("かんじ").is_none());
}

// === add_entry テスト ===

#[test]
fn test_add_entry_basic() {
    let mut dict = Dictionary::new();
    dict.add_entry(
        "てすと",
        DictEntry {
            word: "テスト".to_string(),
            annotation: None,
        },
    );
    let entries = dict.lookup("てすと").expect("should exist");
    assert_eq!(entries.len(), 1);
    assert_eq!(entries[0].word, "テスト");
}

#[test]
fn test_add_entry_prepend() {
    let mut dict = Dictionary::from_str("かんじ /漢字/幹事/\n");
    dict.add_entry(
        "かんじ",
        DictEntry {
            word: "感じ".to_string(),
            annotation: None,
        },
    );
    let entries = dict.lookup("かんじ").expect("should exist");
    assert_eq!(entries.len(), 3);
    assert_eq!(entries[0].word, "感じ"); // 先頭に挿入
    assert_eq!(entries[1].word, "漢字");
    assert_eq!(entries[2].word, "幹事");
}

#[test]
fn test_add_entry_no_duplicate() {
    let mut dict = Dictionary::from_str("かんじ /漢字/感じ/\n");
    dict.add_entry(
        "かんじ",
        DictEntry {
            word: "漢字".to_string(),
            annotation: None,
        },
    );
    let entries = dict.lookup("かんじ").expect("should exist");
    assert_eq!(entries.len(), 2); // 重複はスキップ
}

#[test]
fn test_add_entry_okuri_ari() {
    let mut dict = Dictionary::new();
    dict.add_entry(
        "おおk",
        DictEntry {
            word: "大".to_string(),
            annotation: None,
        },
    );
    assert!(dict.lookup_okuri_ari("おおk").is_some());
    assert!(dict.lookup_okuri_nashi("おおk").is_none());
}

// === to_skk_string / roundtrip テスト ===

#[test]
fn test_to_skk_string_roundtrip() {
    let mut dict = Dictionary::new();
    dict.add_entry(
        "かんじ",
        DictEntry {
            word: "漢字".to_string(),
            annotation: None,
        },
    );
    dict.add_entry(
        "かんじ",
        DictEntry {
            word: "感じ".to_string(),
            annotation: Some("feeling".to_string()),
        },
    );
    let skk = dict.to_skk_string();
    let dict2 = Dictionary::from_str(&skk);
    let entries = dict2.lookup("かんじ").expect("should exist");
    assert_eq!(entries.len(), 2);
    assert_eq!(entries[0].word, "感じ");
    assert_eq!(entries[0].annotation.as_deref(), Some("feeling"));
    assert_eq!(entries[1].word, "漢字");
}
