//! Romaji to kana.
use koyubi::romaji::{RomajiConverter, RomajiTable};
use koyubi::romaji_table::DEFAULT_ENTRIES;

fn convert(input: &str) -> (String, String) {
    let table = RomajiTable::default_table();
    let mut conv = RomajiConverter::new();
    let mut result = String::new();
    for ch in input.chars() {
        let out = conv.feed(ch, &table);
        result.push_str(&out.committed);
    }
    let flushed = conv.flush();
    result.push_str(&flushed);
    (result, conv.pending().to_string())
}

fn convert_no_flush(input: &str) -> (String, String) {
    let table = RomajiTable::default_table();
    let mut conv = RomajiConverter::new();
    let mut result = String::new();
    for ch in input.chars() {
        let out = conv.feed(ch, &table);
        result.push_str(&out.committed);
    }
    (result, conv.pending().to_string())
}

// --- 基本母音 ---

#[test]
fn test_vowels() {
    assert_eq!(convert("aiueo"), ("あいうえお".to_string(), String::new()));
}

// --- 子音 + 母音 ---

#[test]
fn test_ka_row() {
    assert_eq!(convert("kakikukeko"), ("かきくけこ".to_string(), String::new()));
}

#[test]
fn test_sa_row() {
    assert_eq!(convert("sasuseso"), ("さすせそ".to_string(), String::new()));
    assert_eq!(convert("si"), ("し".to_string(), String::new()));
    assert_eq!(convert("shi"), ("し".to_string(), String::new()));
}

#[test]
fn test_ta_row() {
    assert_eq!(convert("tateto"), ("たてと".to_string(), String::new()));
    assert_eq!(convert("ti"), ("ち".to_string(), String::new()));
    assert_eq!(convert("chi"), ("ち".to_string(), String::new()));
    assert_eq!(convert("tu"), ("つ".to_string(), String::new()));
    assert_eq!(convert("tsu"), ("つ".to_string(), String::new()));
}

#[test]
fn test_na_row() {
    assert_eq!(convert("naninuneno"), ("なにぬねの".to_string(), String::new()));
}

#[test]
fn test_ha_row() {
    assert_eq!(convert("hahihuheho"), ("はひふへほ".to_string(), String::new()));
    assert_eq!(convert("fu"), ("ふ".to_string(), String::new()));
}

#[test]
fn test_ma_row() {
    assert_eq!(convert("mamimumemo"), ("まみむめも".to_string(), String::new()));
}

#[test]
fn test_ya_row() {
    assert_eq!(convert("yayuyo"), ("やゆよ".to_string(), String::new()));
}

#[test]
fn test_ra_row() {
    assert_eq!(convert("rarirurero"), ("らりるれろ".to_string(), String::new()));
}

#[test]
fn test_wa_row() {
    assert_eq!(convert("wawo"), ("わを".to_string(), String::new()));
}

// --- 濁音・半濁音 ---

#[test]
fn test_dakuten() {
    assert_eq!(convert("gagigugego"), ("がぎぐげご".to_string(), String::new()));
    assert_eq!(convert("zazizuzezo"), ("ざじずぜぞ".to_string(), String::new()));
    assert_eq!(convert("dadidudedo"), ("だぢづでど".to_string(), String::new()));
    assert_eq!(convert("babibubebo"), ("ばびぶべぼ".to_string(), String::new()));
}

#[test]
fn test_handakuten() {
    assert_eq!(convert("papipupepo"), ("ぱぴぷぺぽ".to_string(), String::new()));
}

// --- 拗音 ---

#[test]
fn test_youon_ky() {
    assert_eq!(convert("kyakyukyo"), ("きゃきゅきょ".to_string(), String::new()));
}

#[test]
fn test_youon_sh() {
    assert_eq!(convert("shashusho"), ("しゃしゅしょ".to_string(), String::new()));
}

#[test]
fn test_youon_ch() {
    assert_eq!(convert("chachucho"), ("ちゃちゅちょ".to_string(), String::new()));
}

#[test]
fn test_youon_ny() {
    assert_eq!(convert("nyanyunyo"), ("にゃにゅにょ".to_string(), String::new()));
}

#[test]
fn test_youon_hy() {
    assert_eq!(convert("hyahyuhyo"), ("ひゃひゅひょ".to_string(), String::new()));
}

#[test]
fn test_youon_my() {
    assert_eq!(convert("myamyumyo"), ("みゃみゅみょ".to_string(), String::new()));
}

#[test]
fn test_youon_ry() {
    assert_eq!(convert("ryaryuryo"), ("りゃりゅりょ".to_string(), String::new()));
}

#[test]
fn test_youon_gy() {
    assert_eq!(convert("gyagyugyo"), ("ぎゃぎゅぎょ".to_string(), String::new()));
}

#[test]
fn test_youon_by() {
    assert_eq!(convert("byabyubyo"), ("びゃびゅびょ".to_string(), String::new()));
}

#[test]
fn test_youon_py() {
    assert_eq!(convert("pyapyupyo"), ("ぴゃぴゅぴょ".to_string(), String::new()));
}

#[test]
fn test_youon_ja() {
    assert_eq!(convert("jajujo"), ("じゃじゅじょ".to_string(), String::new()));
}

// --- 促音（っ） ---

#[test]
fn test_sokuon_kk() {
    assert_eq!(convert("kakko"), ("かっこ".to_string(), String::new()));
}

#[test]
fn test_sokuon_tt() {
    assert_eq!(convert("kitto"), ("きっと".to_string(), String::new()));
}

#[test]
fn test_sokuon_ss() {
    assert_eq!(convert("massugu"), ("まっすぐ".to_string(), String::new()));
}

#[test]
fn test_sokuon_pp() {
    assert_eq!(convert("nippon"), ("にっぽん".to_string(), String::new()));
}

#[test]
fn test_sokuon_cc() {
    assert_eq!(convert("kocchi"), ("こっち".to_string(), String::new()));
}

// --- ん の処理 ---

#[test]
fn test_nn() {
    assert_eq!(convert("nn"), ("ん".to_string(), String::new()));
}

#[test]
fn test_n_apostrophe() {
    assert_eq!(convert("n'"), ("ん".to_string(), String::new()));
}

#[test]
fn test_n_before_consonant() {
    assert_eq!(convert("kankei"), ("かんけい".to_string(), String::new()));
}

#[test]
fn test_n_before_vowel() {
    // "na" は "な" であり、"ん" + "あ" にはならない
    assert_eq!(convert("na"), ("な".to_string(), String::new()));
}

#[test]
fn test_n_at_end_flush() {
    // flush で末尾の n が ん になる
    assert_eq!(convert("kan"), ("かん".to_string(), String::new()));
}

#[test]
fn test_n_at_end_no_flush() {
    // flush しなければ n は pending のまま
    assert_eq!(
        convert_no_flush("kan"),
        ("か".to_string(), "n".to_string())
    );
}

#[test]
fn test_shinbun() {
    assert_eq!(convert("shinbun"), ("しんぶん".to_string(), String::new()));
}

#[test]
fn test_konnichiha() {
    // "nn" → ん, 残りの "n" が次の "ni" → に の開始になる
    assert_eq!(
        convert("konnnichiha"),
        ("こんにちは".to_string(), String::new())
    );
    // n' で明示的に ん を確定する方法でも同じ結果
    assert_eq!(
        convert("kon'nichiha"),
        ("こんにちは".to_string(), String::new())
    );
    // "konnichiha"（n が2つ）は "こんいちは" になる（nn→ん, i→い）
    assert_eq!(
        convert("konnichiha"),
        ("こんいちは".to_string(), String::new())
    );
}

// --- 小書きかな ---

#[test]
fn test_small_kana() {
    assert_eq!(convert("xa"), ("ぁ".to_string(), String::new()));
    assert_eq!(convert("xi"), ("ぃ".to_string(), String::new()));
    assert_eq!(convert("xu"), ("ぅ".to_string(), String::new()));
    assert_eq!(convert("xe"), ("ぇ".to_string(), String::new()));
    assert_eq!(convert("xo"), ("ぉ".to_string(), String::new()));
    assert_eq!(convert("xtu"), ("っ".to_string(), String::new()));
    assert_eq!(convert("xtsu"), ("っ".to_string(), String::new()));
    assert_eq!(convert("xya"), ("ゃ".to_string(), String::new()));
    assert_eq!(convert("xyu"), ("ゅ".to_string(), String::new()));
    assert_eq!(convert("xyo"), ("ょ".to_string(), String::new()));
}

// --- z プレフィックス記号 ---

#[test]
fn test_z_symbols() {
    assert_eq!(convert("zh"), ("←".to_string(), String::new()));
    assert_eq!(convert("zj"), ("↓".to_string(), String::new()));
    assert_eq!(convert("zk"), ("↑".to_string(), String::new()));
    assert_eq!(convert("zl"), ("→".to_string(), String::new()));
}

// --- 外来語対応 ---

#[test]
fn test_fa_fi_fu_fe_fo() {
    assert_eq!(
        convert("faifu"),
        ("ふぁいふ".to_string(), String::new())
    );
}

#[test]
fn test_thi_dhi() {
    assert_eq!(convert("thi"), ("てぃ".to_string(), String::new()));
    assert_eq!(convert("dhi"), ("でぃ".to_string(), String::new()));
}

// --- pending 状態の遷移テスト ---

#[test]
fn test_pending_single_consonant() {
    let table = RomajiTable::default_table();
    let mut conv = RomajiConverter::new();

    let out = conv.feed('k', &table);
    assert_eq!(out.committed, "");
    assert_eq!(out.pending, "k");

    let out = conv.feed('a', &table);
    assert_eq!(out.committed, "か");
    assert_eq!(out.pending, "");
}

#[test]
fn test_pending_three_char_sequence() {
    let table = RomajiTable::default_table();
    let mut conv = RomajiConverter::new();

    let out = conv.feed('s', &table);
    assert_eq!(out.pending, "s");
    assert_eq!(out.committed, "");

    let out = conv.feed('h', &table);
    assert_eq!(out.pending, "sh");
    assert_eq!(out.committed, "");

    let out = conv.feed('i', &table);
    assert_eq!(out.pending, "");
    assert_eq!(out.committed, "し");
}

#[test]
fn test_sokuon_leaves_pending() {
    let table = RomajiTable::default_table();
    let mut conv = RomajiConverter::new();

    let out = conv.feed('k', &table);
    assert_eq!(out.pending, "k");

    let out = conv.feed('k', &table);
    assert_eq!(out.committed, "っ");
    assert_eq!(out.pending, "k");

    let out = conv.feed('a', &table);
    assert_eq!(out.committed, "か");
    assert_eq!(out.pending, "");
}

// --- 実用的な文字列テスト ---

#[test]
fn test_toukyou() {
    assert_eq!(
        convert("toukyou"),
        ("とうきょう".to_string(), String::new())
    );
}

#[test]
fn test_ookii() {
    assert_eq!(convert("ookii"), ("おおきい".to_string(), String::new()));
}

#[test]
fn test_gakkou() {
    assert_eq!(
        convert("gakkou"),
        ("がっこう".to_string(), String::new())
    );
}

#[test]
fn test_chottomatte() {
    assert_eq!(
        convert("chottomatte"),
        ("ちょっとまって".to_string(), String::new())
    );
}

#[test]
fn test_nihongo() {
    assert_eq!(
        convert("nihongo"),
        ("にほんご".to_string(), String::new())
    );
}

// --- clear テスト ---

#[test]
fn test_clear() {
    let table = RomajiTable::default_table();
    let mut conv = RomajiConverter::new();
    conv.feed('k', &table);
    assert_eq!(conv.pending(), "k");
    conv.clear();
    assert_eq!(conv.pending(), "");
}

// --- テーブルの整合性テスト ---

#[test]
fn test_all_entries_have_valid_remainder_prefix() {
    let table = RomajiTable::default_table();
    for (romaji, _, remainder) in DEFAULT_ENTRIES.iter() {
        if !remainder.is_empty() {
            assert!(
                table.is_valid_prefix(remainder),
                "Entry {:?} has remainder {:?} which is not a valid prefix",
                romaji,
                remainder
            );
        }
    }
}
