//! The mode icon: what it shows for each mode, and the file of settings that it
//! opens.
use crate::config;
use crate::config::FieldModel;
use crate::wide;
use crate::wide::to_wide;
use crate::InputMode;
use vstd::prelude::*;

verus! {

/// The name of the input method.
pub const DISPLAY_NAME: &'static str = "Koyubi SKK";

/// The settings that are written where there is no file yet.
pub const DEFAULT_CONFIG_TOML: &'static str = r#"# Koyubi SKK 設定ファイル
# 変更後、IME を再有効化（入力切替）すると反映されます。

# SandS (Space and Shift) 機能
sands_enabled = true

# Emacs キーバインド (Ctrl+F/B/A/E/N/P/D/K)
emacs_bindings_enabled = true

# 起動時の入力モード ("ascii", "hiragana", "katakana")
initial_mode = "ascii"

# キーマップ
toggle_kana = "q"
enter_ascii = "l"
enter_zenkaku = "L"
prev_candidate = "x"

# 辞書パス（空欄の場合は自動検出）
# system_dict_paths = ["C:\\path\\to\\SKK-JISYO.L"]
# user_dict_path = "C:\\Users\\...\\AppData\\Roaming\\Koyubi\\dict\\user-dict.skk"
"#;

/// The keys and values of the settings that are written where there is no file
/// yet.
pub open spec fn template_fields() -> Seq<(Seq<char>, FieldModel)> {
    seq![
        ("sands_enabled"@, FieldModel::Flag(true)),
        ("emacs_bindings_enabled"@, FieldModel::Flag(true)),
        ("initial_mode"@, FieldModel::Text("ascii"@)),
        ("toggle_kana"@, FieldModel::Text("q"@)),
        ("enter_ascii"@, FieldModel::Text("l"@)),
        ("enter_zenkaku"@, FieldModel::Text("L"@)),
        ("prev_candidate"@, FieldModel::Text("x"@)),
    ]
}

/// What to write to the file of settings before it is opened: nothing where
/// there is one already.
pub fn settings_to_write(exists: bool) -> (r: Option<&'static str>)
    ensures
        match r {
            Some(text) => !exists && text@ == DEFAULT_CONFIG_TOML@,
            None => exists,
        },
{
    if exists {
        None
    } else {
        Some(DEFAULT_CONFIG_TOML)
    }
}

/// Why a listener cannot be connected or disconnected.
#[derive(Debug, Clone, Copy, PartialEq, Eq, Structural)]
pub enum ConnectError {
    /// It is no listener for the mode icon.
    CannotConnect,
    /// There is one already.
    AdviseLimit,
    /// There is none, or another one is meant.
    NoConnection,
}

/// The text of the icon.
pub open spec fn label_of(mode: InputMode) -> Seq<char> {
    match mode {
        InputMode::Ascii => "A"@,
        InputMode::Hiragana => "あ"@,
        InputMode::Katakana => "ア"@,
        InputMode::HankakuKatakana => "ｱ"@,
        InputMode::ZenkakuAscii => "全"@,
        InputMode::Abbrev => "ab"@,
    }
}

/// The text that explains the icon.
pub open spec fn tooltip_of(mode: InputMode) -> Seq<char> {
    match mode {
        InputMode::Ascii => "Koyubi SKK - ASCII"@,
        InputMode::Hiragana => "Koyubi SKK - ひらがな"@,
        InputMode::Katakana => "Koyubi SKK - カタカナ"@,
        InputMode::HankakuKatakana => "Koyubi SKK - 半角カタカナ"@,
        InputMode::ZenkakuAscii => "Koyubi SKK - 全角英数"@,
        InputMode::Abbrev => "Koyubi SKK - Abbrev"@,
    }
}

/// The text of the icon.
pub fn mode_label(mode: InputMode) -> (r: &'static str)
    ensures
        r@ == label_of(mode),
{
    match mode {
        InputMode::Ascii => "A",
        InputMode::Hiragana => "あ",
        InputMode::Katakana => "ア",
        InputMode::HankakuKatakana => "ｱ",
        InputMode::ZenkakuAscii => "全",
        InputMode::Abbrev => "ab",
    }
}

/// The text that explains the icon.
pub fn mode_tooltip(mode: InputMode) -> (r: &'static str)
    ensures
        r@ == tooltip_of(mode),
{
    match mode {
        InputMode::Ascii => "Koyubi SKK - ASCII",
        InputMode::Hiragana => "Koyubi SKK - ひらがな",
        InputMode::Katakana => "Koyubi SKK - カタカナ",
        InputMode::HankakuKatakana => "Koyubi SKK - 半角カタカナ",
        InputMode::ZenkakuAscii => "Koyubi SKK - 全角英数",
        InputMode::Abbrev => "Koyubi SKK - Abbrev",
    }
}

/// The font of the icon.
pub fn mode_font(mode: InputMode) -> (r: &'static str)
    ensures
        r@ == if mode == InputMode::Ascii || mode == InputMode::Abbrev {
            "Segoe UI"@
        } else {
            "Yu Gothic UI"@
        },
{
    match mode {
        InputMode::Ascii | InputMode::Abbrev => "Segoe UI",
        _ => "Yu Gothic UI",
    }
}

/// The size of the icon's font.
pub fn mode_font_size(mode: InputMode) -> (r: i32)
    ensures
        r == if mode == InputMode::Abbrev {
            10i32
        } else {
            14i32
        },
{
    match mode {
        InputMode::Abbrev => 10,
        _ => 14,
    }
}

/// Where text starts that is centred in `whole`, as far as whole pixels allow.
/// Text that is longer starts before the edge.
pub fn centred(whole: i32, size: i32) -> (r: i32)
    requires
        i32::MIN <= whole - size <= i32::MAX,
    ensures
        size <= whole ==> r == (whole - size) / 2,
        size > whole ==> r == -((size - whole) / 2),
{
    if size <= whole {
        (whole - size) / 2
    } else {
        (0 - (size as i64 - whole as i64) / 2) as i32
    }
}

/// Text in the fixed 32 units of an item's description: cut after 31, the rest
/// zero.
pub fn description(text: &str) -> (r: [u16; 32])
    ensures
        forall|i: int|
            0 <= i < 32 ==> #[trigger] r@[i] == (if i < 31 && i < wide::utf16(text@).len() {
                wide::utf16(text@)[i]
            } else {
                0u16
            }),
{
    let units = to_wide(text);
    let mut out: [u16; 32] = [0u16; 32];
    let mut i: usize = 0;
    while i < 31 && i < units.len()
        invariant
            i <= 31,
            i <= units@.len(),
            forall|k: int|
                0 <= k < 32 ==> #[trigger] out@[k] == (if k < i {
                    units@[k]
                } else {
                    0u16
                }),
        decreases 31 - i,
    {
        out[i] = units[i];
        i += 1;
    }
    out
}

/// Connects a listener: the number by which it is disconnected again.
pub fn advise(is_listener: bool, connected: bool) -> (r: Result<u32, ConnectError>)
    ensures
        !is_listener ==> r == Err::<u32, ConnectError>(ConnectError::CannotConnect),
        is_listener && connected ==> r == Err::<u32, ConnectError>(ConnectError::AdviseLimit),
        is_listener && !connected ==> r == Ok::<u32, ConnectError>(1),
{
    if !is_listener {
        Err(ConnectError::CannotConnect)
    } else if connected {
        Err(ConnectError::AdviseLimit)
    } else {
        Ok(1)
    }
}

/// Disconnects the listener with this number.
pub fn unadvise(cookie: u32, connected: bool) -> (r: Result<(), ConnectError>)
    ensures
        cookie == 1 && connected ==> r == Ok::<(), ConnectError>(()),
        cookie != 1 || !connected ==> r == Err::<(), ConnectError>(ConnectError::NoConnection),
{
    if cookie != 1 || !connected {
        Err(ConnectError::NoConnection)
    } else {
        Ok(())
    }
}

/// The mode to show, if it is another one than before.
pub fn update_mode(current: InputMode, mode: InputMode) -> (r: Option<InputMode>)
    ensures
        current == mode ==> r is None,
        current != mode ==> r == Some(mode),
{
    if current == mode {
        None
    } else {
        Some(mode)
    }
}

/// The template with another value at one place.
pub open spec fn edited(i: int, v: FieldModel) -> Seq<(Seq<char>, FieldModel)> {
    template_fields().update(i, (template_fields()[i].0, v))
}

/// A place of the template sets its setting to the default, whatever the value
/// at another place is.
proof fn lemma_template_place(i: int, v: FieldModel, k: int)
    requires
        0 <= i < template_fields().len(),
        0 <= k < template_fields().len(),
        i != k,
    ensures
        ({
            let (key, value) = template_fields()[k];
            let d = config::default_config();
            &&& config::with_field(d, key, value) == Some(d)
            &&& config::with_field(d, template_fields()[i].0, v) matches Some(c)
                ==> config::with_field(c, key, value) == Some(c)
        }),
{
    reveal_strlit("sands_enabled");
    reveal_strlit("emacs_bindings_enabled");
    reveal_strlit("thumb_shift_enabled");
    reveal_strlit("caps_ctrl_enabled");
    reveal_strlit("system_dict_paths");
    reveal_strlit("user_dict_path");
    reveal_strlit("initial_mode");
    reveal_strlit("toggle_kana");
    reveal_strlit("enter_ascii");
    reveal_strlit("enter_zenkaku");
    reveal_strlit("prev_candidate");
    reveal_strlit("ascii");
    reveal_strlit("q");
    reveal_strlit("l");
    reveal_strlit("L");
    reveal_strlit("x");
    assert("sands_enabled"@[0] == 's' && "sands_enabled"@.len() == 13);
    assert("emacs_bindings_enabled"@[0] == 'e' && "emacs_bindings_enabled"@.len() == 22);
    assert("thumb_shift_enabled"@[0] == 't' && "thumb_shift_enabled"@.len() == 19);
    assert("caps_ctrl_enabled"@[0] == 'c' && "caps_ctrl_enabled"@.len() == 17);
    assert("system_dict_paths"@[0] == 's' && "system_dict_paths"@.len() == 17);
    assert("user_dict_path"@[0] == 'u' && "user_dict_path"@.len() == 14);
    assert("initial_mode"@[0] == 'i' && "initial_mode"@.len() == 12);
    assert("toggle_kana"@[0] == 't' && "toggle_kana"@.len() == 11);
    assert("enter_ascii"@[0] == 'e' && "enter_ascii"@.len() == 11);
    assert("enter_zenkaku"@[0] == 'e' && "enter_zenkaku"@.len() == 13);
    assert("prev_candidate"@[0] == 'p' && "prev_candidate"@.len() == 14);
    assert("q"@[0] == 'q' && "q"@.len() == 1);
    assert("l"@[0] == 'l' && "l"@.len() == 1);
    assert("L"@[0] == 'L' && "L"@.len() == 1);
    assert("x"@[0] == 'x' && "x"@.len() == 1);
}

proof fn lemma_edited(i: int, v: FieldModel, n: int)
    requires
        0 <= i < template_fields().len(),
        0 <= n <= template_fields().len(),
        config::with_field(config::default_config(), template_fields()[i].0, v) is Some,
    ensures
        config::with_fields(edited(i, v).take(n)) == if n <= i {
            Some(config::default_config())
        } else {
            config::with_field(config::default_config(), template_fields()[i].0, v)
        },
    decreases n,
{
    let fields = edited(i, v).take(n);
    if n > 0 {
        lemma_edited(i, v, n - 1);
        assert(fields.drop_last() =~= edited(i, v).take(n - 1));
        assert(fields.last() == edited(i, v)[n - 1]);
        if n - 1 != i {
            lemma_template_place(i, v, n - 1);
        }
    }
}

/// The settings that are written where there is no file yet are all accepted,
/// and they are the defaults. Another value at one place takes effect, where the
/// setting can have it.
pub proof fn law_template_accepted(i: int, v: FieldModel)
    requires
        0 <= i < template_fields().len(),
        config::with_field(config::default_config(), template_fields()[i].0, v) is Some,
    ensures
        config::with_fields(template_fields()) == Some(config::default_config()),
        config::with_fields(edited(i, v)) == config::with_field(
            config::default_config(),
            template_fields()[i].0,
            v,
        ),
{
    let n = template_fields().len() as int;
    lemma_edited(i, v, n);
    assert(edited(i, v).take(n) =~= edited(i, v));
    lemma_template_place(1, template_fields()[1].1, 0);
    let first = template_fields()[0].1;
    lemma_edited(0, first, n);
    assert(edited(0, first).take(n) =~= template_fields());
}

/// No two modes have the same icon or the same explanation.
pub proof fn law_modes_differ(a: InputMode, b: InputMode)
    requires
        a != b,
    ensures
        label_of(a) != label_of(b),
        tooltip_of(a) != tooltip_of(b),
{
    reveal_strlit("A");
    reveal_strlit("あ");
    reveal_strlit("ア");
    reveal_strlit("ｱ");
    reveal_strlit("全");
    reveal_strlit("ab");
    reveal_strlit("Koyubi SKK - ASCII");
    reveal_strlit("Koyubi SKK - ひらがな");
    reveal_strlit("Koyubi SKK - カタカナ");
    reveal_strlit("Koyubi SKK - 半角カタカナ");
    reveal_strlit("Koyubi SKK - 全角英数");
    reveal_strlit("Koyubi SKK - Abbrev");
    assert("A"@.len() == 1 && "A"@[0] == 'A');
    assert("あ"@.len() == 1 && "あ"@[0] == 'あ');
    assert("ア"@.len() == 1 && "ア"@[0] == 'ア');
    assert("ｱ"@.len() == 1 && "ｱ"@[0] == 'ｱ');
    assert("全"@.len() == 1 && "全"@[0] == '全');
    assert("ab"@.len() == 2);
    assert("Koyubi SKK - ASCII"@[13] == 'A' && "Koyubi SKK - ASCII"@[14] == 'S');
    assert("Koyubi SKK - ひらがな"@[13] == 'ひ');
    assert("Koyubi SKK - カタカナ"@[13] == 'カ');
    assert("Koyubi SKK - 半角カタカナ"@[13] == '半');
    assert("Koyubi SKK - 全角英数"@[13] == '全');
    assert("Koyubi SKK - Abbrev"@[13] == 'A' && "Koyubi SKK - Abbrev"@[14] == 'b');
}

} // verus!
