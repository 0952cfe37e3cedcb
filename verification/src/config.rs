//! The settings of `config.toml`.
use crate::config::TomlField::{Flag, Group, List, Other, Text};
use crate::order;
use crate::text::{chars_of, same_text};
use crate::InputMode;
use serde::de::IgnoredAny;
use toml::de::DeValue::{Array, Boolean, Table};
use toml::de::{DeTable, DeValue};
use vstd::prelude::*;

verus! {

/// The settings.
#[derive(Debug, Clone)]
pub struct Config {
    /// Space works as Shift while it is held.
    pub sands_enabled: bool,
    /// Ctrl+F/B/A/E/N/P/D/K move the cursor and delete.
    pub emacs_bindings_enabled: bool,
    /// The keys beside Space work as Shift.
    pub thumb_shift_enabled: bool,
    /// CapsLock works as Ctrl.
    pub caps_ctrl_enabled: bool,
    /// System dictionaries; empty: look for them.
    pub system_dict_paths: Vec<String>,
    /// The user dictionary; `None`: the file in the user's folder.
    pub user_dict_path: Option<String>,
    /// The key for katakana.
    pub toggle_kana: char,
    /// The key for ASCII mode.
    pub enter_ascii: char,
    /// The key for full-width mode (a capital letter).
    pub enter_zenkaku: char,
    /// The key for the candidate before.
    pub prev_candidate: char,
    /// The mode at the start.
    pub initial_mode: InputMode,
}

/// The settings by their values.
#[verifier::ext_equal]
pub struct ConfigModel {
    pub sands_enabled: bool,
    pub emacs_bindings_enabled: bool,
    pub thumb_shift_enabled: bool,
    pub caps_ctrl_enabled: bool,
    pub system_dict_paths: Seq<Seq<char>>,
    pub user_dict_path: Option<Seq<char>>,
    pub toggle_kana: char,
    pub enter_ascii: char,
    pub enter_zenkaku: char,
    pub prev_candidate: char,
    pub initial_mode: InputMode,
}

impl View for Config {
    type V = ConfigModel;

    open spec fn view(&self) -> ConfigModel {
        ConfigModel {
            sands_enabled: self.sands_enabled,
            emacs_bindings_enabled: self.emacs_bindings_enabled,
            thumb_shift_enabled: self.thumb_shift_enabled,
            caps_ctrl_enabled: self.caps_ctrl_enabled,
            system_dict_paths: order::views(self.system_dict_paths@),
            user_dict_path: match self.user_dict_path {
                Some(p) => Some(p@),
                None => None,
            },
            toggle_kana: self.toggle_kana,
            enter_ascii: self.enter_ascii,
            enter_zenkaku: self.enter_zenkaku,
            prev_candidate: self.prev_candidate,
            initial_mode: self.initial_mode,
        }
    }
}

/// The settings where nothing is set.
pub open spec fn default_config() -> ConfigModel {
    ConfigModel {
        sands_enabled: true,
        emacs_bindings_enabled: true,
        thumb_shift_enabled: false,
        caps_ctrl_enabled: false,
        system_dict_paths: Seq::empty(),
        user_dict_path: None,
        toggle_kana: 'q',
        enter_ascii: 'l',
        enter_zenkaku: 'L',
        prev_candidate: 'x',
        initial_mode: InputMode::Ascii,
    }
}

/// The value of a top-level key of a TOML document, as far as settings need it.
#[derive(Debug, Clone, PartialEq, Eq)]
pub enum TomlField {
    /// A boolean.
    Flag(bool),
    /// A string.
    Text(String),
    /// An array: for each element its text if it is a string.
    List(Vec<Option<String>>),
    /// A table: for each key the number of elements of its value if that is an
    /// array or a table.
    Group(Vec<(String, Option<usize>)>),
    /// A number or a date.
    Other,
}

/// The value of a top-level key of a TOML document.
#[verifier::ext_equal]
pub enum FieldModel {
    Flag(bool),
    Text(Seq<char>),
    List(Seq<Option<Seq<char>>>),
    Group(Seq<(Seq<char>, Option<usize>)>),
    Other,
}

impl View for TomlField {
    type V = FieldModel;

    open spec fn view(&self) -> FieldModel {
        match self {
            TomlField::Flag(b) => FieldModel::Flag(*b),
            TomlField::Text(s) => FieldModel::Text(s@),
            TomlField::List(items) => FieldModel::List(
                Seq::new(
                    items@.len(),
                    |i: int|
                        match items@[i] {
                            Some(s) => Some(s@),
                            None => None,
                        },
                ),
            ),
            TomlField::Group(items) => FieldModel::Group(
                Seq::new(items@.len(), |i: int| (items@[i].0@, items@[i].1)),
            ),
            TomlField::Other => FieldModel::Other,
        }
    }
}

/// Keys with their values, one for one.
pub open spec fn field_views(fields: Seq<(String, TomlField)>) -> Seq<(Seq<char>, FieldModel)> {
    Seq::new(fields.len(), |i: int| (fields[i].0@, fields[i].1@))
}

/// Whether `toml::from_str` reads a text into `serde::de::IgnoredAny`.
pub uninterp spec fn toml_accepts(text: Seq<char>) -> bool;

/// `toml::from_str` into `serde::de::IgnoredAny`: whether the text is a TOML
/// document without a number that is too large to be read. This depends on the
/// text alone.
#[verifier::external_body]
fn toml_is_read(s: &str) -> (r: bool)
    ensures
        r == toml_accepts(s@),
{
    toml::from_str::<IgnoredAny>(s).is_ok()
}

/// The top-level keys and values that `toml::de::DeTable::parse` finds in a
/// text, in the order of the table; `None` if it reports an error.
pub uninterp spec fn toml_document(text: Seq<char>) -> Option<Seq<(Seq<char>, FieldModel)>>;

/// `toml::de::DeTable::parse`: the document's top-level keys and values, or an
/// error. Both depend on the text alone.
#[verifier::external_body]
fn toml_fields(s: &str) -> (r: Option<Vec<(String, TomlField)>>)
    ensures
        match r {
            Some(fields) => toml_document(s@) == Some(field_views(fields@)),
            None => toml_document(s@) is None,
        },
{
    Some(DeTable::parse(s).ok()?.into_inner().into_iter().map(|(k, v)| (
        k.to_string(), match v.into_inner() {
            Boolean(b) => Flag(b),
            DeValue::String(t) => Text(t.to_string()),
            Array(items) => List(
                items.iter().map(|v| v.get_ref().as_str().map(str::to_string)).collect()
            ),
            Table(items) => Group(items.iter().map(|(k, v)| (k.to_string(), match v.get_ref() {
                Array(inner) => Some(inner.len()),
                Table(inner) => Some(inner.len()),
                _ => None
            })).collect()),
            _ => Other
        }
    )).collect())
}

/// The mode that a name stands for.
pub open spec fn mode_named(name: Seq<char>) -> Option<InputMode> {
    if name == "ascii"@ {
        Some(InputMode::Ascii)
    } else if name == "hiragana"@ {
        Some(InputMode::Hiragana)
    } else if name == "katakana"@ {
        Some(InputMode::Katakana)
    } else if name == "hankaku_katakana"@ {
        Some(InputMode::HankakuKatakana)
    } else if name == "zenkaku_ascii"@ {
        Some(InputMode::ZenkakuAscii)
    } else if name == "abbrev"@ {
        Some(InputMode::Abbrev)
    } else {
        None
    }
}

/// Whether a key is that of a setting.
pub open spec fn is_setting(key: Seq<char>) -> bool {
    ||| key == "sands_enabled"@
    ||| key == "emacs_bindings_enabled"@
    ||| key == "thumb_shift_enabled"@
    ||| key == "caps_ctrl_enabled"@
    ||| key == "system_dict_paths"@
    ||| key == "user_dict_path"@
    ||| key == "toggle_kana"@
    ||| key == "enter_ascii"@
    ||| key == "enter_zenkaku"@
    ||| key == "prev_candidate"@
    ||| key == "initial_mode"@
}

/// The boolean that a value is.
pub open spec fn as_flag(v: FieldModel) -> Option<bool> {
    match v {
        FieldModel::Flag(b) => Some(b),
        _ => None,
    }
}

/// The character that a value is: a string of exactly one character.
pub open spec fn as_key(v: FieldModel) -> Option<char> {
    match v {
        FieldModel::Text(s) => if s.len() == 1 {
            Some(s[0])
        } else {
            None
        },
        _ => None,
    }
}

/// The strings that a value lists: an array of nothing but strings.
pub open spec fn as_paths(v: FieldModel) -> Option<Seq<Seq<char>>> {
    match v {
        FieldModel::List(items) => if forall|i: int| 0 <= i < items.len() ==> items[i] is Some {
            Some(Seq::new(items.len(), |i: int| items[i]->0))
        } else {
            None
        },
        _ => None,
    }
}

/// The mode that a value names: by a string, or by the only key of a table
/// whose value is an empty array or table.
pub open spec fn as_mode(v: FieldModel) -> Option<InputMode> {
    match v {
        FieldModel::Text(s) => mode_named(s),
        FieldModel::Group(items) => if items.len() == 1 && items[0].1 == Some(0usize) {
            mode_named(items[0].0)
        } else {
            None
        },
        _ => None,
    }
}

/// Settings with one key set; `None` if the value is none that the key can
/// have. Keys that are no settings change nothing.
pub open spec fn with_field(c: ConfigModel, key: Seq<char>, v: FieldModel) -> Option<ConfigModel> {
    if key == "sands_enabled"@ {
        match as_flag(v) {
            Some(b) => Some(ConfigModel { sands_enabled: b, ..c }),
            None => None,
        }
    } else if key == "emacs_bindings_enabled"@ {
        match as_flag(v) {
            Some(b) => Some(ConfigModel { emacs_bindings_enabled: b, ..c }),
            None => None,
        }
    } else if key == "thumb_shift_enabled"@ {
        match as_flag(v) {
            Some(b) => Some(ConfigModel { thumb_shift_enabled: b, ..c }),
            None => None,
        }
    } else if key == "caps_ctrl_enabled"@ {
        match as_flag(v) {
            Some(b) => Some(ConfigModel { caps_ctrl_enabled: b, ..c }),
            None => None,
        }
    } else if key == "system_dict_paths"@ {
        match as_paths(v) {
            Some(ps) => Some(ConfigModel { system_dict_paths: ps, ..c }),
            None => None,
        }
    } else if key == "user_dict_path"@ {
        match v {
            FieldModel::Text(p) => Some(ConfigModel { user_dict_path: Some(p), ..c }),
            _ => None,
        }
    } else if key == "toggle_kana"@ {
        match as_key(v) {
            Some(ch) => Some(ConfigModel { toggle_kana: ch, ..c }),
            None => None,
        }
    } else if key == "enter_ascii"@ {
        match as_key(v) {
            Some(ch) => Some(ConfigModel { enter_ascii: ch, ..c }),
            None => None,
        }
    } else if key == "enter_zenkaku"@ {
        match as_key(v) {
            Some(ch) => Some(ConfigModel { enter_zenkaku: ch, ..c }),
            None => None,
        }
    } else if key == "prev_candidate"@ {
        match as_key(v) {
            Some(ch) => Some(ConfigModel { prev_candidate: ch, ..c }),
            None => None,
        }
    } else if key == "initial_mode"@ {
        match as_mode(v) {
            Some(m) => Some(ConfigModel { initial_mode: m, ..c }),
            None => None,
        }
    } else {
        Some(c)
    }
}

/// The default settings with all the keys set, one after the other; `None` if
/// one of the values is none that its key can have.
pub open spec fn with_fields(fields: Seq<(Seq<char>, FieldModel)>) -> Option<ConfigModel>
    decreases fields.len(),
{
    if fields.len() == 0 {
        Some(default_config())
    } else {
        match with_fields(fields.drop_last()) {
            Some(c) => with_field(c, fields.last().0, fields.last().1),
            None => None,
        }
    }
}

/// The settings of a document: the defaults if it is none, or if a setting has
/// a value that it cannot have.
pub open spec fn config_of(document: Option<Seq<(Seq<char>, FieldModel)>>) -> ConfigModel {
    match document {
        Some(fields) => match with_fields(fields) {
            Some(c) => c,
            None => default_config(),
        },
        None => default_config(),
    }
}

impl Default for Config {
    fn default() -> (r: Self)
        ensures
            r@ == default_config(),
    {
        let r = Config {
            sands_enabled: true,
            emacs_bindings_enabled: true,
            thumb_shift_enabled: false,
            caps_ctrl_enabled: false,
            system_dict_paths: Vec::new(),
            user_dict_path: None,
            toggle_kana: 'q',
            enter_ascii: 'l',
            enter_zenkaku: 'L',
            prev_candidate: 'x',
            initial_mode: InputMode::Ascii,
        };
        assert(r@.system_dict_paths =~= Seq::empty());
        r
    }
}

/// The mode that a name stands for.
pub fn parse_mode(name: &str) -> (r: Option<InputMode>)
    ensures
        r == mode_named(name@),
{
    if same_text(name, "ascii") {
        Some(InputMode::Ascii)
    } else if same_text(name, "hiragana") {
        Some(InputMode::Hiragana)
    } else if same_text(name, "katakana") {
        Some(InputMode::Katakana)
    } else if same_text(name, "hankaku_katakana") {
        Some(InputMode::HankakuKatakana)
    } else if same_text(name, "zenkaku_ascii") {
        Some(InputMode::ZenkakuAscii)
    } else if same_text(name, "abbrev") {
        Some(InputMode::Abbrev)
    } else {
        None
    }
}

fn flag_of(v: &TomlField) -> (r: Option<bool>)
    ensures
        r == as_flag(v@),
{
    match v {
        TomlField::Flag(b) => Some(*b),
        _ => None,
    }
}

fn key_of(v: &TomlField) -> (r: Option<char>)
    ensures
        r == as_key(v@),
{
    match v {
        TomlField::Text(s) => {
            let chars = chars_of(s.as_str());
            if chars.len() == 1 {
                Some(chars[0])
            } else {
                None
            }
        },
        _ => None,
    }
}

fn paths_of(v: &TomlField) -> (r: Option<Vec<String>>)
    ensures
        match r {
            Some(ps) => as_paths(v@) == Some(order::views(ps@)),
            None => as_paths(v@) is None,
        },
{
    match v {
        TomlField::List(items) => {
            let ghost model = v@->List_0;
            let mut out: Vec<String> = Vec::new();
            let mut i: usize = 0;
            while i < items.len()
                invariant
                    i <= items@.len(),
                    model == (TomlField::List(*items))@->List_0,
                    v@ == FieldModel::List(model),
                    out@.len() == i,
                    forall|k: int|
                        0 <= k < i ==> (#[trigger] model[k]) is Some && model[k]->0 == out@[k]@,
                decreases items@.len() - i,
            {
                match &items[i] {
                    Some(s) => {
                        out.push(s.clone());
                    },
                    None => {
                        assert(model[i as int] is None);
                        return None;
                    },
                }
                i += 1;
            }
            assert(order::views(out@) =~= Seq::new(model.len(), |i: int| model[i]->0));
            Some(out)
        },
        _ => None,
    }
}

fn mode_of(v: &TomlField) -> (r: Option<InputMode>)
    ensures
        r == as_mode(v@),
{
    match v {
        TomlField::Text(s) => parse_mode(s.as_str()),
        TomlField::Group(items) => {
            if items.len() != 1 {
                return None;
            }
            match items[0].1 {
                Some(n) => if n == 0 {
                    parse_mode(items[0].0.as_str())
                } else {
                    None
                },
                None => None,
            }
        },
        _ => None,
    }
}

impl Config {
    /// Sets one key; tells whether the value is one that the key can have.
    fn set_field(&mut self, key: &str, v: &TomlField) -> (r: bool)
        ensures
            match with_field(old(self)@, key@, v@) {
                Some(c) => r && final(self)@ == c,
                None => !r,
            },
    {
        if same_text(key, "sands_enabled") {
            if let Some(b) = flag_of(v) {
                self.sands_enabled = b;
                return true;
            }
        } else if same_text(key, "emacs_bindings_enabled") {
            if let Some(b) = flag_of(v) {
                self.emacs_bindings_enabled = b;
                return true;
            }
        } else if same_text(key, "thumb_shift_enabled") {
            if let Some(b) = flag_of(v) {
                self.thumb_shift_enabled = b;
                return true;
            }
        } else if same_text(key, "caps_ctrl_enabled") {
            if let Some(b) = flag_of(v) {
                self.caps_ctrl_enabled = b;
                return true;
            }
        } else if same_text(key, "system_dict_paths") {
            if let Some(ps) = paths_of(v) {
                self.system_dict_paths = ps;
                return true;
            }
        } else if same_text(key, "user_dict_path") {
            if let TomlField::Text(p) = v {
                self.user_dict_path = Some(p.clone());
                return true;
            }
        } else if same_text(key, "toggle_kana") {
            if let Some(ch) = key_of(v) {
                self.toggle_kana = ch;
                return true;
            }
        } else if same_text(key, "enter_ascii") {
            if let Some(ch) = key_of(v) {
                self.enter_ascii = ch;
                return true;
            }
        } else if same_text(key, "enter_zenkaku") {
            if let Some(ch) = key_of(v) {
                self.enter_zenkaku = ch;
                return true;
            }
        } else if same_text(key, "prev_candidate") {
            if let Some(ch) = key_of(v) {
                self.prev_candidate = ch;
                return true;
            }
        } else if same_text(key, "initial_mode") {
            if let Some(m) = mode_of(v) {
                self.initial_mode = m;
                return true;
            }
        } else {
            return true;
        }
        false
    }

    /// The settings of a document's keys and values; the defaults if a setting
    /// has a value that it cannot have.
    pub fn from_fields(fields: &Vec<(String, TomlField)>) -> (r: Self)
        ensures
            r@ == config_of(Some(field_views(fields@))),
    {
        let ghost fs = field_views(fields@);
        let mut config = Config::default();
        let mut ok = true;
        let mut i: usize = 0;
        assert(fs.take(0) =~= Seq::empty());
        while i < fields.len()
            invariant
                i <= fields@.len(),
                fs == field_views(fields@),
                ok ==> with_fields(fs.take(i as int)) == Some(config@),
                !ok ==> with_fields(fs.take(i as int)) is None,
            decreases fields@.len() - i,
        {
            assert(fs.take(i + 1).drop_last() =~= fs.take(i as int));
            if ok {
                ok = config.set_field(fields[i].0.as_str(), &fields[i].1);
            }
            i += 1;
        }
        assert(fs.take(i as int) =~= fs);
        if ok {
            config
        } else {
            Config::default()
        }
    }

    /// The settings of a TOML text; the defaults if it cannot be read.
    pub fn from_str(s: &str) -> (r: Self)
        ensures
            r@ == (if toml_accepts(s@) {
                config_of(toml_document(s@))
            } else {
                default_config()
            }),
    {
        if !toml_is_read(s) {
            return Config::default();
        }
        match toml_fields(s) {
            Some(fields) => Config::from_fields(&fields),
            None => Config::default(),
        }
    }
}

/// A key that is no setting changes nothing, wherever it stands.
pub proof fn law_unknown_key(
    fields: Seq<(Seq<char>, FieldModel)>,
    at: int,
    key: Seq<char>,
    v: FieldModel,
)
    requires
        0 <= at <= fields.len(),
        !is_setting(key),
    ensures
        with_fields(fields.insert(at, (key, v))) == with_fields(fields),
    decreases fields.len(),
{
    let more = fields.insert(at, (key, v));
    if at == fields.len() {
        assert(more.drop_last() =~= fields);
        assert(more.last() == (key, v));
    } else {
        assert(more.drop_last() =~= fields.drop_last().insert(at, (key, v)));
        assert(more.last() == fields.last());
        law_unknown_key(fields.drop_last(), at, key, v);
    }
}

/// Whether a document sets a key.
pub open spec fn sets(fields: Seq<(Seq<char>, FieldModel)>, key: Seq<char>) -> bool {
    exists|i: int| 0 <= i < fields.len() && (#[trigger] fields[i]).0 == key
}

/// A setting that a document does not set has its default value.
pub proof fn law_missing_key(fields: Seq<(Seq<char>, FieldModel)>)
    requires
        with_fields(fields) is Some,
    ensures
        ({
            let c = with_fields(fields)->0;
            let d = default_config();
            &&& !sets(fields, "sands_enabled"@) ==> c.sands_enabled == d.sands_enabled
            &&& !sets(fields, "emacs_bindings_enabled"@) ==> c.emacs_bindings_enabled
                == d.emacs_bindings_enabled
            &&& !sets(fields, "thumb_shift_enabled"@) ==> c.thumb_shift_enabled
                == d.thumb_shift_enabled
            &&& !sets(fields, "caps_ctrl_enabled"@) ==> c.caps_ctrl_enabled == d.caps_ctrl_enabled
            &&& !sets(fields, "system_dict_paths"@) ==> c.system_dict_paths == d.system_dict_paths
            &&& !sets(fields, "user_dict_path"@) ==> c.user_dict_path == d.user_dict_path
            &&& !sets(fields, "toggle_kana"@) ==> c.toggle_kana == d.toggle_kana
            &&& !sets(fields, "enter_ascii"@) ==> c.enter_ascii == d.enter_ascii
            &&& !sets(fields, "enter_zenkaku"@) ==> c.enter_zenkaku == d.enter_zenkaku
            &&& !sets(fields, "prev_candidate"@) ==> c.prev_candidate == d.prev_candidate
            &&& !sets(fields, "initial_mode"@) ==> c.initial_mode == d.initial_mode
        }),
    decreases fields.len(),
{
    if fields.len() > 0 {
        let rest = fields.drop_last();
        law_missing_key(rest);
        assert(fields[fields.len() - 1] == fields.last());
        assert forall|key: Seq<char>| !sets(fields, key) implies !#[trigger] sets(rest, key)
            && fields.last().0 != key by {
            if sets(rest, key) {
                let i = choose|i: int| 0 <= i < rest.len() && (#[trigger] rest[i]).0 == key;
                assert(fields[i].0 == key);
            }
        }
    }
}

proof fn lemma_keys_apart()
    ensures
        "sands_enabled"@[0] == 's' && "sands_enabled"@.len() == 13,
        "emacs_bindings_enabled"@[0] == 'e' && "emacs_bindings_enabled"@.len() == 22,
        "thumb_shift_enabled"@[0] == 't' && "thumb_shift_enabled"@.len() == 19,
        "caps_ctrl_enabled"@[0] == 'c' && "caps_ctrl_enabled"@.len() == 17,
        "system_dict_paths"@[0] == 's' && "system_dict_paths"@.len() == 17,
        "user_dict_path"@[0] == 'u' && "user_dict_path"@.len() == 14,
        "initial_mode"@[0] == 'i' && "initial_mode"@.len() == 12,
        "toggle_kana"@[0] == 't' && "toggle_kana"@.len() == 11,
        "enter_ascii"@[0] == 'e' && "enter_ascii"@.len() == 11,
        "enter_zenkaku"@[0] == 'e' && "enter_zenkaku"@.len() == 13,
        "prev_candidate"@[0] == 'p' && "prev_candidate"@.len() == 14,
{
    reveal_strlit("sands_enabled");
    reveal_strlit("emacs_bindings_enabled");
    reveal_strlit("thumb_shift_enabled");
    reveal_strlit("caps_ctrl_enabled");
    reveal_strlit("system_dict_paths");
    reveal_strlit("user_dict_path");
    reveal_strlit("initial_mode");
    reveal_strlit("toggle_kana");
    reveal_strlit("enter_ascii");
    reveal_strlit("enter_zenkaku");
    reveal_strlit("prev_candidate");
}

/// A switch takes a boolean and no other value, and no other setting changes
/// with it.
pub proof fn law_switches(c: ConfigModel, v: FieldModel)
    ensures
        ({
            let on = match v {
                FieldModel::Flag(b) => Some(b),
                _ => None,
            };
            &&& with_field(c, "sands_enabled"@, v) == match on {
                Some(b) => Some(ConfigModel { sands_enabled: b, ..c }),
                None => None,
            }
            &&& with_field(c, "emacs_bindings_enabled"@, v) == match on {
                Some(b) => Some(ConfigModel { emacs_bindings_enabled: b, ..c }),
                None => None,
            }
            &&& with_field(c, "thumb_shift_enabled"@, v) == match on {
                Some(b) => Some(ConfigModel { thumb_shift_enabled: b, ..c }),
                None => None,
            }
            &&& with_field(c, "caps_ctrl_enabled"@, v) == match on {
                Some(b) => Some(ConfigModel { caps_ctrl_enabled: b, ..c }),
                None => None,
            }
        }),
{
    lemma_keys_apart();
}

/// A setting that names a key takes text of one character and no other value, and
/// no other setting changes with it.
pub proof fn law_key_settings(c: ConfigModel, v: FieldModel)
    ensures
        ({
            let key = match v {
                FieldModel::Text(s) => if s.len() == 1 {
                    Some(s[0])
                } else {
                    None
                },
                _ => None,
            };
            &&& with_field(c, "toggle_kana"@, v) == match key {
                Some(ch) => Some(ConfigModel { toggle_kana: ch, ..c }),
                None => None,
            }
            &&& with_field(c, "enter_ascii"@, v) == match key {
                Some(ch) => Some(ConfigModel { enter_ascii: ch, ..c }),
                None => None,
            }
            &&& with_field(c, "enter_zenkaku"@, v) == match key {
                Some(ch) => Some(ConfigModel { enter_zenkaku: ch, ..c }),
                None => None,
            }
            &&& with_field(c, "prev_candidate"@, v) == match key {
                Some(ch) => Some(ConfigModel { prev_candidate: ch, ..c }),
                None => None,
            }
        }),
{
    lemma_keys_apart();
}

/// The user dictionary's path is text. The system dictionaries' paths are a list
/// of nothing but texts, taken in order. No other setting changes with them.
pub proof fn law_path_settings(c: ConfigModel, v: FieldModel)
    ensures
        with_field(c, "user_dict_path"@, v) == match v {
            FieldModel::Text(s) => Some(ConfigModel { user_dict_path: Some(s), ..c }),
            _ => None,
        },
        match with_field(c, "system_dict_paths"@, v) {
            Some(n) => {
                &&& v is List
                &&& n == (ConfigModel { system_dict_paths: n.system_dict_paths, ..c })
                &&& n.system_dict_paths.len() == v->List_0.len()
                &&& forall|i: int|
                    0 <= i < v->List_0.len() ==> #[trigger] v->List_0[i] == Some(
                        n.system_dict_paths[i],
                    )
            },
            None => v is List ==> exists|i: int|
                0 <= i < v->List_0.len() && (#[trigger] v->List_0[i]) is None,
        },
{
    lemma_keys_apart();
}

/// The mode at the start is one of six names, as text or as the only key of a
/// table whose value is empty, and no other setting changes with it.
pub proof fn law_mode_setting(c: ConfigModel, v: FieldModel)
    ensures
        mode_named("ascii"@) == Some(InputMode::Ascii),
        mode_named("hiragana"@) == Some(InputMode::Hiragana),
        mode_named("katakana"@) == Some(InputMode::Katakana),
        mode_named("hankaku_katakana"@) == Some(InputMode::HankakuKatakana),
        mode_named("zenkaku_ascii"@) == Some(InputMode::ZenkakuAscii),
        mode_named("abbrev"@) == Some(InputMode::Abbrev),
        forall|s: Seq<char>| #[trigger]
            mode_named(s) is Some ==> s == "ascii"@ || s == "hiragana"@ || s == "katakana"@ || s
                == "hankaku_katakana"@ || s == "zenkaku_ascii"@ || s == "abbrev"@,
        ({
            let name = match v {
                FieldModel::Text(s) => Some(s),
                FieldModel::Group(items) => if items.len() == 1 && items[0].1 == Some(0usize) {
                    Some(items[0].0)
                } else {
                    None
                },
                _ => None,
            };
            with_field(c, "initial_mode"@, v) == match name {
                Some(s) => match mode_named(s) {
                    Some(mode) => Some(ConfigModel { initial_mode: mode, ..c }),
                    None => None,
                },
                None => None,
            }
        }),
{
    lemma_keys_apart();
    reveal_strlit("ascii");
    reveal_strlit("hiragana");
    reveal_strlit("katakana");
    reveal_strlit("hankaku_katakana");
    reveal_strlit("zenkaku_ascii");
    reveal_strlit("abbrev");
    assert("ascii"@.len() == 5);
    assert("hiragana"@.len() == 8 && "hiragana"@[0] == 'h');
    assert("katakana"@.len() == 8 && "katakana"@[0] == 'k');
    assert("hankaku_katakana"@.len() == 16);
    assert("zenkaku_ascii"@.len() == 13);
    assert("abbrev"@.len() == 6);
}

proof fn lemma_accepted_alike(c: ConfigModel, key: Seq<char>, v: FieldModel)
    ensures
        with_field(c, key, v) is Some <==> with_field(default_config(), key, v) is Some,
{
}

/// A document is accepted exactly if each of its settings has a value that it can
/// have; where one has not, or where there is no document, all settings are the
/// defaults. A key behind the others sets its setting and keeps the rest.
pub proof fn law_document_accepted(
    fields: Seq<(Seq<char>, FieldModel)>,
    key: Seq<char>,
    v: FieldModel,
)
    ensures
        with_fields(fields) is Some <==> forall|i: int|
            0 <= i < fields.len() ==> with_field(
                default_config(),
                (#[trigger] fields[i]).0,
                fields[i].1,
            ) is Some,
        with_fields(Seq::empty()) == Some(default_config()),
        with_fields(fields.push((key, v))) == match with_fields(fields) {
            Some(c) => with_field(c, key, v),
            None => None,
        },
        config_of(Some(fields)) == match with_fields(fields) {
            Some(c) => c,
            None => default_config(),
        },
        config_of(None) == default_config(),
    decreases fields.len(),
{
    assert(fields.push((key, v)).drop_last() =~= fields);
    if fields.len() > 0 {
        let rest = fields.drop_last();
        law_document_accepted(rest, key, v);
        assert forall|i: int| 0 <= i < rest.len() implies rest[i] == #[trigger] fields[i] by {}
        assert(fields[fields.len() - 1] == fields.last());
        if let Some(c) = with_fields(rest) {
            lemma_accepted_alike(c, fields.last().0, fields.last().1);
            assert forall|i: int| 0 <= i < rest.len() implies with_field(
                default_config(),
                (#[trigger] fields[i]).0,
                fields[i].1,
            ) is Some by {
                assert(rest[i] == fields[i]);
            }
        } else {
            let i = choose|i: int|
                0 <= i < rest.len() && with_field(
                    default_config(),
                    (#[trigger] rest[i]).0,
                    rest[i].1,
                ) is None;
            assert(fields[i] == rest[i]);
        }
    }
}

/// The default settings: Space works as Shift and the Emacs keys are on, the
/// other switches are off, no dictionary is named, the keys are q, l, L and x, and
/// the input method is off at the start.
pub proof fn law_defaults()
    ensures
        ({
            let d = default_config();
            &&& d.sands_enabled && d.emacs_bindings_enabled
            &&& !d.thumb_shift_enabled && !d.caps_ctrl_enabled
            &&& d.system_dict_paths.len() == 0 && d.user_dict_path is None
            &&& d.toggle_kana == 'q' && d.enter_ascii == 'l'
            &&& d.enter_zenkaku == 'L' && d.prev_candidate == 'x'
            &&& d.initial_mode == InputMode::Ascii
        }),
{
}

} // verus!
