# Koyubi

An SKK input method engine for Japanese, verified with Verus.

- `src/` is the library. `romaji` turns typed letters into kana, `dict` and
  `skk_format` read and write SKK dictionaries, `config` reads the settings, and
  `composer` is the engine: a state machine over keys whose every step is proved
  equal to the mathematical model in `model`. `laws` states what holds of all
  sequences of keys. `key_event`, `text_service`, `candidate_ui`, `lang_bar`,
  `globals`, `class_factory` and `register` hold the decisions of the text
  service for Windows; `dict_tool` those of the dictionary tool.
- `tests/` runs the library.
- `app/` is the program around it: `koyubi-dict`, the dictionary tool, and on
  Windows the COM text service. It does the input and output and holds no rules.

The contracts that are believed without proof are those of `encoding_rs` (EUC-JP),
`toml` with `serde` (the settings file) and a few functions of the standard
library. Each has a comment that says what is claimed of it.
