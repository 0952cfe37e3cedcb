//! The dictionary tool.
use koyubi::dict_tool::{
    catalog, find_dict, parse_download_args, parse_selection, resolve_dict_names, BASE_URL, CATALOG,
};


fn args(s: &[&str]) -> Vec<String> {
    s.iter().map(|s| s.to_string()).collect()
}

// --- Catalog tests ---

#[test]
fn catalog_has_entries() {
    assert!(CATALOG.len() >= 5);
}

#[test]
fn catalog_has_one_recommended() {
    let recommended: Vec<_> = catalog().into_iter().filter(|e| e.recommended).collect();
    assert_eq!(recommended.len(), 1);
    assert_eq!(recommended[0].name, "SKK-JISYO.L");
}

#[test]
fn catalog_no_duplicate_names() {
    let mut names: Vec<&str> = catalog().iter().map(|e| e.name).collect();
    names.sort();
    names.dedup();
    assert_eq!(names.len(), CATALOG.len());
}

#[test]
fn catalog_all_names_start_with_skk_jisyo() {
    for entry in catalog() {
        assert!(
            entry.name.starts_with("SKK-JISYO."),
            "{} doesn't start with SKK-JISYO.",
            entry.name
        );
    }
}

#[test]
fn catalog_urls_are_valid() {
    for entry in catalog() {
        let url = format!("{BASE_URL}{}", entry.name);
        assert!(url.starts_with("https://"));
        assert!(url.ends_with(entry.name));
    }
}

// --- find_dict tests ---

#[test]
fn find_dict_existing() {
    let entry = find_dict("SKK-JISYO.L");
    assert!(entry.is_some());
    assert_eq!(entry.unwrap().name, "SKK-JISYO.L");
}

#[test]
fn find_dict_nonexistent() {
    assert!(find_dict("SKK-JISYO.NONEXISTENT").is_none());
}

#[test]
fn find_dict_empty_string() {
    assert!(find_dict("").is_none());
}

// --- parse_download_args tests ---

#[test]
fn parse_args_empty() {
    let opts = parse_download_args(&args(&[])).unwrap();
    assert!(opts.dict_names.is_empty());
    assert!(!opts.all);
    assert!(!opts.quiet);
}

#[test]
fn parse_args_all() {
    let opts = parse_download_args(&args(&["--all"])).unwrap();
    assert!(opts.all);
}

#[test]
fn parse_args_quiet() {
    let opts = parse_download_args(&args(&["--quiet"])).unwrap();
    assert!(opts.quiet);
}

#[test]
fn parse_args_quiet_short() {
    let opts = parse_download_args(&args(&["-q"])).unwrap();
    assert!(opts.quiet);
}

#[test]
fn parse_args_single_dict() {
    let opts = parse_download_args(&args(&["--dict", "SKK-JISYO.L"])).unwrap();
    assert_eq!(opts.dict_names, vec!["SKK-JISYO.L"]);
}

#[test]
fn parse_args_dict_short() {
    let opts = parse_download_args(&args(&["-d", "SKK-JISYO.L"])).unwrap();
    assert_eq!(opts.dict_names, vec!["SKK-JISYO.L"]);
}

#[test]
fn parse_args_multiple_dicts() {
    let opts = parse_download_args(&args(&[
        "--dict", "SKK-JISYO.L",
        "--dict", "SKK-JISYO.geo",
    ])).unwrap();
    assert_eq!(opts.dict_names, vec!["SKK-JISYO.L", "SKK-JISYO.geo"]);
}

#[test]
fn parse_args_all_and_quiet() {
    let opts = parse_download_args(&args(&["--all", "--quiet"])).unwrap();
    assert!(opts.all);
    assert!(opts.quiet);
}

#[test]
fn parse_args_dict_missing_value() {
    let result = parse_download_args(&args(&["--dict"]));
    assert!(result.is_err());
    assert!(result.unwrap_err().contains("requires a dictionary name"));
}

#[test]
fn parse_args_unknown_option() {
    let result = parse_download_args(&args(&["--bogus"]));
    assert!(result.is_err());
    assert!(result.unwrap_err().contains("Unknown option"));
}

// --- resolve_dict_names tests ---

#[test]
fn resolve_valid_names() {
    let names = args(&["SKK-JISYO.L", "SKK-JISYO.geo"]);
    let entries = resolve_dict_names(&names).unwrap();
    assert_eq!(entries.len(), 2);
    assert_eq!(entries[0].name, "SKK-JISYO.L");
    assert_eq!(entries[1].name, "SKK-JISYO.geo");
}

#[test]
fn resolve_unknown_name() {
    let names = args(&["SKK-JISYO.L", "SKK-JISYO.FAKE"]);
    let result = resolve_dict_names(&names);
    assert!(result.is_err());
    assert!(result.unwrap_err().contains("SKK-JISYO.FAKE"));
}

#[test]
fn resolve_empty() {
    let entries = resolve_dict_names(&[]).unwrap();
    assert!(entries.is_empty());
}

// --- parse_selection tests ---

#[test]
fn selection_empty() {
    let entries = parse_selection("").unwrap();
    assert!(entries.is_empty());
}

#[test]
fn selection_whitespace_only() {
    let entries = parse_selection("   ").unwrap();
    assert!(entries.is_empty());
}

#[test]
fn selection_all() {
    let entries = parse_selection("all").unwrap();
    assert_eq!(entries.len(), CATALOG.len());
}

#[test]
fn selection_single_number() {
    let entries = parse_selection("1").unwrap();
    assert_eq!(entries.len(), 1);
    assert_eq!(entries[0].name, "SKK-JISYO.L");
}

#[test]
fn selection_multiple_numbers() {
    let entries = parse_selection("1 3 5").unwrap();
    assert_eq!(entries.len(), 3);
    assert_eq!(entries[0].name, "SKK-JISYO.L");
    assert_eq!(entries[1].name, "SKK-JISYO.geo");
    assert_eq!(entries[2].name, "SKK-JISYO.propernoun");
}

#[test]
fn selection_last_number() {
    let entries = parse_selection(&CATALOG.len().to_string()).unwrap();
    assert_eq!(entries.len(), 1);
    assert_eq!(entries[0].name, catalog().last().unwrap().name);
}

#[test]
fn selection_zero_is_error() {
    let result = parse_selection("0");
    assert!(result.is_err());
    assert!(result.unwrap_err().contains("out of range"));
}

#[test]
fn selection_too_large_is_error() {
    let result = parse_selection("99");
    assert!(result.is_err());
    assert!(result.unwrap_err().contains("out of range"));
}

#[test]
fn selection_non_number_is_error() {
    let result = parse_selection("abc");
    assert!(result.is_err());
    assert!(result.unwrap_err().contains("Invalid number"));
}

#[test]
fn selection_with_trailing_newline() {
    let entries = parse_selection("1 2\n").unwrap();
    assert_eq!(entries.len(), 2);
}
