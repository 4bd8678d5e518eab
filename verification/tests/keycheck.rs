use ef_core::keycheck::{blank_comments, literal_keys_in, missing_keys, unused_keys};

#[test]
fn comments_are_blanked_in_place() {
    let text = "let a = 1; // tr!(lang, \"key\")\nlet b = \"x\";\n/// doc\n";
    let b = blank_comments(text);
    assert_eq!(b.chars().count(), text.chars().count());
    assert_eq!(b, "let a = 1;                    \nlet b = \"x\";\n       \n");
    assert_eq!(blank_comments("no comment"), "no comment");
    assert_eq!(blank_comments("a / b // c\nd"), "a / b     \nd");
}

#[test]
fn literal_keys_are_found_with_their_positions() {
    let text = "x = tr!(lang, \"a.b\");\ny = i18n::lookup(lang,\n    \"c.d\");\nz = tr!(lang, reason_key);\nw = i18n::format(lang, \"e\", &[]);";
    let keys = literal_keys_in(text);
    let names: Vec<&str> = keys.iter().map(|k| k.1.as_str()).collect();
    assert_eq!(names, vec!["a.b", "c.d", "e"]);
    // The position is the character just after the call's first comma.
    assert_eq!(keys[0].0, 13);
    let nth: String = text.chars().take(keys[1].0).collect();
    assert!(nth.ends_with("i18n::lookup(lang,"));
    assert!(literal_keys_in("tr!(lang, \"unterminated").is_empty());
    assert!(literal_keys_in("tr!(no_comma)").is_empty());
}

#[test]
fn a_key_missing_from_a_catalog_is_reported_at_its_line() {
    let vi = vec!["a.b".to_string(), "c.d".to_string(), "spare".to_string()];
    let en = vec!["a.b".to_string()];
    let text = "// tr!(lang, \"key\") in a comment names nothing\nlet x = tr!(lang, \"a.b\");\nlet y = tr!(lang,\n  \"c.d\");\nlet z = tr!(lang, \"gone\");\n";
    let v = missing_keys("crates/ef-gui/src/app.rs", text, &vi, &en);
    let got: Vec<(usize, &str, &str)> = v.iter().map(|x| (x.line, x.text.as_str(), x.rule)).collect();
    assert_eq!(
        got,
        vec![
            (3, "key `c.d`", "translation key is missing from en.toml"),
            (5, "key `gone`", "translation key is missing from vi.toml"),
            (5, "key `gone`", "translation key is missing from en.toml"),
        ]
    );
    assert!(v.iter().all(|x| x.file == "crates/ef-gui/src/app.rs"));
    let referenced = vec!["a.b".to_string(), "c.d".to_string(), "gone".to_string()];
    assert_eq!(unused_keys(&vi, &referenced), vec!["spare".to_string()]);
}
