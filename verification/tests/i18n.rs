use ef_core::i18n;
use ef_core::i18n::{keys, lookup, Catalog, Catalogs, Lang};

const VI: &str = "\"build.compiling\" = \"Đang dịch {file} ({done}/{total})\"\n\"app.title\" = \"Fortran 77 dễ dùng\"\n";
const EN: &str = "\"build.compiling\" = \"Compiling {file} ({done}/{total})\"\n\"app.title\" = \"Easy Fortran 77\"\n\"only.en\" = \"English only\"\n";

fn cats() -> Catalogs {
    Catalogs { vi: Catalog::parse(VI).unwrap(), en: Catalog::parse(EN).unwrap() }
}

#[test]
fn vietnamese_is_the_fallback_locale() {
    assert_eq!(Lang::from_locale(Some("vi-VN")), Lang::Vi);
    assert_eq!(Lang::from_locale(Some("en-US")), Lang::En);
    assert_eq!(Lang::from_locale(Some("fr-FR")), Lang::Vi);
    assert_eq!(Lang::from_locale(None), Lang::Vi);
}

#[test]
fn interpolation_substitutes_named_args() {
    let s = i18n::format(
        &cats(),
        Lang::En,
        "build.compiling",
        &[("file", "solver.f"), ("done", "2"), ("total", "7")],
    );
    assert!(s.contains("solver.f"), "got {s:?}");
    assert!(!s.contains('{'), "a placeholder was left unsubstituted: {s:?}");
    assert_eq!(s, "Compiling solver.f (2/7)");
}

#[test]
fn a_missing_key_falls_back_to_english_then_to_the_key() {
    let c = cats();
    assert_eq!(lookup(&c, Lang::Vi, "app.title"), "Fortran 77 dễ dùng");
    assert_eq!(lookup(&c, Lang::Vi, "only.en"), "English only");
    assert_eq!(lookup(&c, Lang::En, "no.such.key"), "no.such.key");
}

#[test]
fn keys_come_out_in_order() {
    let c = cats();
    assert_eq!(keys(&c, Lang::Vi), vec!["app.title".to_string(), "build.compiling".to_string()]);
    assert_eq!(keys(&c, Lang::En).len(), 3);
}

#[test]
fn malformed_catalog_text_is_refused() {
    assert!(Catalog::parse("this is = = not toml").is_none());
    assert!(Catalog::parse("x = 3").is_none());
}

#[test]
fn codes_and_labels() {
    assert_eq!(Lang::Vi.code(), "vi");
    assert_eq!(Lang::En.code(), "en");
    assert_eq!(Lang::all(), [Lang::Vi, Lang::En]);
}

#[test]
fn a_catalogs_keys_come_sorted_and_once_each() {
    let vi = Catalog::parse("zeta = \"z\"\nalpha = \"a\"\nmid = \"m\"\n").unwrap();
    let cats = Catalogs { vi, en: Catalog::empty() };
    assert_eq!(keys(&cats, Lang::Vi), vec!["alpha".to_string(), "mid".to_string(), "zeta".to_string()]);
    assert!(keys(&cats, Lang::En).is_empty());
}
