use ef_core::help::{topic, topics};
use ef_core::i18n::{lookup, Catalog, Catalogs, Lang};
use ef_core::markdown::split_inline;

#[test]
fn every_topic_has_content_in_both_languages() {
    for t in topics() {
        assert!(!t.vi.trim().is_empty(), "{} has no Vietnamese text", t.id);
        assert!(!t.en.trim().is_empty(), "{} has no English text", t.id);
        assert!(t.vi.starts_with('#'), "{} (vi) must open with a heading", t.id);
        assert!(t.en.starts_with('#'), "{} (en) must open with a heading", t.id);
    }
}

#[test]
fn topic_ids_are_unique_and_findable() {
    let mut ids: Vec<_> = topics().iter().map(|t| t.id).collect();
    let n = ids.len();
    ids.sort();
    ids.dedup();
    assert_eq!(ids.len(), n, "duplicate topic id");
    assert!(topic("01-bat-dau").is_some());
    assert!(topic("nope").is_none());
}

#[test]
fn every_guide_reference_in_the_catalogs_resolves() {
    let cats = Catalogs { vi: Catalog::empty(), en: Catalog::empty() };
    assert!(
        topic("05-canh-bao-bao-mat").is_some(),
        "the antivirus message points at a security topic that must exist"
    );
    for lang in [Lang::Vi, Lang::En] {
        let t = topic("05-canh-bao-bao-mat").unwrap();
        let body = t.body(lang).to_lowercase();
        assert!(
            body.contains("smartscreen") || body.contains("windows"),
            "the security topic must cover the Windows warning"
        );
        let _ = lookup(&cats, lang, "toolchain.missing.antivirus");
    }
}

#[test]
fn the_guide_states_the_read_only_promise_in_both_languages() {
    let t = topic("01-bat-dau").unwrap();
    assert!(t.body(Lang::Vi).contains("không bao giờ sửa tệp"));
    assert!(t.body(Lang::En).contains("never changes your files"));
}

#[test]
fn every_shipped_help_topic_splits_without_panicking() {
    for t in topics() {
        for lang in Lang::all() {
            for line in t.body(lang).lines() {
                let runs = split_inline(line);
                let joined: String = runs.iter().map(|(_, s)| *s).collect();
                assert!(
                    !joined.is_empty() || line.trim().is_empty(),
                    "lost text on line {line:?} of {}",
                    t.id
                );
            }
        }
    }
}

#[test]
fn titles_and_bodies_follow_the_language() {
    let t = topic("03-luu-va-chay").unwrap();
    assert_eq!(t.title(Lang::Vi), "Lưu và chạy chương trình");
    assert_eq!(t.title(Lang::En), "Saving and running");
    assert!(t.body(Lang::Vi).starts_with("# Lưu và chạy chương trình"));
    assert!(t.body(Lang::En).starts_with("# Saving and running your program"));
    assert_eq!(topics().len(), 6);
    assert_eq!(topics()[5].id, "06-thu-vien");
}
