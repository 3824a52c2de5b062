use lssaid::catalog::CatalogEntry;
use lssaid::catalog::u64_to_string;
use lssaid::matcher::contains_substr;
use lssaid::matcher::highlight;
use lssaid::matcher::resolve_ids;
use lssaid::matcher::resolved_rows;
use lssaid::matcher::search_catalog;
use lssaid::matcher::sentinel_text;

fn entry(id: u64, name: &str) -> CatalogEntry {
    CatalogEntry { id, name: name.to_string() }
}

#[test]
fn exact_string_not_numeric() {
    let cat = vec![entry(7, "James")];
    let keys = vec!["007".to_string()];
    let r = resolve_ids(&keys, &cat);
    assert_eq!(r, vec![None::<String>]);
}

#[test]
fn whitespace_in_key_never_matches() {
    let cat = vec![entry(7, "James")];
    let r = resolve_ids(&vec![" 7".to_string()], &cat);
    assert_eq!(r, vec![None::<String>]);
}

#[test]
fn last_write_wins() {
    let cat = vec![entry(100, "A"), entry(100, "B")];
    let r = resolve_ids(&vec!["100".to_string()], &cat);
    assert_eq!(r, vec![Some("B".to_string())]);
}

#[test]
fn unmatched_key_gets_sentinel() {
    let cat = vec![entry(10, "Alpha")];
    let keys = vec!["99".to_string()];
    let resolved = resolve_ids(&keys, &cat);
    assert_eq!(resolved, vec![None::<String>]);
    let rows = resolved_rows(&keys, &resolved);
    assert_eq!(rows.len(), 1);
    assert_eq!(rows[0].0, "99");
    assert_eq!(rows[0].1, sentinel_text());
    assert!(!rows[0].1.is_empty());
}

#[test]
fn search_case_sensitive() {
    assert!(contains_substr("Half-Life", "Half"));
    assert!(!contains_substr("HALF-LIFE", "Half"));
    let cat = vec![entry(70, "Half-Life"), entry(71, "HALF-LIFE")];
    let rows = search_catalog(&vec!["Half".to_string()], &cat);
    assert_eq!(rows.len(), 1);
    assert_eq!(rows[0].0, "\x1B[1mHalf\x1B[0m-Life");
    assert_eq!(rows[0].1, "70");
}

#[test]
fn highlight_wraps_every_occurrence() {
    assert_eq!(highlight("aXbX", "X"), "a\x1B[1mX\x1B[0mb\x1B[1mX\x1B[0m");
    assert_eq!(highlight("abc", "zz"), "abc");
    assert_eq!(highlight("abc", ""), "abc");
}

#[test]
fn decimal_rendering_exact() {
    assert_eq!(u64_to_string(0), "0");
    assert_eq!(u64_to_string(7), "7");
    assert_eq!(u64_to_string(10), "10");
    assert_eq!(u64_to_string(1209600), "1209600");
    assert_eq!(u64_to_string(u64::MAX), "18446744073709551615");
}

#[test]
fn largest_identifier_matches_its_decimal_key() {
    let cat = vec![entry(u64::MAX, "Edge")];
    let r = resolve_ids(&vec!["18446744073709551615".to_string()], &cat);
    assert_eq!(r, vec![Some("Edge".to_string())]);
}

#[test]
fn empty_catalog_and_empty_keys() {
    let cat: Vec<CatalogEntry> = Vec::new();
    let r = resolve_ids(&vec!["1".to_string()], &cat);
    assert_eq!(r, vec![None::<String>]);
    let r2 = resolve_ids(&Vec::new(), &cat);
    assert!(r2.is_empty());
    let rows = search_catalog(&vec!["x".to_string()], &cat);
    assert!(rows.is_empty());
}

#[test]
fn search_order_catalog_major() {
    let cat = vec![entry(1, "ab"), entry(2, "ba")];
    let terms = vec!["a".to_string(), "b".to_string()];
    let rows = search_catalog(&terms, &cat);
    assert_eq!(rows.len(), 4);
    assert_eq!(rows[0], ("\x1B[1ma\x1B[0mb".to_string(), "1".to_string()));
    assert_eq!(rows[1], ("a\x1B[1mb\x1B[0m".to_string(), "1".to_string()));
    assert_eq!(rows[2], ("b\x1B[1ma\x1B[0m".to_string(), "2".to_string()));
    assert_eq!(rows[3], ("\x1B[1mb\x1B[0ma".to_string(), "2".to_string()));
}

#[test]
fn repeated_matches_not_deduplicated() {
    let cat = vec![entry(5, "aa")];
    let terms = vec!["a".to_string(), "aa".to_string()];
    let rows = search_catalog(&terms, &cat);
    assert_eq!(rows.len(), 2);
    assert_eq!(rows[0], ("\x1B[1ma\x1B[0m\x1B[1ma\x1B[0m".to_string(), "5".to_string()));
    assert_eq!(rows[1], ("\x1B[1maa\x1B[0m".to_string(), "5".to_string()));
}
