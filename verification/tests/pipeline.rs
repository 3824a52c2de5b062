use lssaid::json::parse_catalog;
use lssaid::matcher::resolve_ids;
use lssaid::matcher::resolved_rows;
use lssaid::matcher::search_catalog;
use lssaid::matcher::sentinel_text;
use lssaid::render::render_lines;

fn catalog_text() -> &'static str {
    r#"{"applist":{"apps":[{"appid":10,"name":"Alpha"},{"appid":20,"name":"Beta"}]}}"#
}

#[test]
fn directory_names_resolve_and_align() {
    let cat = parse_catalog(catalog_text()).unwrap();
    let keys = vec!["10".to_string(), "20".to_string(), "99".to_string()];
    let resolved = resolve_ids(&keys, &cat);
    let rows = resolved_rows(&keys, &resolved);
    let lines = render_lines(&rows);
    assert_eq!(lines.len(), 3);
    assert_eq!(lines[0], "10 \x1B[1;32m->\x1B[0m Alpha");
    assert_eq!(lines[1], "20 \x1B[1;32m->\x1B[0m Beta");
    assert_eq!(lines[2], "99 \x1B[1;32m->\x1B[0m \x1B[31mNot a valid Steam AppID*!\x1B[0m");
}

#[test]
fn explicit_ids_resolve() {
    let cat = parse_catalog(catalog_text()).unwrap();
    let keys = vec!["20".to_string(), "abc".to_string()];
    let resolved = resolve_ids(&keys, &cat);
    let rows = resolved_rows(&keys, &resolved);
    assert_eq!(rows[0], ("20".to_string(), "Beta".to_string()));
    assert_eq!(rows[1], ("abc".to_string(), sentinel_text()));
    let lines = render_lines(&rows);
    assert_eq!(lines[0], "20  \x1B[1;32m->\x1B[0m Beta");
    assert_eq!(lines[1], "abc \x1B[1;32m->\x1B[0m \x1B[31mNot a valid Steam AppID*!\x1B[0m");
}

#[test]
fn search_term_yields_one_emphasized_record() {
    let cat = parse_catalog(catalog_text()).unwrap();
    let rows = search_catalog(&vec!["Beta".to_string()], &cat);
    assert_eq!(rows.len(), 1);
    assert_eq!(rows[0], ("\x1B[1mBeta\x1B[0m".to_string(), "20".to_string()));
}
