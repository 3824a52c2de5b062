use lssaid::catalog::CatalogEntry;
use lssaid::json::ParseError;
use lssaid::json::parse_catalog;

#[test]
fn parses_expected_shape() {
    let text = r#"{"applist":{"apps":[{"appid":10,"name":"Alpha"},{"appid":20,"name":"Beta"}]}}"#;
    let cat = parse_catalog(text).unwrap();
    assert_eq!(
        cat,
        vec![
            CatalogEntry { id: 10, name: "Alpha".to_string() },
            CatalogEntry { id: 20, name: "Beta".to_string() },
        ]
    );
}

#[test]
fn empty_apps_array_is_an_empty_catalog() {
    let cat = parse_catalog(r#"{"applist":{"apps":[]}}"#).unwrap();
    assert!(cat.is_empty());
}

#[test]
fn repeated_identifiers_are_kept_in_order() {
    let text = r#"{"applist":{"apps":[{"appid":1,"name":"A"},{"appid":1,"name":"B"}]}}"#;
    let cat = parse_catalog(text).unwrap();
    assert_eq!(cat.len(), 2);
    assert_eq!(cat[0].name, "A");
    assert_eq!(cat[1].name, "B");
}

#[test]
fn invalid_json_is_a_syntax_error() {
    assert_eq!(parse_catalog("not json at all").unwrap_err(), ParseError::Syntax);
    assert_eq!(parse_catalog("").unwrap_err(), ParseError::Syntax);
    assert_eq!(parse_catalog(r#"{"applist""#).unwrap_err(), ParseError::Syntax);
}

#[test]
fn missing_keys_are_schema_errors() {
    assert_eq!(parse_catalog("{}").unwrap_err(), ParseError::Schema);
    assert_eq!(parse_catalog("null").unwrap_err(), ParseError::Schema);
    assert_eq!(parse_catalog(r#"{"applist":{}}"#).unwrap_err(), ParseError::Schema);
    assert_eq!(parse_catalog(r#"{"applist":{"apps":7}}"#).unwrap_err(), ParseError::Schema);
}

#[test]
fn mistyped_fields_are_schema_errors() {
    assert_eq!(
        parse_catalog(r#"{"applist":{"apps":[{"appid":"10","name":"Alpha"}]}}"#).unwrap_err(),
        ParseError::Schema
    );
    assert_eq!(
        parse_catalog(r#"{"applist":{"apps":[{"appid":-1,"name":"Alpha"}]}}"#).unwrap_err(),
        ParseError::Schema
    );
    assert_eq!(
        parse_catalog(r#"{"applist":{"apps":[{"appid":10}]}}"#).unwrap_err(),
        ParseError::Schema
    );
    assert_eq!(
        parse_catalog(r#"{"applist":{"apps":[{"appid":10,"name":5}]}}"#).unwrap_err(),
        ParseError::Schema
    );
}

#[test]
fn one_bad_entry_fails_the_whole_catalog() {
    let text = r#"{"applist":{"apps":[{"appid":1,"name":"A"},{"appid":2}]}}"#;
    assert_eq!(parse_catalog(text).unwrap_err(), ParseError::Schema);
}

#[test]
fn extra_members_are_tolerated() {
    let text = r#"{"applist":{"apps":[{"appid":1,"name":"N","extra":true}],"more":0},"x":null}"#;
    let cat = parse_catalog(text).unwrap();
    assert_eq!(cat.len(), 1);
    assert_eq!(cat[0].id, 1);
    assert_eq!(cat[0].name, "N");
}

#[test]
fn parse_error_messages() {
    assert_eq!(ParseError::Syntax.message(), "unable to parse the app list json");
    assert_eq!(ParseError::Schema.message(), "the app list json does not have the expected shape");
}
