use search_request::highlight::resolve_highlight;
use search_request::names::AttributeSet;

fn set(names: &[&str]) -> AttributeSet {
    let mut set = AttributeSet::new();
    for name in names {
        set.insert(name.to_string());
    }
    set
}

fn sorted(set: &AttributeSet) -> Vec<String> {
    let mut names = set.names().clone();
    names.sort();
    names
}

#[test]
fn an_unknown_attribute_is_not_highlighted() {
    let displayed = set(&["title", "body"]);
    let restricted = set(&["title", "body"]);
    let outcome = resolve_highlight(&Some("title,unknown".to_string()), &displayed, &restricted).unwrap();
    assert_eq!(sorted(&outcome.attributes), vec!["title".to_string()]);
    assert!(!outcome.attributes.contains("unknown"));
    assert_eq!(sorted(&outcome.ignored), vec!["unknown".to_string()]);
    let outcome = resolve_highlight(&Some("unknown".to_string()), &displayed, &restricted).unwrap();
    assert!(outcome.attributes.is_empty());
}

#[test]
fn a_wildcard_highlights_the_restricted_attributes() {
    let displayed = set(&["title", "body", "year"]);
    let restricted = set(&["title", "year"]);
    let outcome = resolve_highlight(&Some("*".to_string()), &displayed, &restricted).unwrap();
    assert_eq!(sorted(&outcome.attributes), vec!["title".to_string(), "year".to_string()]);
    assert!(outcome.ignored.is_empty());
    let outcome = resolve_highlight(&Some("body,*,nothing".to_string()), &displayed, &restricted).unwrap();
    assert_eq!(sorted(&outcome.attributes), vec!["body".to_string(), "title".to_string(), "year".to_string()]);
    assert_eq!(sorted(&outcome.ignored), vec!["nothing".to_string()]);
}

#[test]
fn a_name_is_highlighted_once() {
    let displayed = set(&["title", "body"]);
    let outcome = resolve_highlight(&Some("title,title,body,title".to_string()), &displayed, &displayed).unwrap();
    assert_eq!(outcome.attributes.len(), 2);
    assert_eq!(sorted(&outcome.attributes), vec!["body".to_string(), "title".to_string()]);
}

#[test]
fn without_the_parameter_nothing_is_highlighted() {
    let displayed = set(&["title"]);
    assert!(resolve_highlight(&None, &displayed, &displayed).is_none());
}

#[test]
fn an_empty_text_highlights_nothing() {
    let displayed = set(&["title"]);
    let outcome = resolve_highlight(&Some(String::new()), &displayed, &displayed).unwrap();
    assert!(outcome.attributes.is_empty());
    assert_eq!(sorted(&outcome.ignored), vec![String::new()]);
}
