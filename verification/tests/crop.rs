use search_request::crop::{resolve_crop, CropSpec, DEFAULT_CROP_LENGTH};
use search_request::names::AttributeSet;

fn set(names: &[&str]) -> AttributeSet {
    let mut set = AttributeSet::new();
    for name in names {
        set.insert(name.to_string());
    }
    set
}

fn lengths(spec: &CropSpec) -> Vec<(String, usize)> {
    let mut entries = spec.entries().clone();
    entries.sort();
    entries
}

fn entry(name: &str, length: usize) -> (String, usize) {
    (name.to_string(), length)
}

#[test]
fn a_later_wildcard_replaces_an_earlier_length() {
    let displayed = set(&["title", "body", "year"]);
    let restricted = set(&["title", "body"]);
    let crop = resolve_crop(&Some("title:50,*".to_string()), None, &displayed, &restricted).unwrap();
    assert_eq!(lengths(&crop.lengths), vec![entry("body", 200), entry("title", 200)]);
    assert!(crop.ignored.is_empty());
}

#[test]
fn a_later_name_replaces_the_length_of_a_wildcard() {
    let displayed = set(&["title", "body", "year"]);
    let restricted = set(&["title", "body"]);
    let crop = resolve_crop(&Some("*:10,title:50".to_string()), None, &displayed, &restricted).unwrap();
    assert_eq!(lengths(&crop.lengths), vec![entry("body", 10), entry("title", 50)]);
    let crop = resolve_crop(&Some("title:1,title:2,title".to_string()), Some(3), &displayed, &restricted).unwrap();
    assert_eq!(lengths(&crop.lengths), vec![entry("title", 3)]);
}

#[test]
fn a_length_that_is_no_number_is_the_default() {
    let displayed = set(&["title", "body"]);
    let restricted = set(&["title", "body"]);
    let crop = resolve_crop(&Some("title:abc".to_string()), None, &displayed, &restricted).unwrap();
    assert_eq!(lengths(&crop.lengths), vec![entry("title", DEFAULT_CROP_LENGTH)]);
    assert_eq!(DEFAULT_CROP_LENGTH, 200);
    let crop = resolve_crop(&Some("title:abc,body:".to_string()), Some(30), &displayed, &restricted).unwrap();
    assert_eq!(lengths(&crop.lengths), vec![entry("body", 30), entry("title", 30)]);
    let crop = resolve_crop(&Some("title:-4".to_string()), Some(30), &displayed, &restricted).unwrap();
    assert_eq!(crop.lengths.get("title"), Some(30));
}

#[test]
fn what_follows_the_first_colon_is_the_length() {
    let displayed = set(&["title"]);
    let restricted = set(&["title"]);
    let crop = resolve_crop(&Some("title:50:60".to_string()), None, &displayed, &restricted).unwrap();
    assert_eq!(crop.lengths.get("title"), Some(200));
    let crop = resolve_crop(&Some("title:+5".to_string()), None, &displayed, &restricted).unwrap();
    assert_eq!(crop.lengths.get("title"), Some(5));
    let crop = resolve_crop(&Some("title:0".to_string()), None, &displayed, &restricted).unwrap();
    assert_eq!(crop.lengths.get("title"), Some(0));
}

#[test]
fn the_length_of_the_request_is_the_default() {
    let displayed = set(&["title", "body"]);
    let restricted = set(&["title", "body"]);
    let crop = resolve_crop(&Some("title,body:7".to_string()), Some(15), &displayed, &restricted).unwrap();
    assert_eq!(lengths(&crop.lengths), vec![entry("body", 7), entry("title", 15)]);
}

#[test]
fn a_wildcard_stands_for_the_restricted_attributes() {
    let displayed = set(&["title", "body", "year"]);
    let restricted = set(&["year"]);
    let crop = resolve_crop(&Some("*:12".to_string()), None, &displayed, &restricted).unwrap();
    assert_eq!(lengths(&crop.lengths), vec![entry("year", 12)]);
    let crop = resolve_crop(&Some("*".to_string()), None, &displayed, &set(&[])).unwrap();
    assert!(crop.lengths.entries().is_empty());
}

#[test]
fn a_displayed_attribute_is_cropped_though_it_is_not_restricted() {
    let displayed = set(&["title", "body"]);
    let restricted = set(&["title"]);
    let crop = resolve_crop(&Some("body:9".to_string()), None, &displayed, &restricted).unwrap();
    assert_eq!(lengths(&crop.lengths), vec![entry("body", 9)]);
}

#[test]
fn an_unknown_attribute_is_not_cropped() {
    let displayed = set(&["title"]);
    let restricted = set(&["title"]);
    let crop = resolve_crop(&Some("unknown:5,title:6,other".to_string()), None, &displayed, &restricted).unwrap();
    assert_eq!(lengths(&crop.lengths), vec![entry("title", 6)]);
    assert_eq!(crop.lengths.get("unknown"), None);
    assert_eq!(crop.ignored.len(), 2);
    assert!(crop.ignored.contains("unknown"));
    assert!(crop.ignored.contains("other"));
}

#[test]
fn a_token_without_a_name_is_dropped() {
    let displayed = set(&["title"]);
    let restricted = set(&["title"]);
    for text in [":5", "", ",", ":", "title:4,:5,"] {
        let crop = resolve_crop(&Some(text.to_string()), None, &displayed, &restricted).unwrap();
        assert!(crop.ignored.is_empty(), "text {:?}", text);
        assert!(crop.lengths.entries().len() <= 1);
    }
}

#[test]
fn without_the_parameter_nothing_is_cropped() {
    let displayed = set(&["title"]);
    assert!(resolve_crop(&None, Some(5), &displayed, &displayed).is_none());
    assert!(resolve_crop(&None, None, &displayed, &displayed).is_none());
}

#[test]
fn a_length_is_set_and_replaced() {
    let mut spec = CropSpec::new();
    assert_eq!(spec.get("title"), None);
    spec.insert("title".to_string(), 5);
    spec.insert("body".to_string(), 6);
    spec.insert("title".to_string(), 7);
    assert_eq!(spec.get("title"), Some(7));
    assert_eq!(spec.get("body"), Some(6));
    assert_eq!(spec.entries().len(), 2);
    spec.insert_all(&set(&["body", "year"]), 1);
    assert_eq!(lengths(&spec), vec![entry("body", 1), entry("title", 7), entry("year", 1)]);
}
