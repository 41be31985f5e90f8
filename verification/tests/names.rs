use search_request::names::AttributeSet;

#[test]
fn a_new_set_is_empty() {
    let set = AttributeSet::new();
    assert!(set.is_empty());
    assert_eq!(set.len(), 0);
    assert!(!set.contains("title"));
    assert!(set.names().is_empty());
}

#[test]
fn a_name_is_held_once() {
    let mut set = AttributeSet::new();
    assert!(set.insert("title".to_string()));
    assert!(!set.insert("title".to_string()));
    assert!(set.insert("body".to_string()));
    assert_eq!(set.len(), 2);
    assert!(!set.is_empty());
    assert!(set.contains("title"));
    assert!(set.contains("body"));
    assert!(set.holds(&"body".to_string()));
    assert!(!set.contains("Title"));
    assert!(!set.contains(""));
    let mut names = set.names().clone();
    names.sort();
    assert_eq!(names, vec!["body".to_string(), "title".to_string()]);
}

#[test]
fn the_empty_name_is_a_name() {
    let mut set = AttributeSet::new();
    assert!(set.insert(String::new()));
    assert!(set.contains(""));
    assert_eq!(set.len(), 1);
}

#[test]
fn extending_is_the_union() {
    let mut left = AttributeSet::new();
    left.insert("title".to_string());
    left.insert("body".to_string());
    let mut right = AttributeSet::new();
    right.insert("body".to_string());
    right.insert("year".to_string());
    left.extend(&right);
    assert_eq!(left.len(), 3);
    assert!(left.contains("title") && left.contains("body") && left.contains("year"));
    assert_eq!(right.len(), 2);
    left.extend(&AttributeSet::new());
    assert_eq!(left.len(), 3);
}

#[test]
fn a_duplicate_holds_the_same_names() {
    let mut set = AttributeSet::new();
    set.insert("title".to_string());
    set.insert("body".to_string());
    let mut copy = set.duplicate();
    assert_eq!(copy.len(), 2);
    assert!(copy.contains("title") && copy.contains("body"));
    copy.insert("year".to_string());
    assert_eq!(set.len(), 2);
    assert!(!set.contains("year"));
}
