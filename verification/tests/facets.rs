use search_request::facets::{
    all_facets, facet_list_from_json, is_facet, prepare_facet_list, resolve_facets, ExpectedShape,
    FacetCountError,
};
use search_request::json::{JsonDocument, JsonItem};
use search_request::schema::{FieldId, Schema};

fn schema() -> Schema {
    let mut schema = Schema::new();
    schema.insert(FieldId(0), "title", true);
    schema.insert(FieldId(1), "genre", true);
    schema.insert(FieldId(2), "year", true);
    schema
}

fn pair(id: u16, name: &str) -> (FieldId, String) {
    (FieldId(id), name.to_string())
}

#[test]
fn a_wildcard_anywhere_asks_for_every_facet() {
    let attrs = [FieldId(1), FieldId(2)];
    let expected = vec![pair(1, "genre"), pair(2, "year")];
    for text in ["[\"genre\",\"*\"]", "[\"*\"]", "[\"*\",\"unknown\"]", "[\"title\",\"*\"]", "[1,\"*\",null]"] {
        assert_eq!(prepare_facet_list(text, &schema(), &attrs).unwrap(), expected, "{}", text);
    }
}

#[test]
fn a_wildcard_follows_the_order_of_the_facets() {
    let attrs = [FieldId(2), FieldId(1)];
    let facets = prepare_facet_list("[\"*\"]", &schema(), &attrs).unwrap();
    assert_eq!(facets, vec![pair(2, "year"), pair(1, "genre")]);
}

#[test]
fn a_wildcard_passes_over_a_facet_without_a_name() {
    let attrs = [FieldId(9), FieldId(1)];
    let facets = prepare_facet_list("[\"*\"]", &schema(), &attrs).unwrap();
    assert_eq!(facets, vec![pair(1, "genre")]);
    assert!(prepare_facet_list("[\"*\"]", &schema(), &[]).unwrap().is_empty());
}

#[test]
fn text_that_is_not_json_is_refused() {
    let outcome = prepare_facet_list("not json", &schema(), &[FieldId(1)]);
    assert!(matches!(outcome, Err(FacetCountError::Json(_))));
    assert!(matches!(prepare_facet_list("", &schema(), &[]), Err(FacetCountError::Json(_))));
    assert!(matches!(prepare_facet_list("[\"genre\"", &schema(), &[]), Err(FacetCountError::Json(_))));
    assert!(matches!(prepare_facet_list("[] []", &schema(), &[]), Err(FacetCountError::Json(_))));
}

#[test]
fn json_that_is_no_array_is_refused() {
    match prepare_facet_list("{\"a\":1}", &schema(), &[FieldId(1)]) {
        Err(FacetCountError::UnexpectedToken { found, expected }) => {
            assert_eq!(expected, ExpectedShape::StringArray);
            assert_eq!(expected.name(), "[String]");
            assert_eq!(found, "{\"a\":1}");
        }
        other => panic!("unexpected outcome {:?}", other),
    }
    match prepare_facet_list(" \"genre\" ", &schema(), &[FieldId(1)]) {
        Err(FacetCountError::UnexpectedToken { found, expected }) => {
            assert_eq!(expected.name(), "[String]");
            assert_eq!(found, "\"genre\"");
        }
        other => panic!("unexpected outcome {:?}", other),
    }
}

#[test]
fn an_attribute_that_is_no_facet_is_refused() {
    match prepare_facet_list("[\"year\"]", &schema(), &[FieldId(1)]) {
        Err(FacetCountError::AttributeNotSet(name)) => assert_eq!(name, "year"),
        other => panic!("unexpected outcome {:?}", other),
    }
}

#[test]
fn an_unknown_name_is_passed_over() {
    let facets = prepare_facet_list("[\"unknown\"]", &schema(), &[FieldId(1)]).unwrap();
    assert!(facets.is_empty());
    let facets = prepare_facet_list("[\"unknown\",\"genre\",\"\"]", &schema(), &[FieldId(1)]).unwrap();
    assert_eq!(facets, vec![pair(1, "genre")]);
}

#[test]
fn an_element_that_is_no_string_is_refused() {
    match prepare_facet_list("[\"genre\", 12]", &schema(), &[FieldId(1)]) {
        Err(FacetCountError::UnexpectedToken { found, expected }) => {
            assert_eq!(expected, ExpectedShape::String);
            assert_eq!(expected.name(), "String");
            assert_eq!(found, "12");
        }
        other => panic!("unexpected outcome {:?}", other),
    }
    match prepare_facet_list("[[\"genre\"]]", &schema(), &[FieldId(1)]) {
        Err(FacetCountError::UnexpectedToken { found, expected }) => {
            assert_eq!(expected.name(), "String");
            assert_eq!(found, "[\"genre\"]");
        }
        other => panic!("unexpected outcome {:?}", other),
    }
}

#[test]
fn named_facets_keep_their_order_and_their_repetitions() {
    let attrs = [FieldId(1), FieldId(2)];
    let facets = prepare_facet_list("[\"year\",\"genre\",\"year\"]", &schema(), &attrs).unwrap();
    assert_eq!(facets, vec![pair(2, "year"), pair(1, "genre"), pair(2, "year")]);
    assert!(prepare_facet_list("[]", &schema(), &attrs).unwrap().is_empty());
}

#[test]
fn the_first_element_in_error_decides() {
    let attrs = [FieldId(1)];
    let outcome = prepare_facet_list("[\"genre\",\"year\",5]", &schema(), &attrs);
    assert!(matches!(outcome, Err(FacetCountError::AttributeNotSet(_))));
    let outcome = prepare_facet_list("[\"genre\",5,\"year\"]", &schema(), &attrs);
    assert!(matches!(outcome, Err(FacetCountError::UnexpectedToken { .. })));
}

#[test]
fn a_document_is_read_without_its_text() {
    let attrs = [FieldId(1), FieldId(2)];
    let document = JsonDocument::Array(vec![
        JsonItem::Text("genre".to_string()),
        JsonItem::Text("nothing".to_string()),
        JsonItem::Text("year".to_string()),
    ]);
    let facets = facet_list_from_json(&document, &schema(), &attrs).unwrap();
    assert_eq!(facets, vec![pair(1, "genre"), pair(2, "year")]);
    let document = JsonDocument::Array(vec![JsonItem::Other("true".to_string()), JsonItem::Text("*".to_string())]);
    let facets = facet_list_from_json(&document, &schema(), &attrs).unwrap();
    assert_eq!(facets, vec![pair(1, "genre"), pair(2, "year")]);
    let document = JsonDocument::Other("null".to_string());
    match facet_list_from_json(&document, &schema(), &attrs) {
        Err(FacetCountError::UnexpectedToken { found, expected }) => {
            assert_eq!(found, "null");
            assert_eq!(expected, ExpectedShape::StringArray);
        }
        other => panic!("unexpected outcome {:?}", other),
    }
}

#[test]
fn facets_are_told_from_other_attributes() {
    let attrs = [FieldId(1), FieldId(2)];
    assert!(is_facet(&attrs, FieldId(1)));
    assert!(is_facet(&attrs, FieldId(2)));
    assert!(!is_facet(&attrs, FieldId(0)));
    assert!(!is_facet(&[], FieldId(0)));
    assert_eq!(all_facets(&schema(), &attrs), vec![pair(1, "genre"), pair(2, "year")]);
}

#[test]
fn facets_are_counted_only_where_the_index_has_some() {
    let attrs = [FieldId(1)];
    assert_eq!(resolve_facets(&None, &schema(), Some(&attrs)).unwrap(), None);
    assert_eq!(resolve_facets(&None, &schema(), None).unwrap(), None);
    let outcome = resolve_facets(&Some("[\"genre\"]".to_string()), &schema(), None);
    assert!(matches!(outcome, Err(FacetCountError::NoFacetSet)));
    let outcome = resolve_facets(&Some("not json".to_string()), &schema(), None);
    assert!(matches!(outcome, Err(FacetCountError::NoFacetSet)));
    let outcome = resolve_facets(&Some("[\"genre\"]".to_string()), &schema(), Some(&attrs));
    assert_eq!(outcome.unwrap(), Some(vec![pair(1, "genre")]));
    let outcome = resolve_facets(&Some("[\"genre\"]".to_string()), &schema(), Some(&[]));
    assert!(matches!(outcome, Err(FacetCountError::AttributeNotSet(_))));
}
