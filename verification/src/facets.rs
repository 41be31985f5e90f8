//! The facets for which a search counts values.

use crate::json::{items_view, json_document, read_json, JsonDocument, JsonDocumentView, JsonItem, JsonItemView};
use crate::schema::{FieldId, Schema, SchemaView};
use crate::text::{is_wildcard, optional_text, wildcard};
use vstd::prelude::*;

verus! {

/// The shape that a list of facets was expected to have where it had another.
#[derive(Clone, Copy, Debug, PartialEq, Eq, Structural)]
pub enum ExpectedShape {
    /// An array of strings.
    StringArray,
    /// A string.
    String,
}

impl ExpectedShape {
    /// The shape as it is named to the client.
    pub open spec fn spec_name(self) -> Seq<char> {
        match self {
            ExpectedShape::StringArray => "[String]"@,
            ExpectedShape::String => "String"@,
        }
    }

    /// The shape as it is named to the client.
    pub fn name(&self) -> (name: &'static str)
        ensures
            name@ == self.spec_name(),
    {
        match self {
            ExpectedShape::StringArray => "[String]",
            ExpectedShape::String => "String",
        }
    }
}

/// Why a list of facets could not be prepared.
#[derive(Debug)]
pub enum FacetCountError {
    /// The attribute exists and is not set as a facet.
    AttributeNotSet(String),
    /// The text is not JSON.
    Json(serde_json::Error),
    /// The JSON has another shape than the expected one.
    UnexpectedToken { found: String, expected: ExpectedShape },
    /// The index has no facets at all.
    NoFacetSet,
}

/// A `FacetCountError` with its texts as character sequences. Of a JSON error
/// only the kind is kept.
pub enum FacetCountErrorView {
    AttributeNotSet(Seq<char>),
    Json,
    UnexpectedToken { found: Seq<char>, expected: ExpectedShape },
    NoFacetSet,
}

impl View for FacetCountError {
    type V = FacetCountErrorView;

    open spec fn view(&self) -> FacetCountErrorView {
        match self {
            FacetCountError::AttributeNotSet(name) => FacetCountErrorView::AttributeNotSet(name@),
            FacetCountError::Json(_) => FacetCountErrorView::Json,
            FacetCountError::UnexpectedToken { found, expected } => {
                FacetCountErrorView::UnexpectedToken { found: found@, expected: *expected }
            },
            FacetCountError::NoFacetSet => FacetCountErrorView::NoFacetSet,
        }
    }
}

/// A list of facets: identifiers with their names, in order.
pub type FacetList = Seq<(FieldId, Seq<char>)>;

/// The identifiers and names of a list of facets.
pub open spec fn facets_view(facets: Seq<(FieldId, String)>) -> FacetList {
    Seq::new(facets.len(), |i: int| (facets[i].0, facets[i].1@))
}

/// The identifiers and names of the outcome of preparing a list of facets.
pub open spec fn outcome_view(outcome: Result<Vec<(FieldId, String)>, FacetCountError>) -> Result<
    FacetList,
    FacetCountErrorView,
> {
    match outcome {
        Ok(facets) => Ok(facets_view(facets@)),
        Err(error) => Err(error@),
    }
}

/// Every facet of the index with its name, in the order of `attrs`. An
/// identifier that the schema has no name for is left out.
pub open spec fn every_facet(schema: SchemaView, attrs: Seq<FieldId>) -> FacetList
    decreases attrs.len(),
{
    if attrs.len() == 0 {
        Seq::empty()
    } else {
        let before = every_facet(schema, attrs.drop_last());
        match schema.name_of(attrs.last()) {
            Some(name) => before.push((attrs.last(), name)),
            None => before,
        }
    }
}

/// The list after one more element of the array. A string that the schema does
/// not know is passed over; one that it knows is added with its identifier if
/// it is a facet, and is an error if it is not. Anything but a string is an
/// error.
pub open spec fn facet_step(
    before: FacetList,
    item: JsonItemView,
    schema: SchemaView,
    attrs: Seq<FieldId>,
) -> Result<FacetList, FacetCountErrorView> {
    match item {
        JsonItemView::Other(found) => Err(
            FacetCountErrorView::UnexpectedToken { found, expected: ExpectedShape::String },
        ),
        JsonItemView::Text(name) => match schema.id_of(name) {
            None => Ok(before),
            Some(id) => if attrs.contains(id) {
                Ok(before.push((id, name)))
            } else {
                Err(FacetCountErrorView::AttributeNotSet(name))
            },
        },
    }
}

/// The facets that the elements of an array name, in the order of the array and
/// as often as they are named; the error of the first element that has one.
pub open spec fn listed_facets(
    items: Seq<JsonItemView>,
    schema: SchemaView,
    attrs: Seq<FieldId>,
) -> Result<FacetList, FacetCountErrorView>
    decreases items.len(),
{
    if items.len() == 0 {
        Ok(Seq::empty())
    } else {
        match listed_facets(items.drop_last(), schema, attrs) {
            Err(error) => Err(error),
            Ok(before) => facet_step(before, items.last(), schema, attrs),
        }
    }
}

/// The facets that a JSON document asks for. It has to be an array. With the
/// wildcard string anywhere in it, it asks for every facet and nothing else in
/// it counts.
pub open spec fn facet_list(document: JsonDocumentView, schema: SchemaView, attrs: Seq<FieldId>) -> Result<
    FacetList,
    FacetCountErrorView,
> {
    match document {
        JsonDocumentView::Other(found) => Err(
            FacetCountErrorView::UnexpectedToken { found, expected: ExpectedShape::StringArray },
        ),
        JsonDocumentView::Array(items) => if items.contains(JsonItemView::Text(wildcard())) {
            Ok(every_facet(schema, attrs))
        } else {
            listed_facets(items, schema, attrs)
        },
    }
}

/// The facets that a text asks for: those of the JSON document that it holds,
/// and an error where it holds none.
pub open spec fn prepared(facets: Seq<char>, schema: SchemaView, attrs: Seq<FieldId>) -> Result<
    FacetList,
    FacetCountErrorView,
> {
    match json_document(facets) {
        None => Err(FacetCountErrorView::Json),
        Some(document) => facet_list(document, schema, attrs),
    }
}

/// Whether `id` is one of `attrs`.
pub fn is_facet(attrs: &[FieldId], id: FieldId) -> (found: bool)
    ensures
        found == attrs@.contains(id),
{
    let mut i: usize = 0;
    while i < attrs.len()
        invariant
            i <= attrs@.len(),
            forall|j: int| 0 <= j < i ==> attrs@[j] != id,
        decreases attrs@.len() - i,
    {
        if attrs[i] == id {
            return true;
        }
        i = i + 1;
    }
    false
}

/// Every facet of `facet_attrs` that `schema` has a name for, with that name.
pub fn all_facets(schema: &Schema, facet_attrs: &[FieldId]) -> (facets: Vec<(FieldId, String)>)
    ensures
        facets_view(facets@) == every_facet(schema@, facet_attrs@),
{
    let mut facets: Vec<(FieldId, String)> = Vec::new();
    let mut i: usize = 0;
    assert(facet_attrs@.take(0) == Seq::<FieldId>::empty());
    assert(facets_view(facets@) == every_facet(schema@, facet_attrs@.take(0)));
    while i < facet_attrs.len()
        invariant
            i <= facet_attrs@.len(),
            facets_view(facets@) == every_facet(schema@, facet_attrs@.take(i as int)),
        decreases facet_attrs@.len() - i,
    {
        let id = facet_attrs[i];
        let ghost before = facets@;
        match schema.name(id) {
            Some(name) => {
                facets.push((id, name.to_owned()));
                assert(facets_view(facets@) == facets_view(before).push((id, name@)));
            },
            None => {},
        }
        proof {
            let next = facet_attrs@.take(i + 1);
            assert(next.drop_last() == facet_attrs@.take(i as int));
            assert(next.last() == id);
        }
        i = i + 1;
    }
    assert(facet_attrs@.take(facet_attrs@.len() as int) == facet_attrs@);
    facets
}

/// Whether one of `items` is the wildcard string.
fn names_wildcard(items: &Vec<JsonItem>) -> (found: bool)
    ensures
        found == items_view(items@).contains(JsonItemView::Text(wildcard())),
{
    let mut i: usize = 0;
    while i < items.len()
        invariant
            i <= items@.len(),
            forall|j: int| 0 <= j < i ==> items_view(items@)[j] != JsonItemView::Text(wildcard()),
        decreases items@.len() - i,
    {
        match &items[i] {
            JsonItem::Text(name) => {
                if is_wildcard(name) {
                    assert(items_view(items@)[i as int] == JsonItemView::Text(wildcard()));
                    return true;
                }
            },
            JsonItem::Other(_) => {},
        }
        i = i + 1;
    }
    false
}

/// The facets that `document` asks for, with their identifiers in `schema`.
/// `facet_attrs` are the facets of the index.
pub fn facet_list_from_json(
    document: &JsonDocument,
    schema: &Schema,
    facet_attrs: &[FieldId],
) -> (outcome: Result<Vec<(FieldId, String)>, FacetCountError>)
    ensures
        outcome_view(outcome) == facet_list(document@, schema@, facet_attrs@),
{
    match document {
        JsonDocument::Other(found) => Err(
            FacetCountError::UnexpectedToken {
                found: found.clone(),
                expected: ExpectedShape::StringArray,
            },
        ),
        JsonDocument::Array(items) => {
            if names_wildcard(items) {
                return Ok(all_facets(schema, facet_attrs));
            }
            let mut facets: Vec<(FieldId, String)> = Vec::new();
            let mut i: usize = 0;
            let ghost all = items_view(items@);
            assert(all.take(0) == Seq::<JsonItemView>::empty());
            assert(facets_view(facets@) == Seq::<(FieldId, Seq<char>)>::empty());
            while i < items.len()
                invariant
                    i <= items@.len(),
                    all == items_view(items@),
                    facet_list(document@, schema@, facet_attrs@) == listed_facets(
                        all,
                        schema@,
                        facet_attrs@,
                    ),
                    listed_facets(all.take(i as int), schema@, facet_attrs@) == Ok::<
                        FacetList,
                        FacetCountErrorView,
                    >(facets_view(facets@)),
                decreases items@.len() - i,
            {
                proof {
                    let next = all.take(i + 1);
                    assert(next.drop_last() == all.take(i as int));
                    assert(next.last() == items@[i as int]@);
                }
                let ghost before = facets@;
                match &items[i] {
                    JsonItem::Other(found) => {
                        proof {
                            lemma_error_stays(all, i + 1, schema@, facet_attrs@);
                        }
                        return Err(
                            FacetCountError::UnexpectedToken {
                                found: found.clone(),
                                expected: ExpectedShape::String,
                            },
                        );
                    },
                    JsonItem::Text(name) => {
                        match schema.id(name.as_str()) {
                            Some(id) => {
                                if !is_facet(facet_attrs, id) {
                                    proof {
                                        lemma_error_stays(all, i + 1, schema@, facet_attrs@);
                                    }
                                    return Err(FacetCountError::AttributeNotSet(name.clone()));
                                }
                                facets.push((id, name.clone()));
                                assert(facets_view(facets@) == facets_view(before).push((id, name@)));
                            },
                            None => {},
                        }
                    },
                }
                i = i + 1;
            }
            assert(all.take(items@.len() as int) == all);
            Ok(facets)
        },
    }
}

/// An error among the first `k` elements is the error of the whole array.
pub proof fn lemma_error_stays(
    items: Seq<JsonItemView>,
    k: int,
    schema: SchemaView,
    attrs: Seq<FieldId>,
)
    requires
        0 <= k <= items.len(),
        listed_facets(items.take(k), schema, attrs) is Err,
    ensures
        listed_facets(items, schema, attrs) == listed_facets(items.take(k), schema, attrs),
    decreases items.len(),
{
    if k == items.len() {
        assert(items.take(k) == items);
    } else {
        assert(items.drop_last().take(k) == items.take(k));
        lemma_error_stays(items.drop_last(), k, schema, attrs);
    }
}

/// Reads `facets` as a JSON array of facet names and gives the facets that it
/// asks for, with their identifiers in `schema`. `facet_attrs` are the facets of
/// the index.
pub fn prepare_facet_list(facets: &str, schema: &Schema, facet_attrs: &[FieldId]) -> (outcome: Result<
    Vec<(FieldId, String)>,
    FacetCountError,
>)
    ensures
        outcome_view(outcome) == prepared(facets@, schema@, facet_attrs@),
{
    match read_json(facets) {
        Err(error) => Err(FacetCountError::Json(error)),
        Ok(document) => facet_list_from_json(&document, schema, facet_attrs),
    }
}

/// The facets of an index, where it has any, as a sequence.
pub open spec fn optional_attrs(attrs: Option<&[FieldId]>) -> Option<Seq<FieldId>> {
    match attrs {
        Some(a) => Some(a@),
        None => None,
    }
}

/// The identifiers and names of the outcome of reading the facets to count.
pub open spec fn distribution_view(
    outcome: Result<Option<Vec<(FieldId, String)>>, FacetCountError>,
) -> Result<Option<FacetList>, FacetCountErrorView> {
    match outcome {
        Ok(Some(facets)) => Ok(Some(facets_view(facets@))),
        Ok(None) => Ok(None),
        Err(error) => Err(error@),
    }
}

/// What the facets to count come to: nothing without the parameter; an error
/// where the index has no facets; else the facets that the text asks for.
pub open spec fn distribution(
    facets: Option<Seq<char>>,
    schema: SchemaView,
    attrs: Option<Seq<FieldId>>,
) -> Result<Option<FacetList>, FacetCountErrorView> {
    match facets {
        None => Ok(None),
        Some(text) => match attrs {
            None => Err(FacetCountErrorView::NoFacetSet),
            Some(ids) => match prepared(text, schema, ids) {
                Ok(list) => Ok(Some(list)),
                Err(error) => Err(error),
            },
        },
    }
}

/// Reads the facets to count. `facet_attrs` are the facets of the index, none
/// where it has no facets at all.
pub fn resolve_facets(
    facets_distribution: &Option<String>,
    schema: &Schema,
    facet_attrs: Option<&[FieldId]>,
) -> (outcome: Result<Option<Vec<(FieldId, String)>>, FacetCountError>)
    ensures
        distribution_view(outcome) == distribution(
            optional_text(*facets_distribution),
            schema@,
            optional_attrs(facet_attrs),
        ),
{
    match facets_distribution {
        None => Ok(None),
        Some(text) => match facet_attrs {
            None => Err(FacetCountError::NoFacetSet),
            Some(ids) => match prepare_facet_list(text.as_str(), schema, ids) {
                Ok(list) => Ok(Some(list)),
                Err(error) => Err(error),
            },
        },
    }
}

/// With the wildcard string anywhere in the array, the facets asked for are
/// every facet of the index, whatever else the array holds; and so for every
/// text that holds such an array.
pub proof fn lemma_wildcard_asks_for_every_facet(
    text: Seq<char>,
    items: Seq<JsonItemView>,
    schema: SchemaView,
    attrs: Seq<FieldId>,
)
    requires
        items.contains(JsonItemView::Text(wildcard())),
    ensures
        facet_list(JsonDocumentView::Array(items), schema, attrs) == Ok::<
            FacetList,
            FacetCountErrorView,
        >(every_facet(schema, attrs)),
        json_document(text) == Some(JsonDocumentView::Array(items)) ==> prepared(
            text,
            schema,
            attrs,
        ) == Ok::<FacetList, FacetCountErrorView>(every_facet(schema, attrs)),
{
}

/// Where the schema has a name for every facet of the index, every facet is
/// listed: as many as the index has, in its order, each with its name.
pub proof fn lemma_every_facet_named(schema: SchemaView, attrs: Seq<FieldId>)
    requires
        forall|i: int| 0 <= i < attrs.len() ==> schema.names.contains_key(#[trigger] attrs[i]),
    ensures
        every_facet(schema, attrs).len() == attrs.len(),
        forall|i: int|
            0 <= i < attrs.len() ==> #[trigger] every_facet(schema, attrs)[i] == (
                attrs[i],
                schema.names[attrs[i]],
            ),
    decreases attrs.len(),
{
    if attrs.len() > 0 {
        let before = attrs.drop_last();
        assert forall|i: int| 0 <= i < before.len() implies schema.names.contains_key(
            #[trigger] before[i],
        ) by {
            assert(before[i] == attrs[i]);
        }
        lemma_every_facet_named(schema, before);
        assert(schema.names.contains_key(attrs[attrs.len() - 1]));
        assert forall|i: int| 0 <= i < attrs.len() implies #[trigger] every_facet(schema, attrs)[i]
            == (attrs[i], schema.names[attrs[i]]) by {
            if i < before.len() {
                assert(every_facet(schema, before)[i] == (before[i], schema.names[before[i]]));
            }
        }
    }
}

/// Whether `item` is a string that names a facet of the index.
pub open spec fn names_facet(item: JsonItemView, schema: SchemaView, attrs: Seq<FieldId>) -> bool {
    item matches JsonItemView::Text(name) && schema.ids.contains_key(name) && attrs.contains(
        schema.ids[name],
    )
}

/// The facet that a string names.
pub open spec fn facet_of(item: JsonItemView, schema: SchemaView) -> (FieldId, Seq<char>) {
    (schema.ids[item->Text_0], item->Text_0)
}

/// An array of facet names is listed as it stands: one facet for each element,
/// in the order of the array, a facet named twice listed twice.
pub proof fn lemma_facets_keep_order_and_repetitions(
    items: Seq<JsonItemView>,
    schema: SchemaView,
    attrs: Seq<FieldId>,
)
    requires
        forall|i: int| 0 <= i < items.len() ==> names_facet(#[trigger] items[i], schema, attrs),
    ensures
        listed_facets(items, schema, attrs) == Ok::<FacetList, FacetCountErrorView>(
            Seq::new(items.len(), |i: int| facet_of(items[i], schema)),
        ),
    decreases items.len(),
{
    if items.len() > 0 {
        let before = items.drop_last();
        assert forall|i: int| 0 <= i < before.len() implies names_facet(
            #[trigger] before[i],
            schema,
            attrs,
        ) by {
            assert(before[i] == items[i]);
        }
        lemma_facets_keep_order_and_repetitions(before, schema, attrs);
        assert(names_facet(items[items.len() - 1], schema, attrs));
        assert(Seq::new(before.len(), |i: int| facet_of(before[i], schema)).push(
            facet_of(items.last(), schema),
        ) == Seq::new(items.len(), |i: int| facet_of(items[i], schema)));
    } else {
        assert(Seq::<(FieldId, Seq<char>)>::empty() == Seq::new(
            items.len(),
            |i: int| facet_of(items[i], schema),
        ));
    }
}

} // verus!
