//! A search request, from the parameters as they were received to the settings
//! that the engine is run with.

use crate::crop::{crop, default_length, lemma_unknown_is_not_cropped, resolve_crop, CropSpec};
use crate::facets::{
    distribution, facets_view, optional_attrs, resolve_facets, FacetCountError,
    FacetCountErrorView, FacetList,
};
use crate::highlight::{highlight, lemma_unknown_is_not_highlighted, resolve_highlight};
use crate::names::AttributeSet;
use crate::retrieve::{lemma_restricted_are_displayed, resolve_retrievable, retrievable};
use crate::schema::{FieldId, Schema, SchemaView};
use crate::text::{copy_text, optional_text, split};
use vstd::prelude::*;

verus! {

/// The parameters of a search as they were received, each group still in its
/// textual form.
#[derive(Debug)]
pub struct SearchQuery {
    pub q: String,
    pub offset: Option<usize>,
    pub limit: Option<usize>,
    pub attributes_to_retrieve: Option<String>,
    pub attributes_to_crop: Option<String>,
    pub crop_length: Option<usize>,
    pub attributes_to_highlight: Option<String>,
    pub filters: Option<String>,
    pub matches: Option<bool>,
    pub facet_filters: Option<String>,
    pub facets_distribution: Option<String>,
}

/// A `SearchQuery` with its texts as character sequences.
pub struct SearchQueryView {
    pub q: Seq<char>,
    pub offset: Option<usize>,
    pub limit: Option<usize>,
    pub attributes_to_retrieve: Option<Seq<char>>,
    pub attributes_to_crop: Option<Seq<char>>,
    pub crop_length: Option<usize>,
    pub attributes_to_highlight: Option<Seq<char>>,
    pub filters: Option<Seq<char>>,
    pub matches: Option<bool>,
    pub facet_filters: Option<Seq<char>>,
    pub facets_distribution: Option<Seq<char>>,
}

impl View for SearchQuery {
    type V = SearchQueryView;

    open spec fn view(&self) -> SearchQueryView {
        SearchQueryView {
            q: self.q@,
            offset: self.offset,
            limit: self.limit,
            attributes_to_retrieve: optional_text(self.attributes_to_retrieve),
            attributes_to_crop: optional_text(self.attributes_to_crop),
            crop_length: self.crop_length,
            attributes_to_highlight: optional_text(self.attributes_to_highlight),
            filters: optional_text(self.filters),
            matches: self.matches,
            facet_filters: optional_text(self.facet_filters),
            facets_distribution: optional_text(self.facets_distribution),
        }
    }
}

/// The settings that the engine is run with. `F` is the engine's own form of a
/// facet filter; nothing here looks into it.
#[derive(Debug)]
pub struct SearchSpecification<F> {
    /// The text to search for.
    pub query: String,
    /// How many results to pass over; the engine's default where there is none.
    pub offset: Option<usize>,
    /// How many results to return; the engine's default where there is none.
    pub limit: Option<usize>,
    /// The attributes registered as retrievable. Where there is none the engine
    /// returns every displayed attribute.
    pub retrievable: AttributeSet,
    /// The length of each attribute to crop.
    pub crop: Option<CropSpec>,
    /// The attributes to highlight.
    pub highlight: Option<AttributeSet>,
    /// The filter expression, as it was received.
    pub filters: Option<String>,
    /// The facet filter.
    pub facet_filter: Option<F>,
    /// The facets to count the values of.
    pub facets: Option<Vec<(FieldId, String)>>,
    /// Whether the positions of the matches are asked for.
    pub matches: bool,
}

/// A `SearchSpecification` in terms of sets, maps and sequences.
pub struct SearchSpecificationView<F> {
    pub query: Seq<char>,
    pub offset: Option<usize>,
    pub limit: Option<usize>,
    pub retrievable: Set<Seq<char>>,
    pub crop: Option<Map<Seq<char>, usize>>,
    pub highlight: Option<Set<Seq<char>>>,
    pub filters: Option<Seq<char>>,
    pub facet_filter: Option<F>,
    pub facets: Option<FacetList>,
    pub matches: bool,
}

impl<F> View for SearchSpecification<F> {
    type V = SearchSpecificationView<F>;

    open spec fn view(&self) -> SearchSpecificationView<F> {
        SearchSpecificationView {
            query: self.query@,
            offset: self.offset,
            limit: self.limit,
            retrievable: self.retrievable@,
            crop: match self.crop {
                Some(lengths) => Some(lengths@),
                None => None,
            },
            highlight: match self.highlight {
                Some(attributes) => Some(attributes@),
                None => None,
            },
            filters: optional_text(self.filters),
            facet_filter: self.facet_filter,
            facets: match self.facets {
                Some(facets) => Some(facets_view(facets@)),
                None => None,
            },
            matches: self.matches,
        }
    }
}

/// The names that a request asked for and the schema does not display, by the
/// parameter that held them. They were left out of the settings; they are kept
/// here for whoever logs them.
#[derive(Debug)]
pub struct IgnoredAttributes {
    pub retrieve: AttributeSet,
    pub crop: AttributeSet,
    pub highlight: AttributeSet,
}

/// The sets of an `IgnoredAttributes`.
pub struct IgnoredAttributesView {
    pub retrieve: Set<Seq<char>>,
    pub crop: Set<Seq<char>>,
    pub highlight: Set<Seq<char>>,
}

impl View for IgnoredAttributes {
    type V = IgnoredAttributesView;

    open spec fn view(&self) -> IgnoredAttributesView {
        IgnoredAttributesView {
            retrieve: self.retrieve@,
            crop: self.crop@,
            highlight: self.highlight@,
        }
    }
}

/// Why a request was refused. `E` is the engine's own error for a facet filter
/// that it could not read.
#[derive(Debug)]
pub enum SearchError<E> {
    /// The facet filter could not be read.
    FacetFilter(E),
    /// The facets to count could not be prepared.
    FacetCount(FacetCountError),
}

/// A `SearchError` with its texts as character sequences.
pub enum SearchErrorView<E> {
    FacetFilter(E),
    FacetCount(FacetCountErrorView),
}

impl<E> View for SearchError<E> {
    type V = SearchErrorView<E>;

    open spec fn view(&self) -> SearchErrorView<E> {
        match self {
            SearchError::FacetFilter(error) => SearchErrorView::FacetFilter(*error),
            SearchError::FacetCount(error) => SearchErrorView::FacetCount(error@),
        }
    }
}

/// Whether the facet filter of a request is to be read: the request has one and
/// the index has facets. Without facets a facet filter is passed over.
pub open spec fn wants_facet_filter(query: SearchQueryView, attrs: Option<Seq<FieldId>>) -> bool {
    query.facet_filters is Some && attrs is Some
}

/// The facet filter expression that the engine has to read for this request, if
/// there is one. `facet_attrs` are the facets of the index, none where it has no
/// facets at all.
pub fn facet_filter_expression<'a>(query: &'a SearchQuery, facet_attrs: Option<&[FieldId]>) -> (expression:
    Option<&'a str>)
    ensures
        expression is Some <==> wants_facet_filter(query@, optional_attrs(facet_attrs)),
        expression matches Some(text) ==> query@.facet_filters == Some(text@),
{
    match (&query.facet_filters, facet_attrs) {
        (Some(text), Some(_)) => Some(text.as_str()),
        _ => None,
    }
}

/// What becomes of the facet filter that the engine read. Where the request
/// wants one, it is attached, or its error ends the request; where the request
/// wants none, whatever was read is passed over.
pub open spec fn facet_filter_stage<F, E>(
    query: SearchQueryView,
    attrs: Option<Seq<FieldId>>,
    read: Option<Result<F, E>>,
) -> Result<Option<F>, E> {
    if wants_facet_filter(query, attrs) {
        match read {
            Some(Ok(filter)) => Ok(Some(filter)),
            Some(Err(error)) => Err(error),
            None => Ok(None),
        }
    } else {
        Ok(None)
    }
}

/// The settings and the ignored names that a request comes to, or the first
/// error in the order of the stages: the facet filter, then the facets to
/// count. The attributes to retrieve, to crop and to highlight never fail.
pub open spec fn assembled<F, E>(
    query: SearchQueryView,
    schema: SchemaView,
    attrs: Option<Seq<FieldId>>,
    read: Option<Result<F, E>>,
) -> Result<(SearchSpecificationView<F>, IgnoredAttributesView), SearchErrorView<E>> {
    let chosen = retrievable(query.attributes_to_retrieve, schema.displayed);
    match facet_filter_stage(query, attrs, read) {
        Err(error) => Err(SearchErrorView::FacetFilter(error)),
        Ok(facet_filter) => match distribution(query.facets_distribution, schema, attrs) {
            Err(error) => Err(SearchErrorView::FacetCount(error)),
            Ok(facets) => {
                let cropped = crop(
                    query.attributes_to_crop,
                    query.crop_length,
                    schema.displayed,
                    chosen.restricted,
                );
                let highlighted = highlight(
                    query.attributes_to_highlight,
                    schema.displayed,
                    chosen.restricted,
                );
                Ok(
                    (
                        SearchSpecificationView {
                            query: query.q,
                            offset: query.offset,
                            limit: query.limit,
                            retrievable: chosen.registered,
                            crop: match cropped {
                                Some(c) => Some(c.lengths),
                                None => None,
                            },
                            highlight: match highlighted {
                                Some(h) => Some(h.attributes),
                                None => None,
                            },
                            filters: query.filters,
                            facet_filter,
                            facets,
                            matches: query.matches == Some(true),
                        },
                        IgnoredAttributesView {
                            retrieve: chosen.ignored,
                            crop: match cropped {
                                Some(c) => c.ignored,
                                None => Set::empty(),
                            },
                            highlight: match highlighted {
                                Some(h) => h.ignored,
                                None => Set::empty(),
                            },
                        },
                    ),
                )
            },
        },
    }
}

/// The outcome of assembling in terms of sets, maps and sequences.
pub open spec fn assembly_view<F, E>(
    outcome: Result<(SearchSpecification<F>, IgnoredAttributes), SearchError<E>>,
) -> Result<(SearchSpecificationView<F>, IgnoredAttributesView), SearchErrorView<E>> {
    match outcome {
        Ok((specification, ignored)) => Ok((specification@, ignored@)),
        Err(error) => Err(error@),
    }
}

/// Turns the parameters of a request into the settings for the engine.
///
/// `facet_attrs` are the facets of the index, none where it has no facets at
/// all. `facet_filter` is what the engine made of the expression that
/// `facet_filter_expression` gave for this request, none where it gave none.
pub fn assemble<F, E>(
    query: &SearchQuery,
    schema: &Schema,
    facet_attrs: Option<&[FieldId]>,
    facet_filter: Option<Result<F, E>>,
) -> (outcome: Result<(SearchSpecification<F>, IgnoredAttributes), SearchError<E>>)
    ensures
        assembly_view(outcome) == assembled(
            query@,
            schema@,
            optional_attrs(facet_attrs),
            facet_filter,
        ),
{
    let chosen = resolve_retrievable(&query.attributes_to_retrieve, schema);
    let wanted = facet_filter_expression(query, facet_attrs).is_some();
    let attached: Option<F> = match facet_filter {
        Some(Ok(filter)) => if wanted {
            Some(filter)
        } else {
            None
        },
        Some(Err(error)) => {
            if wanted {
                return Err(SearchError::FacetFilter(error));
            }
            None
        },
        None => None,
    };
    let facets = match resolve_facets(&query.facets_distribution, schema, facet_attrs) {
        Ok(facets) => facets,
        Err(error) => {
            return Err(SearchError::FacetCount(error));
        },
    };
    let displayed = schema.displayed_name();
    let (crop_lengths, crop_ignored) = match resolve_crop(
        &query.attributes_to_crop,
        query.crop_length,
        &displayed,
        &chosen.restricted,
    ) {
        Some(outcome) => (Some(outcome.lengths), outcome.ignored),
        None => (None, AttributeSet::new()),
    };
    let (highlight_attributes, highlight_ignored) = match resolve_highlight(
        &query.attributes_to_highlight,
        &displayed,
        &chosen.restricted,
    ) {
        Some(outcome) => (Some(outcome.attributes), outcome.ignored),
        None => (None, AttributeSet::new()),
    };
    let matches = match query.matches {
        Some(asked) => asked,
        None => false,
    };
    Ok(
        (
            SearchSpecification {
                query: query.q.clone(),
                offset: query.offset,
                limit: query.limit,
                retrievable: chosen.registered,
                crop: crop_lengths,
                highlight: highlight_attributes,
                filters: copy_text(&query.filters),
                facet_filter: attached,
                facets,
                matches,
            },
            IgnoredAttributes {
                retrieve: chosen.ignored,
                crop: crop_ignored,
                highlight: highlight_ignored,
            },
        ),
    )
}

/// Assembling depends on nothing but what it is given: two outcomes for the same
/// request, the same schema, the same facets and the same facet filter are the
/// same settings with the same ignored names, or the same error.
pub proof fn lemma_assemble_repeatable<F, E>(
    query: SearchQuery,
    again: SearchQuery,
    schema: Schema,
    same_schema: Schema,
    attrs: Option<Seq<FieldId>>,
    read: Option<Result<F, E>>,
    first: Result<(SearchSpecification<F>, IgnoredAttributes), SearchError<E>>,
    second: Result<(SearchSpecification<F>, IgnoredAttributes), SearchError<E>>,
)
    requires
        query@ == again@,
        schema@ == same_schema@,
        assembly_view(first) == assembled(query@, schema@, attrs, read),
        assembly_view(second) == assembled(again@, same_schema@, attrs, read),
    ensures
        assembly_view(first) == assembly_view(second),
{
}

/// A request is refused exactly where the facet filter or the facets to count
/// are in error, and the error of the facet filter comes first. No attribute to
/// retrieve, to crop or to highlight ever refuses a request.
pub proof fn lemma_refused_by_facets_alone<F, E>(
    query: SearchQueryView,
    schema: SchemaView,
    attrs: Option<Seq<FieldId>>,
    read: Option<Result<F, E>>,
)
    ensures
        assembled(query, schema, attrs, read) is Err <==> facet_filter_stage(query, attrs, read)
            is Err || distribution(query.facets_distribution, schema, attrs) is Err,
        facet_filter_stage(query, attrs, read) matches Err(error) ==> assembled(
            query,
            schema,
            attrs,
            read,
        ) == Err::<(SearchSpecificationView<F>, IgnoredAttributesView), SearchErrorView<E>>(
            SearchErrorView::FacetFilter(error),
        ),
{
}

/// What is highlighted and what is cropped are displayed attributes, whatever
/// the request names.
pub proof fn lemma_settings_name_displayed_attributes<F, E>(
    query: SearchQueryView,
    schema: SchemaView,
    attrs: Option<Seq<FieldId>>,
    read: Option<Result<F, E>>,
    name: Seq<char>,
)
    requires
        !schema.displayed.contains(name),
    ensures
        assembled(query, schema, attrs, read) matches Ok((settings, _)) ==> {
            &&& !settings.retrievable.contains(name)
            &&& settings.highlight matches Some(attributes) ==> !attributes.contains(name)
            &&& settings.crop matches Some(lengths) ==> !lengths.contains_key(name)
        },
{
    let chosen = retrievable(query.attributes_to_retrieve, schema.displayed);
    lemma_restricted_are_displayed(query.attributes_to_retrieve, schema.displayed);
    if query.attributes_to_highlight is Some {
        lemma_unknown_is_not_highlighted(
            query.attributes_to_highlight->0,
            schema.displayed,
            chosen.restricted,
            name,
        );
    }
    if query.attributes_to_crop is Some {
        lemma_unknown_is_not_cropped(
            split(query.attributes_to_crop->0, ','),
            default_length(query.crop_length),
            schema.displayed,
            chosen.restricted,
            name,
        );
    }
}

} // verus!
