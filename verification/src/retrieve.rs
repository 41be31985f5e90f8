//! Which attributes a search may return.

use crate::names::AttributeSet;
use crate::schema::Schema;
use crate::text::{contains_wildcard, lemma_take_next, optional_text, split, split_text, texts, wildcard};
use vstd::prelude::*;

verus! {

/// The outcome of reading the attributes to retrieve.
#[derive(Debug)]
pub struct Retrievable {
    /// The attributes that the request is restricted to. A wildcard in the
    /// attributes to crop or to highlight stands for these.
    pub restricted: AttributeSet,
    /// The attributes that are to be registered with the engine as retrievable.
    /// Where there is none the engine's default applies.
    pub registered: AttributeSet,
    /// The names asked for that the schema does not display. They are left out
    /// and the request goes on.
    pub ignored: AttributeSet,
}

/// The sets of a `Retrievable`.
pub struct RetrievableView {
    pub restricted: Set<Seq<char>>,
    pub registered: Set<Seq<char>>,
    pub ignored: Set<Seq<char>>,
}

impl View for Retrievable {
    type V = RetrievableView;

    open spec fn view(&self) -> RetrievableView {
        RetrievableView {
            restricted: self.restricted@,
            registered: self.registered@,
            ignored: self.ignored@,
        }
    }
}

/// No restriction: every displayed attribute, none registered, none ignored.
pub open spec fn unrestricted(displayed: Set<Seq<char>>) -> RetrievableView {
    RetrievableView { restricted: displayed, registered: Set::empty(), ignored: Set::empty() }
}

/// The restriction that the comma-separated tokens ask for: each token that
/// names a displayed attribute is kept and registered, every other token is
/// ignored.
pub open spec fn chosen(tokens: Seq<Seq<char>>, displayed: Set<Seq<char>>) -> RetrievableView {
    RetrievableView {
        restricted: tokens.to_set().intersect(displayed),
        registered: tokens.to_set().intersect(displayed),
        ignored: tokens.to_set().difference(displayed),
    }
}

/// What the attributes to retrieve come to. Without the parameter, and with a
/// wildcard among its tokens, nothing is restricted.
pub open spec fn retrievable(
    attributes: Option<Seq<char>>,
    displayed: Set<Seq<char>>,
) -> RetrievableView {
    match attributes {
        None => unrestricted(displayed),
        Some(text) => {
            let tokens = split(text, ',');
            if tokens.contains(wildcard()) {
                unrestricted(displayed)
            } else {
                chosen(tokens, displayed)
            }
        },
    }
}

/// Reads the attributes to retrieve against the attributes that `schema`
/// displays.
pub fn resolve_retrievable(attributes_to_retrieve: &Option<String>, schema: &Schema) -> (outcome:
    Retrievable)
    ensures
        outcome@ == retrievable(optional_text(*attributes_to_retrieve), schema@.displayed),
{
    let displayed = schema.displayed_name();
    match attributes_to_retrieve {
        None => Retrievable {
            restricted: displayed,
            registered: AttributeSet::new(),
            ignored: AttributeSet::new(),
        },
        Some(text) => {
            let tokens = split_text(text.as_str(), ',');
            if contains_wildcard(&tokens) {
                Retrievable {
                    restricted: displayed,
                    registered: AttributeSet::new(),
                    ignored: AttributeSet::new(),
                }
            } else {
                let mut restricted = AttributeSet::new();
                let mut registered = AttributeSet::new();
                let mut ignored = AttributeSet::new();
                let mut i: usize = 0;
                let ghost all = texts(tokens@);
                proof {
                    assert(all.take(0).to_set() =~= Set::<Seq<char>>::empty());
                    assert(chosen(all.take(0), displayed@).restricted =~= restricted@);
                    assert(chosen(all.take(0), displayed@).ignored =~= ignored@);
                }
                while i < tokens.len()
                    invariant
                        i <= tokens@.len(),
                        all == texts(tokens@),
                        restricted@ == chosen(all.take(i as int), displayed@).restricted,
                        registered@ == chosen(all.take(i as int), displayed@).registered,
                        ignored@ == chosen(all.take(i as int), displayed@).ignored,
                    decreases tokens@.len() - i,
                {
                    let token = &tokens[i];
                    if displayed.holds(token) {
                        restricted.insert(token.clone());
                        registered.insert(token.clone());
                    } else {
                        ignored.insert(token.clone());
                    }
                    proof {
                        lemma_take_next(all, i as int);
                        crate::names::lemma_push_to_set(all.take(i as int), all[i as int]);
                        let next = chosen(all.take(i + 1), displayed@);
                        assert(restricted@ =~= next.restricted);
                        assert(registered@ =~= next.registered);
                        assert(ignored@ =~= next.ignored);
                    }
                    i = i + 1;
                }
                assert(all.take(tokens@.len() as int) == all);
                Retrievable { restricted, registered, ignored }
            }
        },
    }
}

/// A wildcard among the tokens lifts every restriction: the outcome is that of
/// a request without the parameter, and the restricted attributes are the
/// displayed ones.
pub proof fn lemma_wildcard_lifts_restriction(text: Seq<char>, displayed: Set<Seq<char>>)
    requires
        split(text, ',').contains(wildcard()),
    ensures
        retrievable(Some(text), displayed) == retrievable(None, displayed),
        retrievable(Some(text), displayed).restricted == displayed,
{
}

/// The restricted attributes are displayed attributes, and the registered ones
/// are restricted ones.
pub proof fn lemma_restricted_are_displayed(
    attributes: Option<Seq<char>>,
    displayed: Set<Seq<char>>,
)
    ensures
        retrievable(attributes, displayed).restricted.subset_of(displayed),
        retrievable(attributes, displayed).registered.subset_of(
            retrievable(attributes, displayed).restricted,
        ),
{
}

} // verus!
