//! Which attributes a search highlights.

use crate::names::AttributeSet;
use crate::text::{is_wildcard, lemma_take_next, optional_text, split, split_text, texts, wildcard};
use vstd::prelude::*;

verus! {

/// The outcome of reading the attributes to highlight.
#[derive(Debug)]
pub struct Highlight {
    /// The attributes to highlight.
    pub attributes: AttributeSet,
    /// The names asked for that the schema does not display. They are left out
    /// and the request goes on.
    pub ignored: AttributeSet,
}

/// The sets of a `Highlight`.
pub struct HighlightView {
    pub attributes: Set<Seq<char>>,
    pub ignored: Set<Seq<char>>,
}

impl View for Highlight {
    type V = HighlightView;

    open spec fn view(&self) -> HighlightView {
        HighlightView { attributes: self.attributes@, ignored: self.ignored@ }
    }
}

/// The sets of an optional `Highlight`.
pub open spec fn optional_highlight(outcome: Option<Highlight>) -> Option<HighlightView> {
    match outcome {
        Some(h) => Some(h@),
        None => None,
    }
}

/// What the tokens ask to highlight. A wildcard among them stands for every
/// restricted attribute; any other token stands for itself where the schema
/// displays it, and is ignored where it does not.
pub open spec fn highlighted(
    tokens: Seq<Seq<char>>,
    displayed: Set<Seq<char>>,
    restricted: Set<Seq<char>>,
) -> HighlightView {
    HighlightView {
        attributes: Set::new(
            |a: Seq<char>|
                (tokens.contains(wildcard()) && restricted.contains(a)) || (a != wildcard()
                    && tokens.contains(a) && displayed.contains(a)),
        ),
        ignored: Set::new(
            |a: Seq<char>| a != wildcard() && tokens.contains(a) && !displayed.contains(a),
        ),
    }
}

/// What the attributes to highlight come to: nothing without the parameter, else
/// what its comma-separated tokens ask for.
pub open spec fn highlight(
    attributes: Option<Seq<char>>,
    displayed: Set<Seq<char>>,
    restricted: Set<Seq<char>>,
) -> Option<HighlightView> {
    match attributes {
        None => None,
        Some(text) => Some(highlighted(split(text, ','), displayed, restricted)),
    }
}

/// Reads the attributes to highlight against the displayed attributes and the
/// restricted ones.
pub fn resolve_highlight(
    attributes_to_highlight: &Option<String>,
    displayed: &AttributeSet,
    restricted: &AttributeSet,
) -> (outcome: Option<Highlight>)
    ensures
        optional_highlight(outcome) == highlight(
            optional_text(*attributes_to_highlight),
            displayed@,
            restricted@,
        ),
{
    match attributes_to_highlight {
        None => None,
        Some(text) => {
            let tokens = split_text(text.as_str(), ',');
            let mut attributes = AttributeSet::new();
            let mut ignored = AttributeSet::new();
            let mut i: usize = 0;
            let ghost all = texts(tokens@);
            proof {
                let first = highlighted(all.take(0), displayed@, restricted@);
                assert(attributes@ =~= first.attributes);
                assert(ignored@ =~= first.ignored);
            }
            while i < tokens.len()
                invariant
                    i <= tokens@.len(),
                    all == texts(tokens@),
                    attributes@ == highlighted(all.take(i as int), displayed@, restricted@).attributes,
                    ignored@ == highlighted(all.take(i as int), displayed@, restricted@).ignored,
                decreases tokens@.len() - i,
            {
                let token = &tokens[i];
                if is_wildcard(token) {
                    attributes.extend(restricted);
                } else if displayed.holds(token) {
                    attributes.insert(token.clone());
                } else {
                    ignored.insert(token.clone());
                }
                proof {
                    lemma_take_next(all, i as int);
                    let next = highlighted(all.take(i + 1), displayed@, restricted@);
                    assert(attributes@ =~= next.attributes);
                    assert(ignored@ =~= next.ignored);
                }
                i = i + 1;
            }
            assert(all.take(tokens@.len() as int) == all);
            Some(Highlight { attributes, ignored })
        },
    }
}

/// A name that the schema does not display is not highlighted, whatever the
/// tokens are, and the attributes to highlight are read all the same.
pub proof fn lemma_unknown_is_not_highlighted(
    text: Seq<char>,
    displayed: Set<Seq<char>>,
    restricted: Set<Seq<char>>,
    name: Seq<char>,
)
    requires
        !displayed.contains(name),
        restricted.subset_of(displayed),
    ensures
        highlight(Some(text), displayed, restricted) is Some,
        !highlight(Some(text), displayed, restricted)->0.attributes.contains(name),
{
}

} // verus!
