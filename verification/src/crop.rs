//! Which attributes a search crops, and to which length.

use crate::names::{lemma_push_to_set, AttributeSet};
use crate::text::{
    head, is_wildcard, lemma_take_next, optional_text, parse_decimal, parse_usize, split,
    split_first, split_text, tail, texts, wildcard,
};
use vstd::prelude::*;

verus! {

/// A crop length for each of a finite set of attribute names.
#[derive(Debug)]
pub struct CropSpec {
    entries: Vec<(String, usize)>,
}

impl View for CropSpec {
    type V = Map<Seq<char>, usize>;

    /// The length of each attribute.
    closed spec fn view(&self) -> Map<Seq<char>, usize> {
        Map::new(
            |name: Seq<char>| exists|i: int| self.at(i, name),
            |name: Seq<char>| self.entries@[choose|i: int| self.at(i, name)].1,
        )
    }
}

impl CropSpec {
    #[verifier::type_invariant]
    closed spec fn distinct(&self) -> bool {
        forall|i: int, j: int|
            0 <= i < j < self.entries@.len() ==> (#[trigger] self.entries@[i]).0@ != (
            #[trigger] self.entries@[j]).0@
    }

    closed spec fn at(&self, i: int, name: Seq<char>) -> bool {
        0 <= i < self.entries@.len() && self.entries@[i].0@ == name
    }

    proof fn lemma_entry(&self, i: int)
        requires
            self.distinct(),
            0 <= i < self.entries@.len(),
        ensures
            self@.contains_key(self.entries@[i].0@),
            self@[self.entries@[i].0@] == self.entries@[i].1,
    {
        let name = self.entries@[i].0@;
        assert(self.at(i, name));
        let j = choose|j: int| self.at(j, name);
        assert(i == j);
    }

    /// No length for any attribute.
    pub fn new() -> (spec: CropSpec)
        ensures
            spec@ == Map::<Seq<char>, usize>::empty(),
    {
        let spec = CropSpec { entries: Vec::new() };
        assert(spec@ =~= Map::<Seq<char>, usize>::empty());
        spec
    }

    fn position(&self, name: &String) -> (at: Option<usize>)
        ensures
            match at {
                Some(i) => self.at(i as int, name@),
                None => forall|i: int| !self.at(i, name@),
            },
    {
        let mut i: usize = 0;
        while i < self.entries.len()
            invariant
                i <= self.entries@.len(),
                forall|j: int| 0 <= j < i ==> !self.at(j, name@),
            decreases self.entries@.len() - i,
        {
            if self.entries[i].0 == *name {
                return Some(i);
            }
            i = i + 1;
        }
        None
    }

    /// The length for `name`, if it has one.
    pub fn get(&self, name: &str) -> (length: Option<usize>)
        ensures
            length == (if self@.contains_key(name@) {
                Some(self@[name@])
            } else {
                None
            }),
    {
        proof {
            use_type_invariant(self);
        }
        let wanted: String = name.to_owned();
        match self.position(&wanted) {
            Some(i) => {
                proof {
                    self.lemma_entry(i as int);
                }
                Some(self.entries[i].1)
            },
            None => None,
        }
    }

    /// The attributes with their lengths, each attribute once.
    pub fn entries(&self) -> (entries: &Vec<(String, usize)>)
        ensures
            forall|i: int|
                0 <= i < entries@.len() ==> self@.contains_pair(
                    (#[trigger] entries@[i]).0@,
                    entries@[i].1,
                ),
            forall|name: Seq<char>| #[trigger]
                self@.contains_key(name) ==> exists|i: int|
                    0 <= i < entries@.len() && (#[trigger] entries@[i]).0@ == name,
            forall|i: int, j: int|
                0 <= i < j < entries@.len() ==> (#[trigger] entries@[i]).0@ != (
                #[trigger] entries@[j]).0@,
    {
        proof {
            use_type_invariant(self);
            assert forall|i: int| 0 <= i < self.entries@.len() implies self@.contains_pair(
                (#[trigger] self.entries@[i]).0@,
                self.entries@[i].1,
            ) by {
                self.lemma_entry(i);
            }
            assert forall|name: Seq<char>| #[trigger] self@.contains_key(name) implies exists|i: int|
                0 <= i < self.entries@.len() && (#[trigger] self.entries@[i]).0@ == name by {
                let i = choose|i: int| self.at(i, name);
                assert(self.entries@[i].0@ == name);
            }
        }
        &self.entries
    }

    /// Sets the length for `name`, in place of any that it had.
    pub fn insert(&mut self, name: String, length: usize)
        ensures
            final(self)@ == old(self)@.insert(name@, length),
    {
        proof {
            use_type_invariant(&*self);
        }
        let ghost before = *self;
        let found = self.position(&name);
        let mut entries: Vec<(String, usize)> = Vec::new();
        core::mem::swap(&mut self.entries, &mut entries);
        match found {
            Some(i) => {
                entries.set(i, (name, length));
                assert(entries@ == before.entries@.update(i as int, (name, length)));
            },
            None => {
                entries.push((name, length));
                assert(entries@ == before.entries@.push((name, length)));
            },
        }
        proof {
            assert(forall|i: int| 0 <= i < before.entries@.len() ==> (#[trigger] entries@[i]).0@
                == before.entries@[i].0@);
            assert forall|i: int, j: int| 0 <= i < j < entries@.len() implies (
            #[trigger] entries@[i]).0@ != (#[trigger] entries@[j]).0@ by {
                if j >= before.entries@.len() {
                    assert(!before.at(i, name@));
                } else {
                    assert(before.entries@[i].0@ != before.entries@[j].0@);
                }
            }
        }
        core::mem::swap(&mut self.entries, &mut entries);
        proof {
            let target = before@.insert(name@, length);
            let n = before.entries@.len() as int;
            let k = match found {
                Some(i) => i as int,
                None => n,
            };
            assert(self.at(k, name@));
            self.lemma_entry(k);
            assert forall|x: Seq<char>| self@.contains_key(x) <==> target.contains_key(x) by {
                if self@.contains_key(x) {
                    let i = choose|i: int| self.at(i, x);
                    if x != name@ {
                        assert(before.at(i, x));
                    }
                }
                if x != name@ && before@.contains_key(x) {
                    let i = choose|i: int| before.at(i, x);
                    assert(self.at(i, x));
                }
            }
            assert forall|x: Seq<char>| self@.contains_key(x) implies self@[x] == target[x] by {
                let i = choose|i: int| self.at(i, x);
                self.lemma_entry(i);
                if x != name@ {
                    assert(before.at(i, x));
                    before.lemma_entry(i);
                }
            }
            assert(self@ =~= target);
        }
    }

    /// Sets the length for every one of `names`.
    pub fn insert_all(&mut self, names: &AttributeSet, length: usize)
        ensures
            final(self)@ == old(self)@.union_prefer_right(every(names@, length)),
    {
        let list = names.names();
        let mut i: usize = 0;
        let ghost all = texts(list@);
        assert(self@ =~= old(self)@.union_prefer_right(every(all.take(0).to_set(), length)));
        while i < list.len()
            invariant
                i <= list@.len(),
                all == texts(list@),
                all.to_set() == names@,
                self@ == old(self)@.union_prefer_right(every(all.take(i as int).to_set(), length)),
            decreases list@.len() - i,
        {
            self.insert(list[i].clone(), length);
            proof {
                lemma_take_next(all, i as int);
                lemma_push_to_set(all.take(i as int), all[i as int]);
                assert(self@ =~= old(self)@.union_prefer_right(
                    every(all.take(i + 1).to_set(), length),
                ));
            }
            i = i + 1;
        }
        assert(all.take(list@.len() as int) == all);
    }
}

/// The same length for every one of `names`.
pub open spec fn every(names: Set<Seq<char>>, length: usize) -> Map<Seq<char>, usize> {
    Map::new(|name: Seq<char>| names.contains(name), |name: Seq<char>| length)
}

/// The attribute that a token names: what stands before its first colon.
pub open spec fn token_name(token: Seq<char>) -> Seq<char> {
    head(token, ':')
}

/// The length that a token asks for: what follows its first colon, read as a
/// decimal number. Without a colon, and where what follows it is no such
/// number, it is `default`.
pub open spec fn token_length(token: Seq<char>, default: usize) -> usize {
    match tail(token, ':') {
        Some(rest) => match parse_usize(rest) {
            Some(length) => length,
            None => default,
        },
        None => default,
    }
}

/// The names of a sequence of tokens.
pub open spec fn token_names(tokens: Seq<Seq<char>>) -> Seq<Seq<char>> {
    Seq::new(tokens.len(), |i: int| token_name(tokens[i]))
}

/// The lengths after one more token. A wildcard gives the token's length to
/// every restricted attribute, a displayed name to that attribute; a token with
/// an empty name and one that names no displayed attribute change nothing.
pub open spec fn crop_step(
    lengths: Map<Seq<char>, usize>,
    token: Seq<char>,
    default: usize,
    displayed: Set<Seq<char>>,
    restricted: Set<Seq<char>>,
) -> Map<Seq<char>, usize> {
    let name = token_name(token);
    let length = token_length(token, default);
    if name == wildcard() {
        lengths.union_prefer_right(every(restricted, length))
    } else if name.len() > 0 && displayed.contains(name) {
        lengths.insert(name, length)
    } else {
        lengths
    }
}

/// The lengths that the tokens ask for, read from left to right: a later token
/// replaces what an earlier one gave to the same attribute.
pub open spec fn cropped(
    tokens: Seq<Seq<char>>,
    default: usize,
    displayed: Set<Seq<char>>,
    restricted: Set<Seq<char>>,
) -> Map<Seq<char>, usize>
    decreases tokens.len(),
{
    if tokens.len() == 0 {
        Map::empty()
    } else {
        crop_step(
            cropped(tokens.drop_last(), default, displayed, restricted),
            tokens.last(),
            default,
            displayed,
            restricted,
        )
    }
}

/// The names that the tokens give and the schema does not display. The wildcard
/// and the empty name are not among them.
pub open spec fn uncropped(tokens: Seq<Seq<char>>, displayed: Set<Seq<char>>) -> Set<Seq<char>> {
    Set::new(
        |a: Seq<char>|
            a.len() > 0 && a != wildcard() && token_names(tokens).contains(a)
                && !displayed.contains(a),
    )
}

/// The outcome of reading the attributes to crop.
#[derive(Debug)]
pub struct Crop {
    /// The length of each attribute to crop.
    pub lengths: CropSpec,
    /// The names asked for that the schema does not display. They are left out
    /// and the request goes on.
    pub ignored: AttributeSet,
}

/// The lengths and the set of a `Crop`.
pub struct CropView {
    pub lengths: Map<Seq<char>, usize>,
    pub ignored: Set<Seq<char>>,
}

impl View for Crop {
    type V = CropView;

    open spec fn view(&self) -> CropView {
        CropView { lengths: self.lengths@, ignored: self.ignored@ }
    }
}

/// The lengths and the set of an optional `Crop`.
pub open spec fn optional_crop(outcome: Option<Crop>) -> Option<CropView> {
    match outcome {
        Some(c) => Some(c@),
        None => None,
    }
}

/// The length that applies where a token gives none and the request sets no
/// other.
pub const DEFAULT_CROP_LENGTH: usize = 200;

/// The length of tokens that give none: the one that the request sets, else
/// `DEFAULT_CROP_LENGTH`.
pub open spec fn default_length(crop_length: Option<usize>) -> usize {
    match crop_length {
        Some(length) => length,
        None => DEFAULT_CROP_LENGTH,
    }
}

/// What the attributes to crop come to: nothing without the parameter, else what
/// its comma-separated tokens ask for.
pub open spec fn crop(
    attributes: Option<Seq<char>>,
    crop_length: Option<usize>,
    displayed: Set<Seq<char>>,
    restricted: Set<Seq<char>>,
) -> Option<CropView> {
    match attributes {
        None => None,
        Some(text) => {
            let tokens = split(text, ',');
            Some(
                CropView {
                    lengths: cropped(tokens, default_length(crop_length), displayed, restricted),
                    ignored: uncropped(tokens, displayed),
                },
            )
        },
    }
}

/// Reads the attributes to crop against the displayed attributes and the
/// restricted ones.
pub fn resolve_crop(
    attributes_to_crop: &Option<String>,
    crop_length: Option<usize>,
    displayed: &AttributeSet,
    restricted: &AttributeSet,
) -> (outcome: Option<Crop>)
    ensures
        optional_crop(outcome) == crop(
            optional_text(*attributes_to_crop),
            crop_length,
            displayed@,
            restricted@,
        ),
{
    match attributes_to_crop {
        None => None,
        Some(text) => {
            let default: usize = match crop_length {
                Some(length) => length,
                None => DEFAULT_CROP_LENGTH,
            };
            let tokens = split_text(text.as_str(), ',');
            let mut lengths = CropSpec::new();
            let mut ignored = AttributeSet::new();
            let mut i: usize = 0;
            let ghost all = texts(tokens@);
            proof {
                assert(token_names(all.take(0)) =~= Seq::<Seq<char>>::empty());
                assert(ignored@ =~= uncropped(all.take(0), displayed@));
            }
            while i < tokens.len()
                invariant
                    i <= tokens@.len(),
                    all == texts(tokens@),
                    default == default_length(crop_length),
                    lengths@ == cropped(all.take(i as int), default, displayed@, restricted@),
                    ignored@ == uncropped(all.take(i as int), displayed@),
                decreases tokens@.len() - i,
            {
                let (name, rest) = split_first(tokens[i].as_str(), ':');
                let length: usize = match rest {
                    Some(digits) => match parse_decimal(digits.as_str()) {
                        Some(length) => length,
                        None => default,
                    },
                    None => default,
                };
                assert(name@ == token_name(all[i as int]));
                assert(length == token_length(all[i as int], default));
                if is_wildcard(&name) {
                    lengths.insert_all(restricted, length);
                } else if name.as_str().unicode_len() > 0 {
                    if displayed.holds(&name) {
                        lengths.insert(name, length);
                    } else {
                        ignored.insert(name);
                    }
                }
                proof {
                    assert(all.take(i + 1).drop_last() == all.take(i as int));
                    assert(all.take(i + 1).last() == all[i as int]);
                    let names = token_names(all);
                    assert(token_names(all.take(i + 1)) == names.take(i + 1));
                    assert(token_names(all.take(i as int)) == names.take(i as int));
                    lemma_take_next(names, i as int);
                    assert(ignored@ =~= uncropped(all.take(i + 1), displayed@));
                }
                i = i + 1;
            }
            assert(all.take(tokens@.len() as int) == all);
            Some(Crop { lengths, ignored })
        },
    }
}

/// A name that the schema does not display gets no length, whatever the tokens
/// are.
pub proof fn lemma_unknown_is_not_cropped(
    tokens: Seq<Seq<char>>,
    default: usize,
    displayed: Set<Seq<char>>,
    restricted: Set<Seq<char>>,
    name: Seq<char>,
)
    requires
        !displayed.contains(name),
        restricted.subset_of(displayed),
    ensures
        !cropped(tokens, default, displayed, restricted).contains_key(name),
    decreases tokens.len(),
{
    if tokens.len() > 0 {
        lemma_unknown_is_not_cropped(tokens.drop_last(), default, displayed, restricted, name);
    }
}

/// The token read last decides: an attribute that it names has its length.
pub proof fn lemma_last_token_wins(
    tokens: Seq<Seq<char>>,
    default: usize,
    displayed: Set<Seq<char>>,
    restricted: Set<Seq<char>>,
    name: Seq<char>,
)
    requires
        tokens.len() > 0,
        token_name(tokens.last()) == wildcard() && restricted.contains(name) || token_name(
            tokens.last(),
        ) == name && name != wildcard() && name.len() > 0 && displayed.contains(name),
    ensures
        cropped(tokens, default, displayed, restricted).contains_key(name),
        cropped(tokens, default, displayed, restricted)[name] == token_length(
            tokens.last(),
            default,
        ),
{
}

} // verus!
