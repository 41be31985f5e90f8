//! Sets of attribute names.

use crate::text::texts;
use vstd::prelude::*;

verus! {

/// A finite set of attribute names, held without repetition.
#[derive(Debug)]
pub struct AttributeSet {
    names: Vec<String>,
}

impl View for AttributeSet {
    type V = Set<Seq<char>>;

    /// The names of the set.
    open spec fn view(&self) -> Set<Seq<char>> {
        self.order().to_set()
    }
}

impl AttributeSet {
    #[verifier::type_invariant]
    closed spec fn distinct(&self) -> bool {
        texts(self.names@).no_duplicates()
    }

    /// The names in the order in which they are held.
    pub closed spec fn order(&self) -> Seq<Seq<char>> {
        texts(self.names@)
    }

    /// The empty set.
    pub fn new() -> (set: AttributeSet)
        ensures
            set@ == Set::<Seq<char>>::empty(),
    {
        let set = AttributeSet { names: Vec::new() };
        assert(set.order().to_set() =~= Set::<Seq<char>>::empty());
        set
    }

    /// The names of the set, each once.
    pub fn names(&self) -> (names: &Vec<String>)
        ensures
            texts(names@) == self.order(),
            texts(names@).no_duplicates(),
            texts(names@).to_set() == self@,
    {
        proof {
            use_type_invariant(self);
        }
        &self.names
    }

    /// The number of names.
    pub fn len(&self) -> (n: usize)
        ensures
            n == self@.len(),
            self@.finite(),
    {
        proof {
            use_type_invariant(self);
            self.order().unique_seq_to_set();
        }
        self.names.len()
    }

    /// Whether the set holds no name.
    pub fn is_empty(&self) -> (empty: bool)
        ensures
            empty == (self@ == Set::<Seq<char>>::empty()),
    {
        proof {
            if self.names@.len() > 0 {
                assert(self.order()[0] == self.names@[0]@);
                assert(self@.contains(self.order()[0]));
            } else {
                assert(self@ =~= Set::<Seq<char>>::empty());
            }
        }
        self.names.len() == 0
    }

    /// Whether `name` is in the set.
    pub fn holds(&self, name: &String) -> (found: bool)
        ensures
            found == self@.contains(name@),
    {
        let mut i: usize = 0;
        while i < self.names.len()
            invariant
                i <= self.names@.len(),
                forall|j: int| 0 <= j < i ==> self.order()[j] != name@,
            decreases self.names@.len() - i,
        {
            if self.names[i] == *name {
                assert(self.order()[i as int] == name@);
                return true;
            }
            i = i + 1;
        }
        false
    }

    /// Whether `name` is in the set.
    pub fn contains(&self, name: &str) -> (found: bool)
        ensures
            found == self@.contains(name@),
    {
        let wanted: String = name.to_owned();
        self.holds(&wanted)
    }

    /// Adds `name` to the set. Returns whether the set did not hold it before.
    pub fn insert(&mut self, name: String) -> (fresh: bool)
        ensures
            final(self)@ == old(self)@.insert(name@),
            fresh == !old(self)@.contains(name@),
    {
        proof {
            use_type_invariant(&*self);
        }
        if self.holds(&name) {
            assert(self@.insert(name@) =~= self@);
            false
        } else {
            let ghost before = self.order();
            let mut names: Vec<String> = Vec::new();
            core::mem::swap(&mut self.names, &mut names);
            names.push(name);
            proof {
                assert(texts(names@) == before.push(name@));
                assert(!before.contains(name@));
                lemma_push_to_set(before, name@);
            }
            core::mem::swap(&mut self.names, &mut names);
            true
        }
    }

    /// Adds every name of `other` to the set.
    pub fn extend(&mut self, other: &AttributeSet)
        ensures
            final(self)@ == old(self)@.union(other@),
    {
        let names = other.names();
        let mut i: usize = 0;
        assert(self@ =~= old(self)@.union(texts(names@).take(0).to_set()));
        while i < names.len()
            invariant
                i <= names@.len(),
                texts(names@).to_set() == other@,
                self@ == old(self)@.union(texts(names@).take(i as int).to_set()),
            decreases names@.len() - i,
        {
            self.insert(names[i].clone());
            proof {
                let s = texts(names@);
                assert(s.take(i + 1) == s.take(i as int).push(s[i as int]));
                lemma_push_to_set(s.take(i as int), s[i as int]);
                assert(self@ =~= old(self)@.union(s.take(i + 1).to_set()));
            }
            i = i + 1;
        }
        assert(texts(names@).take(names@.len() as int) == texts(names@));
    }

    /// A copy of the set.
    pub fn duplicate(&self) -> (copy: AttributeSet)
        ensures
            copy@ == self@,
    {
        let mut copy = AttributeSet::new();
        let mut i: usize = 0;
        while i < self.names.len()
            invariant
                i <= self.names@.len(),
                copy@ == self.order().take(i as int).to_set(),
            decreases self.names@.len() - i,
        {
            let name = self.names[i].clone();
            copy.insert(name);
            proof {
                let s = self.order();
                assert(s.take(i + 1) == s.take(i as int).push(s[i as int]));
                lemma_push_to_set(s.take(i as int), s[i as int]);
            }
            i = i + 1;
        }
        assert(self.order().take(self.names@.len() as int) == self.order());
        copy
    }
}

/// The set of a sequence with one more element is the set of the sequence with
/// that element added.
pub(crate) proof fn lemma_push_to_set<A>(s: Seq<A>, a: A)
    ensures
        s.push(a).to_set() == s.to_set().insert(a),
{
    assert forall|x: A| s.push(a).contains(x) implies s.contains(x) || x == a by {
        let k = choose|k: int| 0 <= k < s.len() + 1 && s.push(a)[k] == x;
        if k < s.len() {
            assert(s[k] == x);
        }
    }
    assert forall|x: A| s.contains(x) implies s.push(a).contains(x) by {
        let k = choose|k: int| 0 <= k < s.len() && s[k] == x;
        assert(s.push(a)[k] == x);
    }
    assert(s.push(a)[s.len() as int] == a);
    assert(s.push(a).to_set() =~= s.to_set().insert(a));
}

} // verus!
