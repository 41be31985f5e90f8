//! The schema of an index, as far as a search request reads it: which
//! attributes exist, under which identifier, and which of them may be displayed.

use crate::names::lemma_push_to_set;
use crate::names::AttributeSet;
use vstd::prelude::*;

verus! {

/// Identifier of an attribute of a schema.
#[derive(Clone, Copy, Debug, PartialEq, Eq, Structural, Hash)]
pub struct FieldId(pub u16);

/// What a schema says: the identifier of each attribute name, the name of each
/// identifier, and the names that may be displayed.
pub struct SchemaView {
    pub ids: Map<Seq<char>, FieldId>,
    pub names: Map<FieldId, Seq<char>>,
    pub displayed: Set<Seq<char>>,
}

impl SchemaView {
    /// `ids` and `names` are inverses of each other, and every displayed name is
    /// the name of an attribute.
    pub open spec fn wf(self) -> bool {
        &&& forall|name: Seq<char>| #[trigger]
            self.ids.contains_key(name) ==> self.names.contains_key(self.ids[name])
                && self.names[self.ids[name]] == name
        &&& forall|id: FieldId| #[trigger]
            self.names.contains_key(id) ==> self.ids.contains_key(self.names[id])
                && self.ids[self.names[id]] == id
        &&& self.displayed.subset_of(self.ids.dom())
    }

    /// The identifier of the attribute called `name`, if there is one.
    pub open spec fn id_of(self, name: Seq<char>) -> Option<FieldId> {
        if self.ids.contains_key(name) {
            Some(self.ids[name])
        } else {
            None
        }
    }

    /// The name of the attribute with identifier `id`, if there is one.
    pub open spec fn name_of(self, id: FieldId) -> Option<Seq<char>> {
        if self.names.contains_key(id) {
            Some(self.names[id])
        } else {
            None
        }
    }

    /// The schema with one more attribute.
    pub open spec fn with(self, id: FieldId, name: Seq<char>, displayed: bool) -> SchemaView {
        SchemaView {
            ids: self.ids.insert(name, id),
            names: self.names.insert(id, name),
            displayed: if displayed {
                self.displayed.insert(name)
            } else {
                self.displayed
            },
        }
    }
}

#[derive(Debug)]
struct Field {
    id: FieldId,
    name: String,
    displayed: bool,
}

/// The attributes of an index. No two of them share a name or an identifier.
#[derive(Debug)]
pub struct Schema {
    fields: Vec<Field>,
}

impl View for Schema {
    type V = SchemaView;

    closed spec fn view(&self) -> SchemaView {
        SchemaView {
            ids: Map::new(
                |name: Seq<char>| exists|i: int| self.named(i, name),
                |name: Seq<char>| self.fields@[choose|i: int| self.named(i, name)].id,
            ),
            names: Map::new(
                |id: FieldId| exists|i: int| self.numbered(i, id),
                |id: FieldId| self.fields@[choose|i: int| self.numbered(i, id)].name@,
            ),
            displayed: Set::new(
                |name: Seq<char>|
                    exists|i: int| #[trigger] self.named(i, name) && self.fields@[i].displayed,
            ),
        }
    }
}

impl Schema {
    #[verifier::type_invariant]
    closed spec fn distinct(&self) -> bool {
        forall|i: int, j: int|
            0 <= i < j < self.fields@.len() ==> (#[trigger] self.fields@[i]).name@ != (
            #[trigger] self.fields@[j]).name@ && self.fields@[i].id != self.fields@[j].id
    }

    closed spec fn named(&self, i: int, name: Seq<char>) -> bool {
        0 <= i < self.fields@.len() && self.fields@[i].name@ == name
    }

    closed spec fn numbered(&self, i: int, id: FieldId) -> bool {
        0 <= i < self.fields@.len() && self.fields@[i].id == id
    }

    proof fn lemma_wf(&self)
        requires
            self.distinct(),
        ensures
            self@.wf(),
    {
        let v = self@;
        assert forall|name: Seq<char>| #[trigger] v.ids.contains_key(name) implies v.names.contains_key(
            v.ids[name],
        ) && v.names[v.ids[name]] == name by {
            let i = choose|i: int| self.named(i, name);
            let id = self.fields@[i].id;
            assert(self.numbered(i, id));
            let j = choose|j: int| self.numbered(j, id);
            assert(i == j);
        }
        assert forall|id: FieldId| #[trigger] v.names.contains_key(id) implies v.ids.contains_key(
            v.names[id],
        ) && v.ids[v.names[id]] == id by {
            let i = choose|i: int| self.numbered(i, id);
            let name = self.fields@[i].name@;
            assert(self.named(i, name));
            let j = choose|j: int| self.named(j, name);
            assert(i == j);
        }
    }

    proof fn lemma_lookup(&self, i: int)
        requires
            self.distinct(),
            0 <= i < self.fields@.len(),
        ensures
            self@.id_of(self.fields@[i].name@) == Some(self.fields@[i].id),
            self@.name_of(self.fields@[i].id) == Some(self.fields@[i].name@),
            self.fields@[i].displayed == self@.displayed.contains(self.fields@[i].name@),
    {
        let name = self.fields@[i].name@;
        let id = self.fields@[i].id;
        assert(self.named(i, name));
        assert(self.numbered(i, id));
        let j = choose|j: int| self.named(j, name);
        assert(i == j);
        let k = choose|k: int| self.numbered(k, id);
        assert(i == k);
        if self@.displayed.contains(name) {
            let d = choose|d: int| #[trigger] self.named(d, name) && self.fields@[d].displayed;
            assert(d == i);
        }
    }

    /// A schema without attributes.
    pub fn new() -> (schema: Schema)
        ensures
            schema@.ids == Map::<Seq<char>, FieldId>::empty(),
            schema@.names == Map::<FieldId, Seq<char>>::empty(),
            schema@.displayed == Set::<Seq<char>>::empty(),
            schema@.wf(),
    {
        let schema = Schema { fields: Vec::new() };
        proof {
            assert(schema@.ids =~= Map::<Seq<char>, FieldId>::empty());
            assert(schema@.names =~= Map::<FieldId, Seq<char>>::empty());
            assert(schema@.displayed =~= Set::<Seq<char>>::empty());
        }
        schema
    }

    fn position_of_name(&self, name: &String) -> (at: Option<usize>)
        ensures
            match at {
                Some(i) => self.named(i as int, name@),
                None => forall|i: int| !self.named(i, name@),
            },
    {
        let mut i: usize = 0;
        while i < self.fields.len()
            invariant
                i <= self.fields@.len(),
                forall|j: int| 0 <= j < i ==> !self.named(j, name@),
            decreases self.fields@.len() - i,
        {
            if self.fields[i].name == *name {
                return Some(i);
            }
            i = i + 1;
        }
        None
    }

    fn position_of_id(&self, id: FieldId) -> (at: Option<usize>)
        ensures
            match at {
                Some(i) => self.numbered(i as int, id),
                None => forall|i: int| !self.numbered(i, id),
            },
    {
        let mut i: usize = 0;
        while i < self.fields.len()
            invariant
                i <= self.fields@.len(),
                forall|j: int| 0 <= j < i ==> !self.numbered(j, id),
            decreases self.fields@.len() - i,
        {
            if self.fields[i].id == id {
                return Some(i);
            }
            i = i + 1;
        }
        None
    }

    /// The identifier of the attribute called `name`.
    pub fn id(&self, name: &str) -> (id: Option<FieldId>)
        ensures
            id == self@.id_of(name@),
            self@.wf(),
    {
        proof {
            use_type_invariant(self);
            self.lemma_wf();
        }
        let wanted: String = name.to_owned();
        match self.position_of_name(&wanted) {
            Some(i) => {
                proof {
                    self.lemma_lookup(i as int);
                }
                Some(self.fields[i].id)
            },
            None => None,
        }
    }

    /// The name of the attribute with identifier `id`.
    pub fn name(&self, id: FieldId) -> (name: Option<&str>)
        ensures
            match name {
                Some(n) => self@.name_of(id) == Some(n@),
                None => self@.name_of(id) is None,
            },
            self@.wf(),
    {
        proof {
            use_type_invariant(self);
            self.lemma_wf();
        }
        match self.position_of_id(id) {
            Some(i) => {
                proof {
                    self.lemma_lookup(i as int);
                }
                Some(self.fields[i].name.as_str())
            },
            None => None,
        }
    }

    /// The names of the attributes that may be displayed.
    pub fn displayed_name(&self) -> (displayed: AttributeSet)
        ensures
            displayed@ == self@.displayed,
            self@.wf(),
    {
        proof {
            use_type_invariant(self);
            self.lemma_wf();
        }
        let mut displayed = AttributeSet::new();
        let mut i: usize = 0;
        while i < self.fields.len()
            invariant
                i <= self.fields@.len(),
                self.distinct(),
                forall|name: Seq<char>|
                    displayed@.contains(name) <==> exists|j: int|
                        0 <= j < i && #[trigger] self.named(j, name) && self.fields@[j].displayed,
            decreases self.fields@.len() - i,
        {
            if self.fields[i].displayed {
                let ghost before = displayed@;
                displayed.insert(self.fields[i].name.clone());
                proof {
                    let added = self.fields@[i as int].name@;
                    assert(self.named(i as int, added));
                    assert forall|name: Seq<char>| displayed@.contains(name) implies exists|j: int|
                        0 <= j < i + 1 && #[trigger] self.named(j, name)
                            && self.fields@[j].displayed by {
                        if name == added {
                            assert(self.named(i as int, name));
                        } else {
                            assert(before.contains(name));
                        }
                    }
                }
            }
            i = i + 1;
        }
        assert(displayed@ =~= self@.displayed);
        displayed
    }

    /// Adds an attribute, unless the schema already has one of that name or of
    /// that identifier. Returns whether it was added.
    pub fn insert(&mut self, id: FieldId, name: &str, displayed: bool) -> (added: bool)
        ensures
            added == (old(self)@.id_of(name@) is None && old(self)@.name_of(id) is None),
            added ==> final(self)@ == old(self)@.with(id, name@, displayed),
            !added ==> final(self)@ == old(self)@,
            final(self)@.wf(),
    {
        proof {
            use_type_invariant(&*self);
            self.lemma_wf();
        }
        let owned: String = name.to_owned();
        let by_name = self.position_of_name(&owned);
        let by_id = self.position_of_id(id);
        if by_name.is_some() || by_id.is_some() {
            proof {
                if by_name is Some {
                    self.lemma_lookup(by_name.unwrap() as int);
                }
                if by_id is Some {
                    self.lemma_lookup(by_id.unwrap() as int);
                }
            }
            return false;
        }
        let ghost before = *self;
        let mut fields: Vec<Field> = Vec::new();
        core::mem::swap(&mut self.fields, &mut fields);
        fields.push(Field { id, name: owned, displayed });
        proof {
            let n = before.fields@.len() as int;
            assert forall|i: int, j: int| 0 <= i < j < fields@.len() implies (
            #[trigger] fields@[i]).name@ != (#[trigger] fields@[j]).name@ && fields@[i].id
                != fields@[j].id by {
                if j == n {
                    assert(!before.named(i, name@));
                    assert(!before.numbered(i, id));
                } else {
                    assert(fields@[i] == before.fields@[i]);
                    assert(fields@[j] == before.fields@[j]);
                }
            }
        }
        core::mem::swap(&mut self.fields, &mut fields);
        proof {
            let n = before.fields@.len() as int;
            assert(self.fields@ == before.fields@.push(self.fields@[n]));
            assert(forall|i: int, x: Seq<char>| before.named(i, x) ==> self.named(i, x));
            assert(forall|i: int, x: FieldId| before.numbered(i, x) ==> self.numbered(i, x));
            assert(forall|i: int, x: Seq<char>| self.named(i, x) ==> before.named(i, x) || i == n);
            assert(forall|i: int, x: FieldId| self.numbered(i, x) ==> before.numbered(i, x) || i == n);
            self.lemma_wf();
            let target = before@.with(id, name@, displayed);
            assert forall|x: Seq<char>| self@.ids.contains_key(x) <==> target.ids.contains_key(x) by {
                if self@.ids.contains_key(x) {
                    let i = choose|i: int| self.named(i, x);
                    if i < n {
                        assert(before.named(i, x));
                    }
                }
                if target.ids.contains_key(x) {
                    if x == name@ {
                        assert(self.named(n, x));
                    } else {
                        let i = choose|i: int| before.named(i, x);
                        assert(self.named(i, x));
                    }
                }
            }
            assert forall|x: Seq<char>| self@.ids.contains_key(x) implies self@.ids[x] == target.ids[x] by {
                let i = choose|i: int| self.named(i, x);
                self.lemma_lookup(i);
                if i < n {
                    before.lemma_lookup(i);
                }
            }
            assert(self@.ids =~= target.ids);
            assert forall|x: FieldId| self@.names.contains_key(x) <==> target.names.contains_key(x) by {
                if self@.names.contains_key(x) {
                    let i = choose|i: int| self.numbered(i, x);
                    if i < n {
                        assert(before.numbered(i, x));
                    }
                }
                if target.names.contains_key(x) {
                    if x == id {
                        assert(self.numbered(n, x));
                    } else {
                        let i = choose|i: int| before.numbered(i, x);
                        assert(self.numbered(i, x));
                    }
                }
            }
            assert forall|x: FieldId| self@.names.contains_key(x) implies self@.names[x] == target.names[x] by {
                let i = choose|i: int| self.numbered(i, x);
                self.lemma_lookup(i);
                if i < n {
                    before.lemma_lookup(i);
                }
            }
            assert(self@.names =~= target.names);
            assert forall|x: Seq<char>| self@.displayed.contains(x) <==> target.displayed.contains(x) by {
                if self@.displayed.contains(x) {
                    let i = choose|i: int| #[trigger] self.named(i, x) && self.fields@[i].displayed;
                    if i < n {
                        assert(before.named(i, x));
                    }
                }
                if before@.displayed.contains(x) {
                    let i = choose|i: int| #[trigger] before.named(i, x) && before.fields@[i].displayed;
                    assert(self.named(i, x));
                }
                if displayed && x == name@ {
                    assert(self.named(n, x));
                }
            }
            assert(self@.displayed =~= target.displayed);
        }
        true
    }
}

} // verus!
