//! The properties of a schema: an insertion-ordered mapping from column
//! names to field definitions.

use vstd::prelude::*;
use crate::field::{FieldDefinition, FieldView};

verus! {

/// One entry of the properties mapping.
#[derive(Clone, Debug)]
pub struct Property {
    pub name: String,
    pub definition: FieldDefinition,
}

/// The mathematical value of a [`Property`].
pub struct PropertyView {
    pub name: Seq<char>,
    pub definition: FieldView,
}

impl View for Property {
    type V = PropertyView;

    open spec fn view(&self) -> PropertyView {
        PropertyView { name: self.name@, definition: self.definition@ }
    }
}

/// Whether some entry has the name.
pub open spec fn has_name(entries: Seq<PropertyView>, name: Seq<char>) -> bool {
    exists|i: int| 0 <= i < entries.len() && (#[trigger] entries[i]).name == name
}

/// The position of an entry with the name, where there is one.
pub open spec fn index_of(entries: Seq<PropertyView>, name: Seq<char>) -> int {
    choose|i: int| 0 <= i < entries.len() && (#[trigger] entries[i]).name == name
}

/// Whether no two entries share a name.
pub open spec fn distinct_names(entries: Seq<PropertyView>) -> bool {
    forall|i: int, j: int|
        0 <= i < j < entries.len() ==> (#[trigger] entries[i]).name != (#[trigger] entries[j]).name
}

/// The entries after a definition is bound to a name: an entry of that name
/// keeps its place and takes the definition, a new name goes to the end.
pub open spec fn put(entries: Seq<PropertyView>, name: Seq<char>, definition: FieldView) -> Seq<PropertyView> {
    let entry = PropertyView { name, definition };
    if has_name(entries, name) {
        entries.update(index_of(entries, name), entry)
    } else {
        entries.push(entry)
    }
}

/// The names of the entries, in order.
pub open spec fn names(entries: Seq<PropertyView>) -> Seq<Seq<char>> {
    Seq::new(entries.len(), |i: int| entries[i].name)
}

/// Binding a definition keeps the names distinct.
pub proof fn lemma_put_distinct(entries: Seq<PropertyView>, name: Seq<char>, definition: FieldView)
    requires
        distinct_names(entries),
    ensures
        distinct_names(put(entries, name, definition)),
        has_name(put(entries, name, definition), name),
        put(entries, name, definition).len() == entries.len() + (if has_name(entries, name) { 0int } else { 1int }),
{
    let after = put(entries, name, definition);
    if has_name(entries, name) {
        let k = index_of(entries, name);
        assert(after[k].name == name);
        assert forall|i: int, j: int| 0 <= i < j < after.len() implies (#[trigger] after[i]).name != (#[trigger] after[j]).name by {
            assert(entries[i].name != entries[j].name);
            assert(after[i].name == entries[i].name);
            assert(after[j].name == entries[j].name);
        }
    } else {
        assert(after[entries.len() as int].name == name);
        assert forall|i: int, j: int| 0 <= i < j < after.len() implies (#[trigger] after[i]).name != (#[trigger] after[j]).name by {
            if j < entries.len() {
                assert(entries[i].name != entries[j].name);
            } else {
                assert(after[i] == entries[i]);
            }
        }
    }
}

/// The properties mapping of a schema.
#[derive(Clone, Debug)]
pub struct PropertyMap {
    pub entries: Vec<Property>,
}

impl View for PropertyMap {
    type V = Seq<PropertyView>;

    open spec fn view(&self) -> Seq<PropertyView> {
        Seq::new(self.entries@.len(), |i: int| self.entries@[i]@)
    }
}

impl PropertyMap {
    /// A mapping is well formed when no two entries share a name.
    pub open spec fn wf(&self) -> bool {
        distinct_names(self@)
    }

    /// The empty mapping.
    pub fn new() -> (r: PropertyMap)
        ensures
            r@ == Seq::<PropertyView>::empty(),
            r.wf(),
    {
        PropertyMap { entries: Vec::new() }
    }

    /// The number of entries.
    pub fn len(&self) -> (r: usize)
        ensures
            r == self@.len(),
    {
        self.entries.len()
    }

    /// Whether the mapping is well formed.
    pub fn is_well_formed(&self) -> (r: bool)
        ensures
            r == self.wf(),
    {
        let mut j: usize = 0;
        while j < self.entries.len()
            invariant
                j <= self.entries.len(),
                forall|a: int, b: int| 0 <= a < b < j ==> (#[trigger] self@[a]).name != (#[trigger] self@[b]).name,
            decreases self.entries.len() - j,
        {
            let mut i: usize = 0;
            while i < j
                invariant
                    i <= j,
                    j < self.entries.len(),
                    forall|a: int| 0 <= a < i ==> (#[trigger] self@[a]).name != self@[j as int].name,
                decreases j - i,
            {
                if crate::text::same_text(self.entries[i].name.as_str(), self.entries[j].name.as_str()) {
                    assert(self@[i as int].name == self@[j as int].name);
                    return false;
                }
                i += 1;
            }
            j += 1;
        }
        true
    }

    /// The position of the entry with the name, if there is one.
    pub fn position(&self, name: &str) -> (r: Option<usize>)
        ensures
            r is Some <==> has_name(self@, name@),
            r matches Some(i) ==> i < self@.len() && self@[i as int].name == name@,
            self.wf() && r is Some ==> r->0 == index_of(self@, name@),
    {
        let mut i: usize = 0;
        while i < self.entries.len()
            invariant
                i <= self.entries.len(),
                forall|j: int| 0 <= j < i ==> (#[trigger] self@[j]).name != name@,
            decreases self.entries.len() - i,
        {
            if crate::text::same_text(self.entries[i].name.as_str(), name) {
                assert(self@[i as int].name == name@);
                proof {
                    if self.wf() {
                        let k = index_of(self@, name@);
                        if k != i {
                            assert(self@[k].name == self@[i as int].name);
                        }
                    }
                }
                return Some(i);
            }
            i += 1;
        }
        None
    }

    /// The definition bound to the name, if there is one.
    pub fn get(&self, name: &str) -> (r: Option<&FieldDefinition>)
        ensures
            r is Some <==> has_name(self@, name@),
            self.wf() && r is Some ==> r->0@ == self@[index_of(self@, name@)].definition,
            r matches Some(d) ==> exists|i: int| 0 <= i < self@.len() && (#[trigger] self@[i]).name == name@ && self@[i].definition == d@,
    {
        match self.position(name) {
            Some(i) => {
                assert(self@[i as int].definition == self.entries[i as int].definition@);
                Some(&self.entries[i].definition)
            },
            None => None,
        }
    }

    /// Binds the definition to the name.
    pub fn insert(&mut self, name: String, definition: FieldDefinition)
        requires
            old(self).wf(),
        ensures
            final(self)@ == put(old(self)@, name@, definition@),
            final(self).wf(),
    {
        let ghost before = self@;
        proof {
            lemma_put_distinct(before, name@, definition@);
        }
        match self.position(name.as_str()) {
            Some(i) => {
                self.entries.set(i, Property { name, definition });
                assert(self@ =~= put(before, name@, definition@));
            },
            None => {
                self.entries.push(Property { name, definition });
                assert(self@ =~= put(before, name@, definition@));
            },
        }
    }
}

} // verus!
