//! The registry of names: the runtime keeps a pointer to each name that it
//! is given, so a name that was handed out once stays where it is.

use vstd::prelude::*;
use vstd::hash_map::StringHashMap;
use crate::ident::{is_identifier, is_valid_identifier, InvalidIdentifier};

verus! {

/// The place of a name in the registry. It stands for the address at which
/// the name is kept: one place, one address, for as long as the registry
/// lives.
#[derive(Clone, Copy, Debug, PartialEq, Eq, Structural)]
pub struct NameHandle {
    pub slot: usize,
}

/// Whether no name occurs twice.
pub open spec fn unique(names: Seq<Seq<char>>) -> bool {
    forall|i: int, j: int|
        0 <= i < j < names.len() ==> #[trigger] names[i] != #[trigger] names[j]
}

/// The place of `name` among `names`, or the number of names where it is
/// not among them: the place that it gets when it is interned.
pub open spec fn slot_of(names: Seq<Seq<char>>, name: Seq<char>) -> int {
    if names.contains(name) {
        names.index_of(name)
    } else {
        names.len() as int
    }
}

/// The names after `name` has been interned: the same where `name` was
/// among them, else with `name` at the end.
pub open spec fn interned(names: Seq<Seq<char>>, name: Seq<char>) -> Seq<Seq<char>> {
    if names.contains(name) {
        names
    } else {
        names.push(name)
    }
}

/// Interning keeps the names unique and every name in its place, and puts
/// the new name at the place that `slot_of` gives.
pub proof fn lemma_interned(names: Seq<Seq<char>>, name: Seq<char>)
    requires
        unique(names),
    ensures
        unique(interned(names, name)),
        0 <= slot_of(names, name) < interned(names, name).len(),
        interned(names, name)[slot_of(names, name)] == name,
        slot_of(interned(names, name), name) == slot_of(names, name),
        names.len() <= interned(names, name).len(),
        forall|i: int| 0 <= i < names.len() ==> #[trigger] interned(names, name)[i] == names[i],
{
    let after = interned(names, name);
    if names.contains(name) {
        assert(names[names.index_of(name)] == name);
    } else {
        assert forall|i: int, j: int| 0 <= i < j < after.len() implies #[trigger] after[i]
            != #[trigger] after[j] by {
            if j == names.len() {
                assert(names[i] != name);
            } else {
                assert(names[i] != names[j]);
            }
        }
        assert(after[names.len() as int] == name);
        assert(after.contains(name));
        assert(after[after.index_of(name)] == name);
        if after.index_of(name) < names.len() {
            assert(names[after.index_of(name)] == name);
        }
    }
}

/// The same text, interned twice, gets the same place both times, whatever
/// was interned in between; and the second time the registry does not
/// change.
pub proof fn lemma_intern_twice(names: Seq<Seq<char>>, name: Seq<char>, between: Seq<Seq<char>>)
    requires
        unique(names),
    ensures
        slot_of(intern_all(interned(names, name), between), name) == slot_of(names, name),
        interned(intern_all(interned(names, name), between), name) == intern_all(
            interned(names, name),
            between,
        ),
{
    lemma_interned(names, name);
    lemma_intern_all(interned(names, name), between);
    let first = interned(names, name);
    let later = intern_all(first, between);
    let slot = slot_of(names, name);
    assert(later[slot] == name);
    assert(later.contains(name));
    assert(later[later.index_of(name)] == name);
}

/// The names after each of `more` has been interned, in turn.
pub open spec fn intern_all(names: Seq<Seq<char>>, more: Seq<Seq<char>>) -> Seq<Seq<char>>
    decreases more.len(),
{
    if more.len() == 0 {
        names
    } else {
        interned(intern_all(names, more.drop_last()), more.last())
    }
}

/// However many names are interned, the names stay unique and every name
/// stays in its place.
pub proof fn lemma_intern_all(names: Seq<Seq<char>>, more: Seq<Seq<char>>)
    requires
        unique(names),
    ensures
        unique(intern_all(names, more)),
        names.len() <= intern_all(names, more).len(),
        forall|i: int| 0 <= i < names.len() ==> #[trigger] intern_all(names, more)[i] == names[i],
    decreases more.len(),
{
    if more.len() > 0 {
        lemma_intern_all(names, more.drop_last());
        lemma_interned(intern_all(names, more.drop_last()), more.last());
    }
}

/// The registry. Its view is the sequence of the names that it holds, each
/// at its place.
pub struct NameRegistry {
    names: Vec<String>,
    slots: StringHashMap<usize>,
}

impl View for NameRegistry {
    type V = Seq<Seq<char>>;

    closed spec fn view(&self) -> Seq<Seq<char>> {
        Seq::new(self.names@.len(), |i: int| self.names@[i]@)
    }
}

impl NameRegistry {
    /// What holds of every registry: it holds identifiers only, each once,
    /// and finds each where it is.
    #[verifier::type_invariant]
    pub closed spec fn inv(&self) -> bool {
        &&& forall|i: int|
            0 <= i < self@.len() ==> self.slots@.contains_key(#[trigger] self@[i])
                && self.slots@[self@[i]] == i
        &&& forall|k: Seq<char>| #[trigger]
            self.slots@.contains_key(k) ==> self.slots@[k] < self@.len() && self@[self.slots@[k]
                as int] == k
        &&& forall|i: int| 0 <= i < self@.len() ==> is_identifier(#[trigger] self@[i])
    }

    /// A registry holds identifiers only, each once.
    pub proof fn lemma_inv(&self)
        requires
            self.inv(),
        ensures
            unique(self@),
            forall|i: int| 0 <= i < self@.len() ==> is_identifier(#[trigger] self@[i]),
    {
        assert forall|i: int, j: int| 0 <= i < j < self@.len() implies #[trigger] self@[i]
            != #[trigger] self@[j] by {
            assert(self.slots@[self@[i]] == i);
            assert(self.slots@[self@[j]] == j);
        }
    }

    proof fn lemma_found(&self, name: Seq<char>)
        requires
            self.inv(),
        ensures
            self.slots@.contains_key(name) <==> self@.contains(name),
            self.slots@.contains_key(name) ==> self.slots@[name] == slot_of(self@, name),
    {
        self.lemma_inv();
        if self.slots@.contains_key(name) {
            assert(self@[self.slots@[name] as int] == name);
            assert(self@.contains(name));
        }
        if self@.contains(name) {
            let i = self@.index_of(name);
            assert(self@[i] == name);
            assert(self.slots@.contains_key(self@[i]));
            assert(self.slots@[self@[i]] == i);
        }
    }

    /// A registry without names.
    pub fn new() -> (registry: NameRegistry)
        ensures
            registry@ == Seq::<Seq<char>>::empty(),
    {
        let names: Vec<String> = Vec::new();
        let slots: StringHashMap<usize> = StringHashMap::new();
        assert(NameRegistry { names, slots }@ =~= Seq::empty());
        NameRegistry { names, slots }
    }

    /// The number of names that the registry holds.
    pub fn len(&self) -> (n: usize)
        ensures
            n == self@.len(),
    {
        self.names.len()
    }

    /// The place of `name`, if the registry holds it.
    pub fn lookup(&self, name: &str) -> (found: Option<NameHandle>)
        ensures
            found is Some <==> self@.contains(name@),
            found matches Some(h) ==> h.slot == slot_of(self@, name@),
    {
        proof {
            use_type_invariant(self);
            self.lemma_found(name@);
        }
        match self.slots.get(name) {
            Some(slot) => Some(NameHandle { slot: *slot }),
            None => None,
        }
    }

    /// The name at the given place, if there is one.
    pub fn name(&self, handle: NameHandle) -> (found: Option<&str>)
        ensures
            found is Some <==> handle.slot < self@.len(),
            found matches Some(name) ==> name@ == self@[handle.slot as int],
    {
        if handle.slot < self.names.len() {
            Some(self.names[handle.slot].as_str())
        } else {
            None
        }
    }

    /// Interns `name`: gives the place of `name`, after putting the name
    /// into the registry if it is not there yet. A name that is there
    /// already keeps its place, and no name ever leaves or moves. A name
    /// that is no identifier is refused, and the registry stays as it is.
    pub fn intern(&mut self, name: &str) -> (r: Result<NameHandle, InvalidIdentifier>)
        ensures
            r is Ok <==> is_identifier(name@),
            r is Err ==> final(self)@ == old(self)@,
            r matches Ok(h) ==> h.slot == slot_of(old(self)@, name@) && final(self)@ == interned(
                old(self)@,
                name@,
            ),
            r matches Ok(h) ==> h.slot < final(self)@.len() && final(self)@[h.slot as int]
                == name@,
            old(self)@.len() <= final(self)@.len(),
            forall|i: int| 0 <= i < old(self)@.len() ==> final(self)@[i] == old(self)@[i],
    {
        if !is_valid_identifier(name) {
            return Err(InvalidIdentifier);
        }
        proof {
            use_type_invariant(&*self);
            self.lemma_found(name@);
            self.lemma_inv();
            lemma_interned(self@, name@);
        }
        let known = match self.slots.get(name) {
            Some(slot) => Some(*slot),
            None => None,
        };
        match known {
            Some(slot) => Ok(NameHandle { slot }),
            None => {
                let ghost before = self@;
                let ghost found = self.slots@;
                let mut taken = NameRegistry::new();
                core::mem::swap(self, &mut taken);
                let NameRegistry { names, slots } = taken;
                let mut names = names;
                let mut slots = slots;
                let slot = names.len();
                names.push(name.to_owned());
                slots.insert(name.to_owned(), slot);
                proof {
                    let after = NameRegistry { names, slots };
                    assert(after@ =~= before.push(name@));
                    assert forall|i: int| 0 <= i < after@.len() implies slots@.contains_key(
                        #[trigger] after@[i],
                    ) && slots@[after@[i]] == i by {
                        if i < before.len() {
                            assert(before[i] == after@[i]);
                            assert(found.contains_key(before[i]));
                        }
                    }
                    assert forall|k: Seq<char>| #[trigger] slots@.contains_key(k) implies slots@[k]
                        < after@.len() && after@[slots@[k] as int] == k by {
                        if k != name@ {
                            assert(found.contains_key(k));
                        }
                    }
                    assert forall|i: int| 0 <= i < after@.len() implies is_identifier(
                        #[trigger] after@[i],
                    ) by {
                        if i < before.len() {
                            assert(before[i] == after@[i]);
                        }
                    }
                    assert(after.inv());
                }
                *self = NameRegistry { names, slots };
                Ok(NameHandle { slot })
            },
        }
    }
}

} // verus!
