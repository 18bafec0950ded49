//! The global variables that the host has declared in one interpreter.

use vstd::prelude::*;
use vstd::hash_map::StringHashMap;
use crate::ident::{is_identifier, is_valid_identifier};
use crate::names::{interned, slot_of, NameHandle, NameRegistry};
use crate::status::StateError;

verus! {

/// Why an operation on a global variable failed.
#[derive(Clone, Copy, Debug, PartialEq, Eq, Structural)]
pub enum GlobalError {
    /// The name is no identifier.
    InvalidIdentifier,
    /// A variable of that name was declared before.
    AlreadyDeclared,
    /// The runtime reported an error.
    Runtime(StateError),
}

/// What declaring `name` gives, where the names in `declared` have been
/// declared before: the names that are declared afterwards, or why the
/// declaration is refused.
pub open spec fn declaration(declared: Set<Seq<char>>, name: Seq<char>) -> Result<
    Set<Seq<char>>,
    GlobalError,
> {
    if !is_identifier(name) {
        Err(GlobalError::InvalidIdentifier)
    } else if declared.contains(name) {
        Err(GlobalError::AlreadyDeclared)
    } else {
        Ok(declared.insert(name))
    }
}

/// A name can be declared once: the second declaration of a name is refused
/// as a repetition, whatever was declared in between, and leaves the first
/// in place.
pub proof fn lemma_declare_twice(
    declared: Set<Seq<char>>,
    name: Seq<char>,
    between: Seq<Seq<char>>,
)
    requires
        declaration(declared, name) is Ok,
    ensures
        declaration(declare_all(declaration(declared, name)->Ok_0, between), name) == Err::<
            Set<Seq<char>>,
            GlobalError,
        >(GlobalError::AlreadyDeclared),
{
    lemma_declare_all(declaration(declared, name)->Ok_0, between, name);
}

/// The names that are declared after each of `names` has been declared in
/// turn, the refused ones left out.
pub open spec fn declare_all(declared: Set<Seq<char>>, names: Seq<Seq<char>>) -> Set<Seq<char>>
    decreases names.len(),
{
    if names.len() == 0 {
        declared
    } else {
        match declaration(declare_all(declared, names.drop_last()), names.last()) {
            Ok(after) => after,
            Err(_) => declare_all(declared, names.drop_last()),
        }
    }
}

/// A name that is declared stays declared.
pub proof fn lemma_declare_all(declared: Set<Seq<char>>, names: Seq<Seq<char>>, name: Seq<char>)
    requires
        declared.contains(name),
    ensures
        declare_all(declared, names).contains(name),
    decreases names.len(),
{
    if names.len() > 0 {
        lemma_declare_all(declared, names.drop_last(), name);
    }
}

/// The names of the global variables that the host has declared in one
/// interpreter. Its view is the set of those names.
pub struct Globals {
    declared: StringHashMap<usize>,
}

impl View for Globals {
    type V = Set<Seq<char>>;

    closed spec fn view(&self) -> Set<Seq<char>> {
        self.declared@.dom()
    }
}

impl Globals {
    /// No variable declared.
    pub fn new() -> (globals: Globals)
        ensures
            globals@ == Set::<Seq<char>>::empty(),
    {
        Globals { declared: StringHashMap::new() }
    }

    /// Whether a variable of that name was declared.
    pub fn is_declared(&self, name: &str) -> (declared: bool)
        ensures
            declared == self@.contains(name@),
    {
        self.declared.contains_key(name)
    }

    /// Declares a variable: checks the name, interns it, and records it. A
    /// name that is no identifier is refused, and so is a name that was
    /// declared before: a declaration never replaces another. Where the
    /// name is refused nothing changes.
    pub fn declare(&mut self, registry: &mut NameRegistry, name: &str) -> (r: Result<
        NameHandle,
        GlobalError,
    >)
        ensures
            r is Ok <==> declaration(old(self)@, name@) is Ok,
            r matches Ok(h) ==> {
                &&& Ok::<Set<Seq<char>>, GlobalError>(final(self)@) == declaration(
                    old(self)@,
                    name@,
                )
                &&& final(registry)@ == interned(old(registry)@, name@)
                &&& h.slot == slot_of(old(registry)@, name@)
            },
            r matches Err(e) ==> {
                &&& Err::<Set<Seq<char>>, GlobalError>(e) == declaration(old(self)@, name@)
                &&& final(self)@ == old(self)@
                &&& final(registry)@ == old(registry)@
            },
    {
        if !is_valid_identifier(name) {
            return Err(GlobalError::InvalidIdentifier);
        }
        if self.declared.contains_key(name) {
            return Err(GlobalError::AlreadyDeclared);
        }
        match registry.intern(name) {
            Ok(handle) => {
                self.declared.insert(name.to_owned(), handle.slot);
                assert(self@ =~= old(self)@.insert(name@));
                Ok(handle)
            },
            Err(_) => Err(GlobalError::InvalidIdentifier),
        }
    }
}

} // verus!
