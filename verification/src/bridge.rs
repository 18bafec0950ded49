//! Foreign functions: callables of the host that the runtime can invoke.
//!
//! The library never calls such a function and never looks into it: `F` is
//! whatever the host uses for one.

use vstd::prelude::*;
use crate::ident::{is_identifier, is_valid_identifier, InvalidIdentifier};
use crate::names::{
    intern_all, lemma_intern_all, lemma_interned, slot_of, unique, NameHandle, NameRegistry,
};

verus! {

/// A foreign function with the number of arguments that it takes. A number
/// below zero stands for any number of arguments.
pub struct YaslCFn<F> {
    pub cfn: F,
    pub args: isize,
}

/// A foreign function that is to become a method of a table: its name, the
/// function, and the number of arguments that it takes.
pub struct MetatableFunction<'a, F> {
    pub name: &'a str,
    pub cfn: F,
    pub args: isize,
}

impl<'a, F> MetatableFunction<'a, F> {
    /// A method with the given name, function and number of arguments.
    pub fn new(name: &'a str, cfn: F, args: isize) -> (function: Self)
        ensures
            function.name == name,
            function.cfn == cfn,
            function.args == args,
    {
        MetatableFunction { name, cfn, args }
    }
}

/// A method as the runtime takes it: the place at which its name is kept,
/// the function, and the number of arguments as a C integer.
pub struct FunctionEntry<F> {
    pub name: NameHandle,
    pub cfn: F,
    pub args: i32,
}

/// The names of the methods, in their order.
pub open spec fn names_of<F>(functions: Seq<MetatableFunction<'_, F>>) -> Seq<Seq<char>> {
    Seq::new(functions.len(), |i: int| functions[i].name@)
}

/// The number of arguments as the C integer that the runtime takes: the low
/// 32 bits of it, which is the number itself where it fits.
pub fn arity(args: isize) -> (code: i32)
    ensures
        code == args as i32,
        i32::MIN <= args <= i32::MAX ==> code == args,
{
    #[verifier::truncate]
    (args as i32)
}

/// Whether every method has an identifier for its name.
fn all_named<F>(functions: &[MetatableFunction<'_, F>]) -> (ok: bool)
    ensures
        ok <==> forall|i: int|
            0 <= i < functions@.len() ==> is_identifier(#[trigger] functions@[i].name@),
{
    let mut i: usize = 0;
    while i < functions.len()
        invariant
            i <= functions@.len(),
            forall|j: int| 0 <= j < i ==> is_identifier(#[trigger] functions@[j].name@),
        decreases functions@.len() - i,
    {
        if !is_valid_identifier(functions[i].name) {
            return false;
        }
        i += 1;
    }
    true
}

/// Prepares a batch of methods for the runtime: interns the name of each,
/// in their order, and gives each as an entry. Where one of the names is no
/// identifier the batch is refused as a whole, and the registry stays as it
/// is.
pub fn function_entries<F: Copy>(
    functions: &[MetatableFunction<'_, F>],
    registry: &mut NameRegistry,
) -> (r: Result<Vec<FunctionEntry<F>>, InvalidIdentifier>)
    ensures
        r is Ok <==> forall|i: int|
            0 <= i < functions@.len() ==> is_identifier(#[trigger] functions@[i].name@),
        r is Err ==> final(registry)@ == old(registry)@,
        r matches Ok(entries) ==> {
            &&& final(registry)@ == intern_all(old(registry)@, names_of(functions@))
            &&& entries@.len() == functions@.len()
            &&& forall|i: int|
                0 <= i < entries@.len() ==> {
                    &&& (#[trigger] entries@[i]).name.slot == slot_of(
                        final(registry)@,
                        functions@[i].name@,
                    )
                    &&& entries@[i].name.slot < final(registry)@.len()
                    &&& final(registry)@[entries@[i].name.slot as int] == functions@[i].name@
                    &&& entries@[i].cfn == functions@[i].cfn
                    &&& entries@[i].args == functions@[i].args as i32
                }
        },
{
    if !all_named(functions) {
        return Err(InvalidIdentifier);
    }
    let ghost names = names_of(functions@);
    let ghost start = registry@;
    let mut entries: Vec<FunctionEntry<F>> = Vec::new();
    let mut i: usize = 0;
    proof {
        use_type_invariant(&*registry);
        registry.lemma_inv();
        assert(names.take(0) =~= Seq::empty());
    }
    while i < functions.len()
        invariant
            i <= functions@.len(),
            names == names_of(functions@),
            unique(start),
            forall|j: int| 0 <= j < functions@.len() ==> is_identifier(
                #[trigger] functions@[j].name@,
            ),
            registry@ == intern_all(start, names.take(i as int)),
            entries@.len() == i,
            forall|j: int|
                0 <= j < i ==> {
                    &&& (#[trigger] entries@[j]).name.slot == slot_of(
                        registry@,
                        functions@[j].name@,
                    )
                    &&& entries@[j].name.slot < registry@.len()
                    &&& registry@[entries@[j].name.slot as int] == functions@[j].name@
                    &&& entries@[j].cfn == functions@[j].cfn
                    &&& entries@[j].args == functions@[j].args as i32
                },
        decreases functions@.len() - i,
    {
        let ghost before = registry@;
        proof {
            lemma_intern_all(start, names.take(i as int));
            lemma_interned(before, names[i as int]);
            assert(names.take(i + 1).drop_last() =~= names.take(i as int));
        }
        let function = &functions[i];
        match registry.intern(function.name) {
            Ok(name) => {
                entries.push(
                    FunctionEntry { name, cfn: function.cfn, args: arity(function.args) },
                );
                proof {
                    use_type_invariant(&*registry);
                    registry.lemma_inv();
                    assert forall|j: int| 0 <= j <= i implies (#[trigger] entries@[j]).name.slot
                        == slot_of(registry@, functions@[j].name@) by {
                        let slot = entries@[j].name.slot as int;
                        assert(registry@[slot] == functions@[j].name@);
                        assert(registry@.contains(functions@[j].name@));
                        let found = registry@.index_of(functions@[j].name@);
                        assert(registry@[found] == functions@[j].name@);
                    }
                }
            },
            Err(e) => {
                return Err(e);
            },
        }
        i += 1;
    }
    proof {
        assert(names.take(i as int) =~= names);
    }
    Ok(entries)
}

} // verus!
