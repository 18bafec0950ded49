//! The stack protocol: the operations that move values across the boundary
//! between host and runtime, what the runtime answers to each, and a model
//! of what each operation does to the stack.

use vstd::prelude::*;
use crate::object::{Key, Value};
use crate::table::map_of;
use crate::status::{StateError, StateSuccess, Type};

verus! {

/// An operation on the stack of one interpreter.
#[derive(Clone, Copy, Debug, PartialEq, Eq, Structural)]
pub enum StackOp {
    /// Read the type of the top, leaving it in place.
    PeekType,
    /// Remove the top and read it as a boolean.
    PopBool,
    /// Remove the top and read it as an integer.
    PopInt,
    /// Remove the top and read it as a float.
    PopFloat,
    /// Remove the top and read it as a string.
    PopStr,
    /// Remove the top and read it as a pointer.
    PopUserPtr,
    /// Read the name of the type of the top, leaving it in place.
    PeekTypeName,
    /// Remove the top and read it as the address of foreign data.
    PopUserData,
    /// Remove the top without reading it.
    Pop,
    /// Push a copy of the top.
    CloneTop,
    /// Replace the top by its length.
    Len,
    /// Push the item at the given index of the list on top.
    ListGet(i64),
    /// Push `undef`.
    PushUndef,
    /// Replace the key on top by the entry that follows it in the table
    /// below, if there is one.
    TableNext,
}

/// What the runtime answers to an operation.
#[derive(Debug)]
pub enum Reply {
    /// The operation was performed and returns nothing.
    Performed,
    Type(Type),
    Bool(bool),
    Int(i64),
    /// The IEEE-754 bit pattern of a float.
    Float(u64),
    /// The text of a string, or `None` where the value was no string.
    Str(Option<String>),
    /// The address that a pointer holds; zero for the null pointer.
    Address(usize),
    /// The bytes of a type name, or `None` where there is none.
    TypeName(Option<Vec<u8>>),
    Status(Result<StateSuccess, StateError>),
    /// Whether a next entry was pushed.
    More(bool),
}

/// What a `Reply` is: strings are their characters, names their bytes.
pub enum Answer {
    Performed,
    Type(Type),
    Bool(bool),
    Int(i64),
    Float(u64),
    Str(Option<Seq<char>>),
    Address(usize),
    TypeName(Option<Seq<u8>>),
    Status(Result<StateSuccess, StateError>),
    More(bool),
}

impl View for Reply {
    type V = Answer;

    open spec fn view(&self) -> Answer {
        match self {
            Reply::Performed => Answer::Performed,
            Reply::Type(t) => Answer::Type(*t),
            Reply::Bool(b) => Answer::Bool(*b),
            Reply::Int(i) => Answer::Int(*i),
            Reply::Float(f) => Answer::Float(*f),
            Reply::Str(s) => Answer::Str(
                match s {
                    Some(text) => Some(text@),
                    None => None,
                },
            ),
            Reply::Address(a) => Answer::Address(*a),
            Reply::TypeName(n) => Answer::TypeName(
                match n {
                    Some(name) => Some(name@),
                    None => None,
                },
            ),
            Reply::Status(r) => Answer::Status(*r),
            Reply::More(m) => Answer::More(*m),
        }
    }
}

/// A value as it lives on the stack of the runtime. A table is the sequence
/// of its entries, key before value, in the order in which the runtime walks
/// them.
pub enum StackValue {
    Undef,
    Bool(bool),
    Int(i64),
    Float(u64),
    Str(Seq<char>),
    List(Seq<StackValue>),
    Table(Seq<(StackValue, StackValue)>),
    Fn,
    Closure,
    CFn,
    UserPtr(usize),
    UserData { data: usize, tag: Option<Seq<u8>> },
}

/// Whether text holds no zero character. The runtime hands a string out up
/// to its first zero character.
pub open spec fn no_zero(text: Seq<char>) -> bool {
    forall|i: int| 0 <= i < text.len() ==> #[trigger] text[i] != '\0'
}

/// Whether the bit pattern is that of a float that is not a number: all
/// bits of the exponent are set, and some bit of the fraction is.
pub open spec fn is_nan(bits: u64) -> bool {
    bits & 0x7ff0_0000_0000_0000 == 0x7ff0_0000_0000_0000 && bits & 0x000f_ffff_ffff_ffff != 0
}

impl StackValue {
    /// The type tag of the value.
    pub open spec fn kind(self) -> Type {
        match self {
            StackValue::Undef => Type::Undef,
            StackValue::Bool(_) => Type::Bool,
            StackValue::Int(_) => Type::Int,
            StackValue::Float(_) => Type::Float,
            StackValue::Str(_) => Type::Str,
            StackValue::List(_) => Type::List,
            StackValue::Table(_) => Type::Table,
            StackValue::Fn => Type::Fn,
            StackValue::Closure => Type::Closure,
            StackValue::CFn => Type::CFn,
            StackValue::UserPtr(_) => Type::UserPtr,
            StackValue::UserData { .. } => Type::UserData,
        }
    }

    /// Whether the runtime can walk a table past the value as a key: the
    /// value is a scalar other than `undef`, and no float that is not a
    /// number, which the runtime does not find again.
    pub open spec fn is_key(self) -> bool {
        match self {
            StackValue::Bool(_) => true,
            StackValue::Int(_) => true,
            StackValue::Float(f) => !is_nan(f),
            StackValue::Str(_) => true,
            StackValue::UserPtr(_) => true,
            _ => false,
        }
    }

    /// The key that the scalar is on the host.
    pub open spec fn key(self) -> Key {
        match self {
            StackValue::Bool(b) => Key::Bool(b),
            StackValue::Int(i) => Key::Int(i),
            StackValue::Float(f) => Key::Float(f),
            StackValue::Str(s) => Key::Str(s),
            StackValue::UserPtr(p) => Key::UserPtr(p),
            _ => Key::Undef,
        }
    }

    /// What the runtime can hold and hand out whole: a string is text
    /// without a zero character, a list has a length that the runtime can
    /// report, and a table holds each key once.
    pub open spec fn wf(self) -> bool
        decreases self,
    {
        match self {
            StackValue::Str(s) => no_zero(s),
            StackValue::List(items) => {
                &&& items.len() <= i64::MAX
                &&& forall|i: int| 0 <= i < items.len() ==> (#[trigger] items[i]).wf()
            },
            StackValue::Table(entries) => {
                &&& forall|i: int| 0 <= i < entries.len() ==> (#[trigger] entries[i]).0.is_key()
                &&& forall|i: int| 0 <= i < entries.len() ==> (#[trigger] entries[i]).0.wf()
                &&& forall|i: int| 0 <= i < entries.len() ==> (#[trigger] entries[i]).1.wf()
                &&& forall|i: int, j: int|
                    0 <= i < j < entries.len() ==> (#[trigger] entries[i]).0 != (
                    #[trigger] entries[j]).0
            },
            _ => true,
        }
    }

    /// The entries of a table, each in its host form: the key as a key, the
    /// value as `host` gives it. A value that is no table has none.
    pub open spec fn host_entries(self) -> Seq<(Key, Value)>
        decreases self, 0nat,
    {
        match self {
            StackValue::Table(entries) => Seq::new(
                entries.len(),
                |i: int|
                    if 0 <= i < entries.len() {
                        (entries[i].0.key(), entries[i].1.host())
                    } else {
                        (Key::Undef, Value::Undef)
                    },
            ),
            _ => Seq::empty(),
        }
    }

    /// The host value that the value becomes when it is copied out of the
    /// stack. A function has no host form and becomes `undef`.
    pub open spec fn host(self) -> Value
        decreases self, 1nat,
    {
        match self {
            StackValue::Undef => Value::Undef,
            StackValue::Bool(b) => Value::Bool(b),
            StackValue::Int(i) => Value::Int(i),
            StackValue::Float(f) => Value::Float(f),
            StackValue::Str(s) => Value::Str(s),
            StackValue::List(items) => Value::List(
                Seq::new(
                    items.len(),
                    |i: int|
                        if 0 <= i < items.len() {
                            items[i].host()
                        } else {
                            Value::Undef
                        },
                ),
            ),
            StackValue::Table(entries) => Value::Table(map_of(self.host_entries())),
            StackValue::Fn => Value::Undef,
            StackValue::Closure => Value::Undef,
            StackValue::CFn => Value::Undef,
            StackValue::UserPtr(p) => Value::UserPtr(p),
            StackValue::UserData { data, tag } => Value::UserData { data, tag },
        }
    }
}

/// The position of the first entry with key `k`, or the number of entries if
/// there is none.
pub open spec fn entry_of(entries: Seq<(StackValue, StackValue)>, k: StackValue) -> int
    decreases entries.len(),
{
    if entries.len() == 0 {
        0
    } else if entries.first().0 == k {
        0
    } else {
        1 + entry_of(entries.drop_first(), k)
    }
}

/// The item of a list that an index stands for: an index below zero counts
/// from the end.
pub open spec fn list_item(items: Seq<StackValue>, index: int) -> Option<StackValue> {
    if 0 <= index < items.len() {
        Some(items[index])
    } else if -items.len() <= index < 0 {
        Some(items[items.len() + index])
    } else {
        None
    }
}

/// What an operation does: the stack after it and the answer of the
/// runtime. The top of the stack is the last item. The result is `None`
/// where the protocol leaves the operation undefined: on a stack that is too
/// short, for a typed read of a value of another type, for the length of a
/// value that is no list, for an index outside of a list, and for a cursor
/// that is no key of the table.
pub open spec fn perform(stack: Seq<StackValue>, op: StackOp) -> Option<
    (Seq<StackValue>, Answer),
> {
    if op == StackOp::PushUndef {
        Some((stack.push(StackValue::Undef), Answer::Performed))
    } else if stack.len() == 0 {
        None
    } else {
        let top = stack.last();
        let rest = stack.drop_last();
        match op {
            StackOp::PeekType => Some((stack, Answer::Type(top.kind()))),
            StackOp::PopBool => match top {
                StackValue::Bool(b) => Some((rest, Answer::Bool(b))),
                _ => None,
            },
            StackOp::PopInt => match top {
                StackValue::Int(i) => Some((rest, Answer::Int(i))),
                _ => None,
            },
            StackOp::PopFloat => match top {
                StackValue::Float(f) => Some((rest, Answer::Float(f))),
                _ => None,
            },
            StackOp::PopStr => match top {
                StackValue::Str(s) => Some((rest, Answer::Str(Some(s)))),
                _ => None,
            },
            StackOp::PopUserPtr => match top {
                StackValue::UserPtr(p) => Some((rest, Answer::Address(p))),
                _ => None,
            },
            StackOp::PeekTypeName => match top {
                StackValue::UserData { data, tag } => Some((stack, Answer::TypeName(tag))),
                _ => None,
            },
            StackOp::PopUserData => match top {
                StackValue::UserData { data, tag } => Some((rest, Answer::Address(data))),
                _ => None,
            },
            StackOp::Pop => Some((rest, Answer::Performed)),
            StackOp::CloneTop => Some((stack.push(top), Answer::Performed)),
            StackOp::Len => match top {
                StackValue::List(items) => if items.len() <= i64::MAX {
                    Some((rest.push(StackValue::Int(items.len() as i64)), Answer::Performed))
                } else {
                    None
                },
                _ => None,
            },
            StackOp::ListGet(index) => match top {
                StackValue::List(items) => match list_item(items, index as int) {
                    Some(item) => Some(
                        (stack.push(item), Answer::Status(Ok(StateSuccess::Generic))),
                    ),
                    None => None,
                },
                _ => Some((stack, Answer::Status(Err(StateError::TypeError)))),
            },
            StackOp::PushUndef => Some((stack.push(StackValue::Undef), Answer::Performed)),
            StackOp::TableNext => if rest.len() == 0 {
                None
            } else {
                match rest.last() {
                    StackValue::Table(entries) => {
                        let next = if top is Undef {
                            0
                        } else {
                            entry_of(entries, top) + 1
                        };
                        if next < entries.len() {
                            Some(
                                (
                                    rest.push(entries[next].0).push(entries[next].1),
                                    Answer::More(true),
                                ),
                            )
                        } else if next == entries.len() {
                            Some((rest, Answer::More(false)))
                        } else {
                            None
                        }
                    },
                    _ => Some((rest, Answer::More(false))),
                }
            },
        }
    }
}

/// By how much an operation with the given answer changes the depth of the
/// stack.
pub open spec fn depth_change(op: StackOp, answer: Answer) -> int {
    match op {
        StackOp::PeekType => 0,
        StackOp::PeekTypeName => 0,
        StackOp::Len => 0,
        StackOp::CloneTop => 1,
        StackOp::PushUndef => 1,
        StackOp::ListGet(_) => if answer == Answer::Status(Ok(StateSuccess::Generic)) {
            1
        } else {
            0
        },
        StackOp::TableNext => if answer == Answer::More(true) {
            1
        } else {
            -1
        },
        _ => -1,
    }
}

/// Every operation changes the depth of the stack by what its kind and its
/// answer say, and by nothing else: a read that leaves the top in place
/// changes nothing, a removal takes one item, a push adds one, and a step
/// of a walk replaces the cursor by a key and a value, or takes it away.
pub proof fn lemma_depth(stack: Seq<StackValue>, op: StackOp)
    requires
        perform(stack, op) is Some,
    ensures
        perform(stack, op)->Some_0.0.len() == stack.len() + depth_change(
            op,
            perform(stack, op)->Some_0.1,
        ),
{
}

/// The operation that removes the top of the stack and reads it as a value
/// of type `wanted`, where the top is of type `found`: the typed read where
/// the two agree and there is one for the type, else the plain removal.
pub open spec fn removal(wanted: Type, found: Type) -> StackOp {
    if wanted != found {
        StackOp::Pop
    } else {
        match wanted {
            Type::Bool => StackOp::PopBool,
            Type::Int => StackOp::PopInt,
            Type::Float => StackOp::PopFloat,
            Type::Str => StackOp::PopStr,
            Type::UserPtr => StackOp::PopUserPtr,
            Type::UserData => StackOp::PopUserData,
            _ => StackOp::Pop,
        }
    }
}

/// Chooses how to remove the top of the stack for a caller that wants a
/// value of type `wanted`, once the type of the top is known. The caller
/// gets the value where the types agree; where they do not the top is
/// removed all the same, and the caller gets the zero value of its type.
pub fn typed_pop(wanted: Type, found: Type) -> (op: StackOp)
    ensures
        op == removal(wanted, found),
{
    if wanted != found {
        StackOp::Pop
    } else {
        match wanted {
            Type::Bool => StackOp::PopBool,
            Type::Int => StackOp::PopInt,
            Type::Float => StackOp::PopFloat,
            Type::Str => StackOp::PopStr,
            Type::UserPtr => StackOp::PopUserPtr,
            Type::UserData => StackOp::PopUserData,
            _ => StackOp::Pop,
        }
    }
}

/// A removal that was chosen by the type of the top is defined, and takes
/// exactly the top from the stack, whatever the type of the top is.
pub proof fn lemma_typed_pop(stack: Seq<StackValue>, top: StackValue, wanted: Type)
    ensures
        perform(stack.push(top), removal(wanted, top.kind())) is Some,
        perform(stack.push(top), removal(wanted, top.kind()))->Some_0.0 == stack,
{
    assert(stack.push(top).drop_last() =~= stack);
}

/// The key that is on top of the stack before the walk of a table reaches
/// entry `i`: `undef` before the first entry, else the key of the entry
/// before.
pub open spec fn cursor_before(entries: Seq<(StackValue, StackValue)>, i: int) -> StackValue {
    if i == 0 {
        StackValue::Undef
    } else {
        entries[i - 1].0
    }
}

/// In a table that holds each key once, a key is found where it is.
pub proof fn lemma_entry_of(entries: Seq<(StackValue, StackValue)>, i: int)
    requires
        0 <= i < entries.len(),
        forall|a: int, b: int|
            0 <= a < b < entries.len() ==> (#[trigger] entries[a]).0 != (#[trigger] entries[b]).0,
    ensures
        entry_of(entries, entries[i].0) == i,
    decreases i,
{
    if i > 0 {
        let rest = entries.drop_first();
        assert(entries[0].0 != entries[i].0);
        assert forall|a: int, b: int| 0 <= a < b < rest.len() implies (#[trigger] rest[a]).0 != (
        #[trigger] rest[b]).0 by {
            assert(rest[a] == entries[a + 1]);
            assert(rest[b] == entries[b + 1]);
        }
        assert(rest[i - 1] == entries[i]);
        lemma_entry_of(rest, i - 1);
    }
}

/// A walk of a table with `n` entries that starts from `undef` takes
/// `n + 1` steps: step `i` pushes entry `i`, key below value, for each `i`
/// below `n`, so that each key is visited once, and the step after the last
/// entry pushes nothing and reports the end.
pub proof fn lemma_table_walk(
    stack: Seq<StackValue>,
    entries: Seq<(StackValue, StackValue)>,
    i: int,
)
    requires
        StackValue::Table(entries).wf(),
        0 <= i <= entries.len(),
    ensures
        i < entries.len() ==> perform(
            stack.push(StackValue::Table(entries)).push(cursor_before(entries, i)),
            StackOp::TableNext,
        ) == Some(
            (
                stack.push(StackValue::Table(entries)).push(entries[i].0).push(entries[i].1),
                Answer::More(true),
            ),
        ),
        i == entries.len() ==> perform(
            stack.push(StackValue::Table(entries)).push(cursor_before(entries, i)),
            StackOp::TableNext,
        ) == Some((stack.push(StackValue::Table(entries)), Answer::More(false))),
{
    let table = StackValue::Table(entries);
    let before = stack.push(table).push(cursor_before(entries, i));
    assert(before.drop_last() == stack.push(table));
    if i > 0 {
        assert(entries[i - 1].0.is_key());
        lemma_entry_of(entries, i - 1);
    }
}

} // verus!
