//! What the marshaler yields when it is driven on a stack that behaves as
//! the protocol says.

use vstd::prelude::*;
use crate::marshal::{Frame, Machine, Outcome, Phase, Step};
use crate::object::{Key, Value};
use crate::stack::{
    cursor_before, is_nan, lemma_table_walk, no_zero, perform, Answer, StackOp, StackValue,
};
use crate::status::{StateError, StateSuccess, Type};
use crate::table::map_of;

verus! {

/// The machine driven on a stack: the operation `op`, which the machine has
/// named, is performed as the protocol says, its answer is handed to the
/// machine, and so on, until the machine is done. The result is how the
/// machine ended and the stack that it left; it is `None` where the
/// protocol leaves an operation undefined, or where the machine is not done
/// after `fuel` operations.
pub open spec fn run(m: Machine, op: StackOp, stack: Seq<StackValue>, fuel: nat) -> Option<
    (Outcome<Value>, Seq<StackValue>),
>
    decreases fuel, 0nat,
{
    if fuel == 0 {
        None
    } else {
        match perform(stack, op) {
            None => None,
            Some((after, answer)) => resume(m.next(answer), after, (fuel - 1) as nat),
        }
    }
}

/// The machine driven on from the state that a step has left it in.
pub open spec fn resume(
    state: (Machine, Step<Value>),
    stack: Seq<StackValue>,
    fuel: nat,
) -> Option<(Outcome<Value>, Seq<StackValue>)>
    decreases fuel, 1nat,
{
    match state.1 {
        Step::Perform(op) => run(state.0, op, stack, fuel),
        Step::Done(outcome) => Some((outcome, stack)),
    }
}

/// The host form of the first `n` items of a list.
pub open spec fn host_items(items: Seq<StackValue>, n: int) -> Seq<Value> {
    Seq::new(n as nat, |i: int| items[i].host())
}

/// The host form of the first `n` entries of a table.
pub open spec fn host_prefix(entries: Seq<(StackValue, StackValue)>, n: int) -> Seq<
    (Key, Value),
> {
    Seq::new(n as nat, |i: int| (entries[i].0.key(), entries[i].1.host()))
}

proof fn lemma_host_list(items: Seq<StackValue>)
    ensures
        StackValue::List(items).host() == Value::List(host_items(items, items.len() as int)),
{
    assert(StackValue::List(items).host()->List_0 =~= host_items(items, items.len() as int));
}

proof fn lemma_host_table(entries: Seq<(StackValue, StackValue)>)
    ensures
        StackValue::Table(entries).host() == Value::Table(
            map_of(host_prefix(entries, entries.len() as int)),
        ),
{
    assert(StackValue::Table(entries).host_entries() =~= host_prefix(
        entries,
        entries.len() as int,
    ));
}

/// The machine that holds the list `items` of `v` as its innermost frame,
/// with the first `i` items copied.
spec fn in_list(m: Machine, items: Seq<StackValue>, i: int) -> (Machine, Step<Value>) {
    m.next_item(items.len() as i64, host_items(items, i))
}

/// The machine copies the items of a list from item `i` on, removes the
/// list, and delivers it.
proof fn lemma_copy_items(
    m: Machine,
    stack: Seq<StackValue>,
    v: StackValue,
    i: int,
    rest: nat,
) -> (fuel: nat)
    requires
        v.wf(),
        v is List,
        0 <= i <= v->List_0.len(),
        m.tag is None,
    ensures
        resume(in_list(m, v->List_0, i), stack.push(v), fuel) == resume(
            m.deliver(v.host()),
            stack,
            rest,
        ),
    decreases v, 0nat, v->List_0.len() - i,
{
    let items = v->List_0;
    let here = in_list(m, items, i);
    let full = stack.push(v);
    assert(full.drop_last() =~= stack);
    if i < items.len() {
        let after = lemma_copy_items(m, stack, v, i + 1, rest);
        let inner = Machine { phase: Phase::Kind, ..here.0 };
        assert(here.1 == Step::<Value>::Perform(StackOp::ListGet(i as i64)));
        assert(perform(full, StackOp::ListGet(i as i64)) == Some(
            (full.push(items[i]), Answer::Status(Ok(StateSuccess::Generic))),
        ));
        assert(here.0.next(Answer::Status(Ok(StateSuccess::Generic))) == (
            inner,
            Step::<Value>::Perform(StackOp::PeekType),
        ));
        let item = lemma_copy(inner, full, items[i], after);
        assert(inner.frames.drop_last() =~= m.frames);
        assert(host_items(items, i).push(items[i].host()) =~= host_items(items, i + 1));
        assert(inner.deliver(items[i].host()) == in_list(m, items, i + 1));
        assert(run(here.0, StackOp::ListGet(i as i64), full, item + 1) == resume(
            (inner, Step::<Value>::Perform(StackOp::PeekType)),
            full.push(items[i]),
            item,
        ));
        item + 1
    } else {
        lemma_host_list(items);
        assert(here.1 == Step::<Value>::Perform(StackOp::Pop));
        assert(perform(full, StackOp::Pop) == Some((stack, Answer::Performed)));
        assert(here.0.frames.drop_last() =~= m.frames);
        assert(here.0.next(Answer::Performed) == m.deliver(v.host()));
        assert(run(here.0, StackOp::Pop, full, rest + 1) == resume(
            m.deliver(v.host()),
            stack,
            rest,
        ));
        rest + 1
    }
}

/// The machine that holds the table `entries` as its innermost frame, with
/// the first `i` entries copied, and waits for the next entry.
spec fn in_table(m: Machine, entries: Seq<(StackValue, StackValue)>, i: int) -> Machine {
    Machine {
        phase: Phase::TableEntry,
        frames: m.frames.push(
            Frame::Table { entries: map_of(host_prefix(entries, i)), value: None },
        ),
        ..m
    }
}

/// The machine copies the entries of a table from entry `i` on, removes the
/// table, and delivers it.
proof fn lemma_copy_entries(
    m: Machine,
    stack: Seq<StackValue>,
    v: StackValue,
    i: int,
    rest: nat,
) -> (fuel: nat)
    requires
        v.wf(),
        v is Table,
        0 <= i <= v->Table_0.len(),
        m.tag is None,
    ensures
        run(
            in_table(m, v->Table_0, i),
            StackOp::TableNext,
            stack.push(v).push(cursor_before(v->Table_0, i)),
            fuel,
        ) == resume(m.deliver(v.host()), stack, rest),
    decreases v, 0nat, v->Table_0.len() - i,
{
    let entries = v->Table_0;
    let here = in_table(m, entries, i);
    let held = map_of(host_prefix(entries, i));
    let full = stack.push(v);
    let before = full.push(cursor_before(entries, i));
    lemma_table_walk(stack, entries, i);
    if i < entries.len() {
        let after = lemma_copy_entries(m, stack, v, i + 1, rest);
        let key = entries[i].0;
        let value = entries[i].1;
        let keyed = full.push(key);
        // The value is copied first.
        let first = Machine { phase: Phase::Kind, ..here };
        assert(here.next(Answer::More(true)) == (
            first,
            Step::<Value>::Perform(StackOp::PeekType),
        ));
        // Then the copy of the key, which leaves the key behind as the cursor.
        let second = Machine {
            phase: Phase::TableKeyCopy,
            frames: m.frames.push(Frame::Table { entries: held, value: Some(value.host()) }),
            ..m
        };
        assert(first.frames.drop_last() =~= m.frames);
        assert(first.deliver(value.host()) == (
            second,
            Step::<Value>::Perform(StackOp::CloneTop),
        ));
        let third = Machine { phase: Phase::Kind, ..second };
        assert(second.next(Answer::Performed) == (
            third,
            Step::<Value>::Perform(StackOp::PeekType),
        ));
        assert(perform(keyed, StackOp::CloneTop) == Some((keyed.push(key), Answer::Performed)));
        assert(third.frames.drop_last() =~= m.frames);
        assert(key.host().as_key() == Ok::<Key, Type>(key.key()));
        assert(host_prefix(entries, i + 1).drop_last() =~= host_prefix(entries, i));
        assert(map_of(host_prefix(entries, i + 1)) == held.insert(key.key(), value.host()));
        assert(third.deliver(key.host()) == (
            in_table(m, entries, i + 1),
            Step::<Value>::Perform(StackOp::TableNext),
        ));
        let for_key = lemma_copy(third, keyed, key, after);
        assert(run(second, StackOp::CloneTop, keyed, for_key + 1) == resume(
            (third, Step::<Value>::Perform(StackOp::PeekType)),
            keyed.push(key),
            for_key,
        ));
        let for_value = lemma_copy(first, keyed, value, for_key + 1);
        assert(run(here, StackOp::TableNext, before, for_value + 1) == resume(
            (first, Step::<Value>::Perform(StackOp::PeekType)),
            keyed.push(value),
            for_value,
        ));
        for_value + 1
    } else {
        lemma_host_table(entries);
        let last = Machine { phase: Phase::TableDrop, ..here };
        assert(here.next(Answer::More(false)) == (last, Step::<Value>::Perform(StackOp::Pop)));
        assert(full.drop_last() =~= stack);
        assert(perform(full, StackOp::Pop) == Some((stack, Answer::Performed)));
        assert(last.frames.drop_last() =~= m.frames);
        assert(last.next(Answer::Performed) == m.deliver(v.host()));
        assert(run(last, StackOp::Pop, full, rest + 1) == resume(
            m.deliver(v.host()),
            stack,
            rest,
        ));
        assert(run(here, StackOp::TableNext, before, rest + 2) == resume(
            (last, Step::<Value>::Perform(StackOp::Pop)),
            full,
            (rest + 1) as nat,
        ));
        rest + 2
    }
}

/// The machine, asked to copy the value `v` on top of the stack, removes
/// `v` and nothing else, and delivers the host form of `v`.
proof fn lemma_copy(m: Machine, stack: Seq<StackValue>, v: StackValue, rest: nat) -> (fuel: nat)
    requires
        v.wf(),
        m.phase == Phase::Kind,
        m.tag is None,
        m.frames.len() > 0 || m.expected is None || m.expected == Some(v.kind()),
    ensures
        run(m, StackOp::PeekType, stack.push(v), fuel) == resume(
            m.deliver(v.host()),
            stack,
            rest,
        ),
    decreases v, 1nat, 0nat,
{
    let full = stack.push(v);
    assert(full.drop_last() =~= stack);
    assert(perform(full, StackOp::PeekType) == Some((full, Answer::Type(v.kind()))));
    assert(m.next(Answer::Type(v.kind())) == m.dispatch(v.kind()));
    let asked = m.dispatch(v.kind());
    match v {
        StackValue::Bool(b) => {
            assert(asked.0.next(Answer::Bool(b)) == m.deliver(v.host()));
            assert(run(asked.0, StackOp::PopBool, full, rest + 1) == resume(
                m.deliver(v.host()),
                stack,
                rest,
            ));
            assert(run(m, StackOp::PeekType, full, rest + 2) == resume(
                asked,
                full,
                (rest + 1) as nat,
            ));
            rest + 2
        },
        StackValue::Int(i) => {
            assert(asked.0.next(Answer::Int(i)) == m.deliver(v.host()));
            assert(run(asked.0, StackOp::PopInt, full, rest + 1) == resume(
                m.deliver(v.host()),
                stack,
                rest,
            ));
            assert(run(m, StackOp::PeekType, full, rest + 2) == resume(
                asked,
                full,
                (rest + 1) as nat,
            ));
            rest + 2
        },
        StackValue::Float(f) => {
            assert(asked.0.next(Answer::Float(f)) == m.deliver(v.host()));
            assert(run(asked.0, StackOp::PopFloat, full, rest + 1) == resume(
                m.deliver(v.host()),
                stack,
                rest,
            ));
            assert(run(m, StackOp::PeekType, full, rest + 2) == resume(
                asked,
                full,
                (rest + 1) as nat,
            ));
            rest + 2
        },
        StackValue::Str(s) => {
            assert(asked.0.next(Answer::Str(Some(s))) == m.deliver(v.host()));
            assert(run(asked.0, StackOp::PopStr, full, rest + 1) == resume(
                m.deliver(v.host()),
                stack,
                rest,
            ));
            assert(run(m, StackOp::PeekType, full, rest + 2) == resume(
                asked,
                full,
                (rest + 1) as nat,
            ));
            rest + 2
        },
        StackValue::UserPtr(p) => {
            assert(asked.0.next(Answer::Address(p)) == m.deliver(v.host()));
            assert(run(asked.0, StackOp::PopUserPtr, full, rest + 1) == resume(
                m.deliver(v.host()),
                stack,
                rest,
            ));
            assert(run(m, StackOp::PeekType, full, rest + 2) == resume(
                asked,
                full,
                (rest + 1) as nat,
            ));
            rest + 2
        },
        StackValue::UserData { data, tag } => {
            let tagged = asked.0.next(Answer::TypeName(tag));
            assert(tagged.1 == Step::<Value>::Perform(StackOp::PopUserData));
            assert(tagged.0.next(Answer::Address(data)) == m.deliver(v.host()));
            assert(run(tagged.0, StackOp::PopUserData, full, rest + 1) == resume(
                m.deliver(v.host()),
                stack,
                rest,
            ));
            assert(run(asked.0, StackOp::PeekTypeName, full, rest + 2) == resume(
                tagged,
                full,
                (rest + 1) as nat,
            ));
            assert(run(m, StackOp::PeekType, full, rest + 3) == resume(
                asked,
                full,
                (rest + 2) as nat,
            ));
            rest + 3
        },
        StackValue::List(items) => {
            let for_items = lemma_copy_items(m, stack, v, 0, rest);
            let copied = Machine { phase: Phase::ListLen, ..m };
            let measured = Machine { phase: Phase::ListLenValue, ..m };
            let length = StackValue::Int(items.len() as i64);
            assert(asked == (
                Machine { phase: Phase::ListCopy, ..m },
                Step::<Value>::Perform(StackOp::CloneTop),
            ));
            assert(asked.0.next(Answer::Performed) == (
                copied,
                Step::<Value>::Perform(StackOp::Len),
            ));
            assert(copied.next(Answer::Performed) == (
                measured,
                Step::<Value>::Perform(StackOp::PopInt),
            ));
            assert(host_items(items, 0) =~= Seq::empty());
            assert(measured.next(Answer::Int(items.len() as i64)) == in_list(m, items, 0));
            assert(perform(full, StackOp::CloneTop) == Some((full.push(v), Answer::Performed)));
            assert(full.push(v).drop_last() =~= full);
            assert(perform(full.push(v), StackOp::Len) == Some(
                (full.push(length), Answer::Performed),
            ));
            assert(full.push(length).drop_last() =~= full);
            assert(perform(full.push(length), StackOp::PopInt) == Some(
                (full, Answer::Int(items.len() as i64)),
            ));
            assert(run(measured, StackOp::PopInt, full.push(length), for_items + 1) == resume(
                in_list(m, items, 0),
                full,
                for_items,
            ));
            assert(run(copied, StackOp::Len, full.push(v), for_items + 2) == resume(
                (measured, Step::<Value>::Perform(StackOp::PopInt)),
                full.push(length),
                (for_items + 1) as nat,
            ));
            assert(run(asked.0, StackOp::CloneTop, full, for_items + 3) == resume(
                (copied, Step::<Value>::Perform(StackOp::Len)),
                full.push(v),
                (for_items + 2) as nat,
            ));
            assert(run(m, StackOp::PeekType, full, for_items + 4) == resume(
                asked,
                full,
                (for_items + 3) as nat,
            ));
            for_items + 4
        },
        StackValue::Table(entries) => {
            let for_entries = lemma_copy_entries(m, stack, v, 0, rest);
            assert(asked == (
                Machine { phase: Phase::TableCursor, ..m },
                Step::<Value>::Perform(StackOp::PushUndef),
            ));
            assert(host_prefix(entries, 0) =~= Seq::empty());
            assert(asked.0.next(Answer::Performed) == (
                in_table(m, entries, 0),
                Step::<Value>::Perform(StackOp::TableNext),
            ));
            assert(perform(full, StackOp::PushUndef) == Some(
                (full.push(StackValue::Undef), Answer::Performed),
            ));
            assert(run(asked.0, StackOp::PushUndef, full, for_entries + 1) == resume(
                (in_table(m, entries, 0), Step::<Value>::Perform(StackOp::TableNext)),
                full.push(StackValue::Undef),
                for_entries,
            ));
            assert(run(m, StackOp::PeekType, full, for_entries + 2) == resume(
                asked,
                full,
                (for_entries + 1) as nat,
            ));
            for_entries + 2
        },
        _ => {
            assert(v.host() == Value::Undef);
            assert(asked == (
                Machine { phase: Phase::Discard, ..m },
                Step::<Value>::Perform(StackOp::Pop),
            ));
            assert(asked.0.next(Answer::Performed) == m.deliver(v.host()));
            assert(run(asked.0, StackOp::Pop, full, rest + 1) == resume(
                m.deliver(v.host()),
                stack,
                rest,
            ));
            assert(run(m, StackOp::PeekType, full, rest + 2) == resume(
                asked,
                full,
                (rest + 1) as nat,
            ));
            rest + 2
        },
    }
}

/// A value that is copied out of the stack arrives as it was: the machine,
/// started on a stack that has any well-formed value `v` on top, with no
/// type expected or with the type of `v`, ends after finitely many
/// operations, none of which the protocol leaves undefined. It ends on the
/// host form of `v`, and it leaves the stack as it was below `v`.
pub proof fn lemma_round_trip(stack: Seq<StackValue>, v: StackValue, expected: Option<Type>)
    requires
        v.wf(),
        expected is None || expected == Some(v.kind()),
    ensures
        exists|fuel: nat|
            run(Machine::start(expected), StackOp::PeekType, stack.push(v), fuel) == Some(
                (Outcome::Value(v.host()), stack),
            ),
{
    let m = Machine::start(expected);
    let fuel = lemma_copy(m, stack, v, 0);
    assert(run(m, StackOp::PeekType, stack.push(v), fuel) == Some(
        (Outcome::Value(v.host()), stack),
    ));
}

/// Whether the runtime can keep the key and find it again: the key is not
/// `undef`, no float that is not a number, and no text with a zero
/// character.
pub open spec fn pushable_key(k: Key) -> bool {
    match k {
        Key::Undef => false,
        Key::Float(f) => !is_nan(f),
        Key::Str(s) => no_zero(s),
        _ => true,
    }
}

/// Whether the runtime can hold the host value and hand it out whole: its
/// strings hold no zero character, its lists are not longer than the
/// runtime can report, and its tables are finite and have keys that the
/// runtime can keep.
pub open spec fn pushable(v: Value) -> bool
    decreases v,
{
    match v {
        Value::Str(s) => no_zero(s),
        Value::List(items) => {
            &&& items.len() <= i64::MAX
            &&& forall|i: int| 0 <= i < items.len() ==> pushable(#[trigger] items[i])
        },
        Value::Table(entries) => {
            &&& entries.dom().finite()
            &&& forall|k: Key| #[trigger] entries.contains_key(k) ==> pushable_key(k)
            &&& forall|k: Key| #[trigger] entries.contains_key(k) ==> pushable(entries[k])
        },
        _ => true,
    }
}

/// The runtime form of a key.
pub open spec fn key_on_stack(k: Key) -> StackValue {
    match k {
        Key::Bool(b) => StackValue::Bool(b),
        Key::Int(i) => StackValue::Int(i),
        Key::Float(f) => StackValue::Float(f),
        Key::Str(s) => StackValue::Str(s),
        Key::UserPtr(p) => StackValue::UserPtr(p),
        Key::Undef => StackValue::Undef,
    }
}

/// The items of a list have runtime forms.
proof fn lemma_list_form(v: Value, n: int) -> (items: Seq<StackValue>)
    requires
        pushable(v),
        v is List,
        0 <= n <= v->List_0.len(),
    ensures
        items.len() == n,
        forall|i: int| 0 <= i < n ==> (#[trigger] items[i]).wf(),
        forall|i: int| 0 <= i < n ==> (#[trigger] items[i]).host() == v->List_0[i],
    decreases v, 0nat, n,
{
    if n == 0 {
        Seq::empty()
    } else {
        let front = lemma_list_form(v, n - 1);
        let last = lemma_runtime_form(v->List_0[n - 1]);
        front.push(last)
    }
}

/// The entries of a part of a table have runtime forms.
proof fn lemma_table_form(v: Value, part: Map<Key, Value>) -> (entries: Seq<
    (StackValue, StackValue),
>)
    requires
        pushable(v),
        v is Table,
        part.dom().finite(),
        part.submap_of(v->Table_0),
    ensures
        StackValue::Table(entries).wf(),
        entries.len() == part.len(),
        forall|i: int| 0 <= i < entries.len() ==> part.contains_key((#[trigger] entries[i]).0.key()),
        map_of(host_prefix(entries, entries.len() as int)) == part,
    decreases v, 0nat, part.len(),
{
    if part.len() == 0 {
        assert(part =~= Map::empty());
        assert(host_prefix(Seq::<(StackValue, StackValue)>::empty(), 0) =~= Seq::empty());
        Seq::empty()
    } else {
        let k = part.dom().choose();
        let rest = part.remove(k);
        assert(part.dom().len() > 0);
        assert(part.dom().contains(k));
        assert(v->Table_0.contains_key(k));
        assert(v->Table_0[k] == part[k]);
        assert forall|other: Key| #[trigger] rest.dom().contains(other) implies v->Table_0.dom(
        ).contains(other) && rest[other] == v->Table_0[other] by {
            assert(part.dom().contains(other));
        }
        let front = lemma_table_form(v, rest);
        let built = StackValue::Table(front);
        assert(built.wf() && built->Table_0 == front);
        assert forall|i: int| 0 <= i < front.len() implies (#[trigger] front[i]).0.is_key()
            && front[i].0.wf() && front[i].1.wf() by {
            assert(built->Table_0[i].0.is_key());
        }
        assert forall|i: int, j: int| 0 <= i < j < front.len() implies (#[trigger] front[i]).0
            != (#[trigger] front[j]).0 by {
            assert(built->Table_0[i].0 != built->Table_0[j].0);
        }
        let value = lemma_runtime_form(part[k]);
        let key = key_on_stack(k);
        let entries = front.push((key, value));
        assert(key.key() == k);
        assert(key.is_key());
        assert(key.wf());
        assert forall|i: int, j: int| 0 <= i < j < entries.len() implies (#[trigger] entries[i]).0
            != (#[trigger] entries[j]).0 by {
            if j == front.len() {
                assert(rest.contains_key(front[i].0.key()));
            } else {
                assert(front[i] == entries[i]);
                assert(front[j] == entries[j]);
                assert(front[i].0 != front[j].0);
            }
        }
        assert(host_prefix(entries, entries.len() as int).drop_last() =~= host_prefix(
            front,
            front.len() as int,
        ));
        assert(map_of(host_prefix(entries, entries.len() as int)) =~= part);
        assert forall|i: int| 0 <= i < entries.len() implies (#[trigger] entries[i]).0.is_key()
            && entries[i].0.wf() && entries[i].1.wf() by {
            if i < front.len() {
                assert(front[i] == entries[i]);
                assert(front[i].0.is_key() && front[i].0.wf() && front[i].1.wf());
            }
        }
        assert(StackValue::Table(entries).wf());
        entries
    }
}

/// Every host value that the runtime can hold has a runtime form: a value
/// that the runtime can have on its stack, and whose host form is the value.
pub proof fn lemma_runtime_form(v: Value) -> (pushed: StackValue)
    requires
        pushable(v),
    ensures
        pushed.wf(),
        pushed.host() == v,
    decreases v, 1nat, 0nat,
{
    match v {
        Value::Bool(b) => StackValue::Bool(b),
        Value::Int(i) => StackValue::Int(i),
        Value::Float(f) => StackValue::Float(f),
        Value::Str(s) => StackValue::Str(s),
        Value::List(list) => {
            let items = lemma_list_form(v, list.len() as int);
            lemma_host_list(items);
            assert(host_items(items, items.len() as int) =~= list);
            StackValue::List(items)
        },
        Value::Table(table) => {
            let entries = lemma_table_form(v, table);
            lemma_host_table(entries);
            StackValue::Table(entries)
        },
        Value::UserData { data, tag } => StackValue::UserData { data, tag },
        Value::UserPtr(p) => StackValue::UserPtr(p),
        Value::Undef => StackValue::Undef,
    }
}

/// A host value that was pushed comes back as it was: where the runtime
/// form `pushed` of the host value `v` is on top of the stack, the machine
/// ends on `v` and leaves the stack as it was before the push.
pub proof fn lemma_pushed_comes_back(stack: Seq<StackValue>, v: Value, pushed: StackValue)
    requires
        pushed.wf(),
        pushed.host() == v,
    ensures
        exists|fuel: nat|
            run(Machine::start(None), StackOp::PeekType, stack.push(pushed), fuel) == Some(
                (Outcome::Value(v), stack),
            ),
{
    lemma_round_trip(stack, pushed, None);
}

/// Where the value on top of the stack is not of the type that the caller
/// expects, the machine ends after it has read the type: it fails with a
/// type error and leaves the stack as it was.
pub proof fn lemma_type_mismatch(stack: Seq<StackValue>, v: StackValue, expected: Type)
    requires
        expected != v.kind(),
    ensures
        run(Machine::start(Some(expected)), StackOp::PeekType, stack.push(v), 1) == Some(
            (Outcome::<Value>::Failed(StateError::TypeError), stack.push(v)),
        ),
{
}

} // verus!
