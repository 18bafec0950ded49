use yaslapi::marshal::{Fault, Materializer, Outcome, Step};
use yaslapi::object::{HashableObject, Object};
use yaslapi::stack::{typed_pop, Reply, StackOp};
use yaslapi::status::{StateError, StateSuccess, Type};
use yaslapi::table::Table;

/// A value on the stack of the stand-in runtime below.
#[derive(Clone, Debug, PartialEq)]
enum Sim {
    Undef,
    Bool(bool),
    Int(i64),
    Float(u64),
    Str(String),
    List(Vec<Sim>),
    Table(Vec<(Sim, Sim)>),
    Fn,
    Closure,
    CFn,
    UserPtr(usize),
    UserData(usize, Option<Vec<u8>>),
}

fn kind(v: &Sim) -> Type {
    match v {
        Sim::Undef => Type::Undef,
        Sim::Bool(_) => Type::Bool,
        Sim::Int(_) => Type::Int,
        Sim::Float(_) => Type::Float,
        Sim::Str(_) => Type::Str,
        Sim::List(_) => Type::List,
        Sim::Table(_) => Type::Table,
        Sim::Fn => Type::Fn,
        Sim::Closure => Type::Closure,
        Sim::CFn => Type::CFn,
        Sim::UserPtr(_) => Type::UserPtr,
        Sim::UserData(..) => Type::UserData,
    }
}

/// A stand-in for the runtime: a stack that answers each operation as the
/// protocol says, and counts the operations by kind.
struct Runtime {
    stack: Vec<Sim>,
    performed: Vec<StackOp>,
}

impl Runtime {
    fn new(stack: Vec<Sim>) -> Runtime {
        Runtime { stack, performed: Vec::new() }
    }

    fn count(&self, op: StackOp) -> usize {
        self.performed.iter().filter(|p| **p == op).count()
    }

    fn perform(&mut self, op: StackOp) -> Reply {
        self.performed.push(op);
        match op {
            StackOp::PeekType => Reply::Type(kind(self.stack.last().unwrap())),
            StackOp::PopBool => match self.stack.pop().unwrap() {
                Sim::Bool(b) => Reply::Bool(b),
                other => panic!("typed read of {:?}", other),
            },
            StackOp::PopInt => match self.stack.pop().unwrap() {
                Sim::Int(i) => Reply::Int(i),
                other => panic!("typed read of {:?}", other),
            },
            StackOp::PopFloat => match self.stack.pop().unwrap() {
                Sim::Float(f) => Reply::Float(f),
                other => panic!("typed read of {:?}", other),
            },
            StackOp::PopStr => match self.stack.pop().unwrap() {
                Sim::Str(s) => Reply::Str(Some(s)),
                other => panic!("typed read of {:?}", other),
            },
            StackOp::PopUserPtr => match self.stack.pop().unwrap() {
                Sim::UserPtr(p) => Reply::Address(p),
                other => panic!("typed read of {:?}", other),
            },
            StackOp::PeekTypeName => match self.stack.last().unwrap() {
                Sim::UserData(_, tag) => Reply::TypeName(tag.clone()),
                other => panic!("type name of {:?}", other),
            },
            StackOp::PopUserData => match self.stack.pop().unwrap() {
                Sim::UserData(data, _) => Reply::Address(data),
                other => panic!("typed read of {:?}", other),
            },
            StackOp::Pop => {
                self.stack.pop().unwrap();
                Reply::Performed
            }
            StackOp::CloneTop => {
                let top = self.stack.last().unwrap().clone();
                self.stack.push(top);
                Reply::Performed
            }
            StackOp::Len => match self.stack.pop().unwrap() {
                Sim::List(items) => {
                    self.stack.push(Sim::Int(items.len() as i64));
                    Reply::Performed
                }
                other => panic!("length of {:?}", other),
            },
            StackOp::ListGet(index) => match self.stack.last().unwrap() {
                Sim::List(items) => {
                    let len = items.len() as i64;
                    let at = if index < 0 { len + index } else { index };
                    assert!(0 <= at && at < len, "index {} outside of the list", index);
                    let item = items[at as usize].clone();
                    self.stack.push(item);
                    Reply::Status(Ok(StateSuccess::Generic))
                }
                _ => Reply::Status(Err(StateError::TypeError)),
            },
            StackOp::PushUndef => {
                self.stack.push(Sim::Undef);
                Reply::Performed
            }
            StackOp::TableNext => {
                let cursor = self.stack.pop().unwrap();
                match self.stack.last().unwrap().clone() {
                    Sim::Table(entries) => {
                        let next = if cursor == Sim::Undef {
                            0
                        } else {
                            entries.iter().position(|e| e.0 == cursor).unwrap() + 1
                        };
                        if next < entries.len() {
                            self.stack.push(entries[next].0.clone());
                            self.stack.push(entries[next].1.clone());
                            Reply::More(true)
                        } else {
                            Reply::More(false)
                        }
                    }
                    _ => Reply::More(false),
                }
            }
        }
    }

    /// Drives the marshaler on the stack until it is done.
    fn materialize(&mut self, expected: Option<Type>) -> Outcome<Object> {
        let (mut machine, mut op) = Materializer::begin(expected);
        loop {
            let reply = self.perform(op);
            match machine.step(reply) {
                Step::Perform(next) => op = next,
                Step::Done(outcome) => return outcome,
            }
        }
    }
}

fn value_of(outcome: Outcome<Object>) -> Object {
    match outcome {
        Outcome::Value(v) => v,
        other => panic!("the marshaler ended on {:?}", other),
    }
}

fn text(s: &str) -> Object {
    Object::Str(s.to_string())
}

fn key(s: &str) -> HashableObject {
    HashableObject::Str(s.to_string())
}

/// The runtime form of a host value. The entries of a table are pushed in
/// the order in which `into_entries` gives them.
fn on_stack(v: &Object) -> Sim {
    match v {
        Object::Bool(b) => Sim::Bool(*b),
        Object::Int(i) => Sim::Int(*i),
        Object::Float(f) => Sim::Float(*f),
        Object::Str(s) => Sim::Str(s.clone()),
        Object::List(items) => Sim::List(items.iter().map(on_stack).collect()),
        Object::Table(table) => Sim::Table(
            table
                .clone()
                .into_entries()
                .into_iter()
                .map(|(k, v)| (on_stack(&Object::from(k)), on_stack(&v)))
                .collect(),
        ),
        Object::UserData { data, tag } => Sim::UserData(*data, tag.clone()),
        Object::UserPtr(p) => Sim::UserPtr(*p),
        Object::Undef => Sim::Undef,
    }
}

fn round_trip(v: Object) {
    let below = vec![Sim::Int(7), Sim::Str("below".to_string())];
    let mut stack = below.clone();
    stack.push(on_stack(&v));
    let mut runtime = Runtime::new(stack);
    let back = value_of(runtime.materialize(None));
    assert_eq!(back, v);
    assert_eq!(runtime.stack, below);
}

#[test]
fn the_first_operation_reads_the_type() {
    let (_, op) = Materializer::begin(None);
    assert_eq!(op, StackOp::PeekType);
    let (_, op) = Materializer::begin(Some(Type::List));
    assert_eq!(op, StackOp::PeekType);
}

#[test]
fn a_list_arrives_in_order() {
    let mut runtime = Runtime::new(vec![Sim::List(vec![Sim::Int(1), Sim::Int(2), Sim::Int(3)])]);
    let got = value_of(runtime.materialize(None));
    match &got {
        Object::List(items) => {
            assert_eq!(items.len(), 3);
            assert_eq!(items[0], Object::Int(1));
            assert_eq!(items[1], Object::Int(2));
            assert_eq!(items[2], Object::Int(3));
        }
        other => panic!("no list: {:?}", other),
    }
    assert_eq!(got, Object::List(vec![Object::Int(1), Object::Int(2), Object::Int(3)]));
    assert_ne!(got, Object::List(vec![Object::Int(3), Object::Int(2), Object::Int(1)]));
    assert!(runtime.stack.is_empty());
}

#[test]
fn a_table_arrives_with_its_entry() {
    let mut runtime =
        Runtime::new(vec![Sim::Table(vec![(Sim::Str("a".to_string()), Sim::Int(1))])]);
    let got = value_of(runtime.materialize(None));
    match got {
        Object::Table(table) => {
            assert_eq!(table.len(), 1);
            assert_eq!(table.get(&key("a")), Some(&Object::Int(1)));
            assert_eq!(table.get(&key("b")), None);
            let entries = table.into_entries();
            assert_eq!(entries.len(), 1);
            assert_eq!(entries[0].0, key("a"));
            assert_eq!(entries[0].1, Object::Int(1));
        }
        other => panic!("no table: {:?}", other),
    }
    assert!(runtime.stack.is_empty());
}

#[test]
fn a_list_is_copied_item_by_item() {
    let mut runtime = Runtime::new(vec![Sim::List(vec![Sim::Bool(true), Sim::Int(5)])]);
    value_of(runtime.materialize(Some(Type::List)));
    assert_eq!(
        runtime.performed,
        vec![
            StackOp::PeekType,
            StackOp::CloneTop,
            StackOp::Len,
            StackOp::PopInt,
            StackOp::ListGet(0),
            StackOp::PeekType,
            StackOp::PopBool,
            StackOp::ListGet(1),
            StackOp::PeekType,
            StackOp::PopInt,
            StackOp::Pop,
        ]
    );
}

#[test]
fn a_table_is_copied_value_before_key() {
    let mut runtime =
        Runtime::new(vec![Sim::Table(vec![(Sim::Str("a".to_string()), Sim::Int(1))])]);
    value_of(runtime.materialize(None));
    assert_eq!(
        runtime.performed,
        vec![
            StackOp::PeekType,
            StackOp::PushUndef,
            StackOp::TableNext,
            StackOp::PeekType,
            StackOp::PopInt,
            StackOp::CloneTop,
            StackOp::PeekType,
            StackOp::PopStr,
            StackOp::TableNext,
            StackOp::Pop,
        ]
    );
}

#[test]
fn a_table_of_n_entries_is_walked_in_n_plus_one_steps() {
    for n in 0..6usize {
        let entries: Vec<(Sim, Sim)> =
            (0..n).map(|i| (Sim::Int(i as i64 * 10), Sim::Int(i as i64))).collect();
        let mut runtime = Runtime::new(vec![Sim::Table(entries)]);
        let got = value_of(runtime.materialize(None));
        assert_eq!(runtime.count(StackOp::TableNext), n + 1);
        match got {
            Object::Table(table) => {
                assert_eq!(table.len(), n);
                for i in 0..n {
                    assert_eq!(
                        table.get(&HashableObject::Int(i as i64 * 10)),
                        Some(&Object::Int(i as i64))
                    );
                }
            }
            other => panic!("no table: {:?}", other),
        }
        assert!(runtime.stack.is_empty());
    }
}

#[test]
fn scalars_come_back_as_they_went() {
    round_trip(Object::Bool(true));
    round_trip(Object::Bool(false));
    round_trip(Object::Int(0));
    round_trip(Object::Int(i64::MIN));
    round_trip(Object::Int(i64::MAX));
    round_trip(Object::Float(1.5f64.to_bits()));
    round_trip(Object::Float(f64::NAN.to_bits()));
    round_trip(Object::Float((-0.0f64).to_bits()));
    round_trip(text(""));
    round_trip(text("hello"));
    round_trip(Object::Undef);
}

#[test]
fn foreign_values_come_back_with_address_and_tag() {
    round_trip(Object::UserPtr(0));
    round_trip(Object::UserPtr(0xdead_beef));
    round_trip(Object::UserData { data: 0x1000, tag: Some(b"quaternion".to_vec()) });
    round_trip(Object::UserData { data: 0x2000, tag: None });
    let mut runtime = Runtime::new(vec![Sim::UserData(0x1000, Some(b"quaternion".to_vec()))]);
    value_of(runtime.materialize(None));
    assert_eq!(
        runtime.performed,
        vec![StackOp::PeekType, StackOp::PeekTypeName, StackOp::PopUserData]
    );
}

#[test]
fn nested_values_come_back_as_they_went() {
    let mut inner = Table::new();
    inner.insert(key("x"), Object::List(vec![Object::Int(1), text("two")]));
    inner.insert(HashableObject::Int(3), Object::Bool(false));
    inner.insert(HashableObject::Bool(true), Object::Undef);
    let mut outer = Table::new();
    outer.insert(key("inner"), Object::Table(inner));
    outer.insert(HashableObject::UserPtr(16), Object::List(Vec::new()));
    round_trip(Object::List(vec![
        Object::Table(outer),
        Object::List(vec![Object::List(Vec::new())]),
        Object::Table(Table::new()),
    ]));
}

#[test]
fn an_empty_list_and_an_empty_table() {
    round_trip(Object::List(Vec::new()));
    round_trip(Object::Table(Table::new()));
}

#[test]
fn functions_become_undef() {
    for f in [Sim::Fn, Sim::Closure, Sim::CFn] {
        let mut runtime = Runtime::new(vec![Sim::Int(1), f]);
        assert_eq!(value_of(runtime.materialize(None)), Object::Undef);
        assert_eq!(runtime.stack, vec![Sim::Int(1)]);
        assert_eq!(runtime.performed, vec![StackOp::PeekType, StackOp::Pop]);
    }
}

#[test]
fn an_unexpected_type_fails_and_leaves_the_stack() {
    let mut runtime = Runtime::new(vec![Sim::Int(1)]);
    match runtime.materialize(Some(Type::Str)) {
        Outcome::Failed(StateError::TypeError) => {}
        other => panic!("no type error: {:?}", other),
    }
    assert_eq!(runtime.stack, vec![Sim::Int(1)]);
    assert_eq!(runtime.performed, vec![StackOp::PeekType]);
}

#[test]
fn the_expected_type_holds_for_the_top_only() {
    let mut runtime = Runtime::new(vec![Sim::List(vec![Sim::List(vec![Sim::Int(1)]), Sim::Int(2)])]);
    let got = value_of(runtime.materialize(Some(Type::List)));
    assert_eq!(
        got,
        Object::List(vec![Object::List(vec![Object::Int(1)]), Object::Int(2)])
    );
}

#[test]
fn an_error_of_the_runtime_ends_the_marshaler() {
    let (mut machine, _) = Materializer::begin(None);
    assert!(matches!(machine.step(Reply::Type(Type::List)), Step::Perform(StackOp::CloneTop)));
    assert!(matches!(machine.step(Reply::Performed), Step::Perform(StackOp::Len)));
    assert!(matches!(machine.step(Reply::Performed), Step::Perform(StackOp::PopInt)));
    assert!(matches!(machine.step(Reply::Int(2)), Step::Perform(StackOp::ListGet(0))));
    match machine.step(Reply::Status(Err(StateError::ValueError))) {
        Step::Done(Outcome::Failed(StateError::ValueError)) => {}
        other => panic!("no value error: {:?}", other),
    }
}

#[test]
fn a_length_below_zero_is_an_empty_list() {
    let (mut machine, _) = Materializer::begin(None);
    machine.step(Reply::Type(Type::List));
    machine.step(Reply::Performed);
    machine.step(Reply::Performed);
    assert!(matches!(machine.step(Reply::Int(-1)), Step::Perform(StackOp::Pop)));
    match machine.step(Reply::Performed) {
        Step::Done(Outcome::Value(Object::List(items))) => assert!(items.is_empty()),
        other => panic!("no list: {:?}", other),
    }
}

#[test]
fn a_missing_string_is_the_empty_string() {
    let (mut machine, _) = Materializer::begin(None);
    assert!(matches!(machine.step(Reply::Type(Type::Str)), Step::Perform(StackOp::PopStr)));
    match machine.step(Reply::Str(None)) {
        Step::Done(Outcome::Value(Object::Str(s))) => assert_eq!(s, ""),
        other => panic!("no string: {:?}", other),
    }
}

#[test]
fn a_key_that_cannot_be_hashed_is_a_fault() {
    let mut runtime = Runtime::new(vec![Sim::Table(vec![(Sim::List(Vec::new()), Sim::Int(1))])]);
    match runtime.materialize(None) {
        Outcome::Fault(Fault::InvalidKey(Type::List)) => {}
        other => panic!("no fault: {:?}", other),
    }
}

#[test]
fn a_reply_that_answers_nothing_is_a_fault() {
    let (mut machine, _) = Materializer::begin(None);
    match machine.step(Reply::Bool(true)) {
        Step::Done(Outcome::Fault(Fault::Protocol)) => {}
        other => panic!("no fault: {:?}", other),
    }
    match machine.step(Reply::Type(Type::Int)) {
        Step::Done(Outcome::Fault(Fault::Protocol)) => {}
        other => panic!("a finished machine went on: {:?}", other),
    }
}

#[test]
fn a_typed_pop_always_takes_the_top() {
    assert_eq!(typed_pop(Type::Bool, Type::Bool), StackOp::PopBool);
    assert_eq!(typed_pop(Type::Int, Type::Int), StackOp::PopInt);
    assert_eq!(typed_pop(Type::Float, Type::Float), StackOp::PopFloat);
    assert_eq!(typed_pop(Type::Str, Type::Str), StackOp::PopStr);
    assert_eq!(typed_pop(Type::UserPtr, Type::UserPtr), StackOp::PopUserPtr);
    assert_eq!(typed_pop(Type::UserData, Type::UserData), StackOp::PopUserData);
    assert_eq!(typed_pop(Type::List, Type::List), StackOp::Pop);
    assert_eq!(typed_pop(Type::Bool, Type::Int), StackOp::Pop);
    assert_eq!(typed_pop(Type::UserData, Type::UserPtr), StackOp::Pop);
    for top in [Sim::Bool(true), Sim::Int(3), Sim::List(Vec::new()), Sim::Undef] {
        let mut runtime = Runtime::new(vec![Sim::Int(9), top.clone()]);
        let reply = runtime.perform(typed_pop(Type::Bool, kind(&top)));
        assert_eq!(runtime.stack, vec![Sim::Int(9)]);
        match (top, reply) {
            (Sim::Bool(b), Reply::Bool(r)) => assert_eq!(b, r),
            (Sim::Bool(_), other) => panic!("the boolean was lost: {:?}", other),
            (_, Reply::Performed) => {}
            (_, other) => panic!("a value out of nothing: {:?}", other),
        }
    }
}

/// A value made from a seed: every kind of value, nested up to `depth`.
fn made(seed: &mut u64, depth: u32) -> Object {
    *seed = seed.wrapping_mul(6364136223846793005).wrapping_add(1442695040888963407);
    let pick = (*seed >> 33) % if depth == 0 { 7 } else { 9 };
    let n = (*seed >> 40) % 4;
    match pick {
        0 => Object::Bool(n % 2 == 0),
        1 => Object::Int((*seed >> 20) as i64 - (1 << 40)),
        2 => Object::Float(((n as f64) * 0.75 - 1.0).to_bits()),
        3 => text(&format!("s{}", n)),
        4 => Object::UserPtr((*seed >> 50) as usize),
        5 => Object::UserData { data: 8 * (n as usize + 1), tag: Some(format!("tag{}", n).into_bytes()) },
        6 => Object::Undef,
        7 => Object::List((0..n).map(|_| made(seed, depth - 1)).collect()),
        _ => {
            let mut table = Table::new();
            for i in 0..n {
                let k = match i % 4 {
                    0 => HashableObject::Int(i as i64),
                    1 => key(&format!("k{}", i)),
                    2 => HashableObject::Bool(true),
                    _ => HashableObject::UserPtr(64),
                };
                table.insert(k, made(seed, depth - 1));
            }
            Object::Table(table)
        }
    }
}

#[test]
fn many_values_come_back_as_they_went() {
    let mut seed = 2023u64;
    for _ in 0..300 {
        round_trip(made(&mut seed, 3));
    }
}

#[test]
fn the_marshaler_takes_no_more_than_the_top() {
    let mut seed = 7u64;
    for _ in 0..50 {
        let v = made(&mut seed, 2);
        let mut runtime = Runtime::new(vec![on_stack(&v)]);
        assert_eq!(value_of(runtime.materialize(None)), v);
        assert!(runtime.stack.is_empty());
    }
}
