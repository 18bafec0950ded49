//! The marshaler: it copies the value on top of the stack, with everything
//! that the value holds, into an owned host value.
//!
//! The marshaler never touches the stack itself. It is a state machine: it
//! names the next operation on the stack, its driver performs the operation
//! and hands the reply of the runtime back, until the machine is done.

use vstd::prelude::*;
use crate::object::{lemma_list_view, list_view, HashableObject, Key, Object, Value};
use crate::stack::{Answer, Reply, StackOp};
use crate::status::{StateError, Type};
use crate::table::Table;

verus! {

/// What the machine waits for: the reply to the operation that it named
/// last.
#[derive(Clone, Copy, Debug, PartialEq, Eq, Structural)]
pub enum Phase {
    /// The type of the value that is to be copied next.
    Kind,
    /// The boolean that was popped.
    Bool,
    /// The integer that was popped.
    Int,
    /// The float that was popped.
    Float,
    /// The string that was popped.
    Str,
    /// The pointer that was popped.
    UserPtr,
    /// The tag of the foreign data on top.
    Tag,
    /// The address of the foreign data that was popped.
    UserData,
    /// The removal of a value that has no host form.
    Discard,
    /// The copy of the list, made for taking its length.
    ListCopy,
    /// The replacement of that copy by its length.
    ListLen,
    /// The length that was popped.
    ListLenValue,
    /// The push of the next item of the list.
    ListItem,
    /// The removal of the list, after its last item.
    ListDrop,
    /// The push of `undef`, the cursor for the first entry of the table.
    TableCursor,
    /// Whether the table had a next entry.
    TableEntry,
    /// The copy of the key, which stays behind as the cursor.
    TableKeyCopy,
    /// The removal of the table, after its last entry.
    TableDrop,
    /// Nothing: the machine is done.
    Finished,
}

/// A breach of what the protocol promises, by the runtime or by the driver.
#[derive(Clone, Copy, Debug, PartialEq, Eq, Structural)]
pub enum Fault {
    /// The runtime handed out a key of the given type, which no table can
    /// have.
    InvalidKey(Type),
    /// The reply does not answer the operation that the machine had named.
    Protocol,
}

/// How the machine ended.
#[derive(Debug)]
pub enum Outcome<V> {
    /// The value that was on top of the stack.
    Value(V),
    /// The error that the runtime reported, or a type error where the value
    /// was not of the type that the caller expected.
    Failed(StateError),
    Fault(Fault),
}

/// What the machine wants next.
#[derive(Debug)]
pub enum Step<V> {
    /// The driver is to perform the operation and to hand back the reply.
    Perform(StackOp),
    Done(Outcome<V>),
}

impl View for Outcome<Object> {
    type V = Outcome<Value>;

    open spec fn view(&self) -> Outcome<Value> {
        match self {
            Outcome::Value(v) => Outcome::Value(v@),
            Outcome::Failed(e) => Outcome::Failed(*e),
            Outcome::Fault(f) => Outcome::Fault(*f),
        }
    }
}

impl View for Step<Object> {
    type V = Step<Value>;

    open spec fn view(&self) -> Step<Value> {
        match self {
            Step::Perform(op) => Step::Perform(*op),
            Step::Done(outcome) => Step::Done(outcome@),
        }
    }
}

/// A list or a table of which the machine has copied a part.
pub enum Frame {
    /// A list of the given length, with the items copied so far.
    List { len: i64, items: Seq<Value> },
    /// A table, with the entries copied so far, and the value of the entry
    /// whose key is being copied.
    Table { entries: Map<Key, Value>, value: Option<Value> },
}

/// The state of the marshaler.
pub struct Machine {
    /// The type that the caller expects of the value, if any.
    pub expected: Option<Type>,
    pub phase: Phase,
    /// The lists and tables that are being copied, the innermost last.
    pub frames: Seq<Frame>,
    /// The tag of the foreign data that is being copied.
    pub tag: Option<Seq<u8>>,
}

impl Machine {
    /// The machine before its first step. It starts by asking for the type
    /// of the top of the stack.
    pub open spec fn start(expected: Option<Type>) -> Machine {
        Machine { expected, phase: Phase::Kind, frames: Seq::empty(), tag: None }
    }

    /// The machine names an operation and waits for its reply.
    pub open spec fn ask(self, phase: Phase, op: StackOp) -> (Machine, Step<Value>) {
        (Machine { phase, ..self }, Step::Perform(op))
    }

    /// The machine ends, and keeps nothing.
    pub open spec fn finish(self, outcome: Outcome<Value>) -> (Machine, Step<Value>) {
        (
            Machine {
                expected: self.expected,
                phase: Phase::Finished,
                frames: Seq::empty(),
                tag: None,
            },
            Step::Done(outcome),
        )
    }

    /// The machine goes on with a list of which it has the given items: it
    /// asks for the next item, or removes the list after the last one.
    pub open spec fn next_item(self, len: i64, items: Seq<Value>) -> (Machine, Step<Value>) {
        let m = Machine { frames: self.frames.push(Frame::List { len, items }), ..self };
        if items.len() < len {
            m.ask(Phase::ListItem, StackOp::ListGet(items.len() as i64))
        } else {
            m.ask(Phase::ListDrop, StackOp::Pop)
        }
    }

    /// The machine has copied a whole value. That is its result, or the next
    /// item of the innermost list, or the value or the key of the next entry
    /// of the innermost table. A table's entry is inserted once its value
    /// and then its key have been copied.
    pub open spec fn deliver(self, v: Value) -> (Machine, Step<Value>) {
        if self.frames.len() == 0 {
            self.finish(Outcome::Value(v))
        } else {
            let rest = self.frames.drop_last();
            match self.frames.last() {
                Frame::List { len, items } => Machine { frames: rest, ..self }.next_item(
                    len,
                    items.push(v),
                ),
                Frame::Table { entries, value: None } => Machine {
                    frames: rest.push(Frame::Table { entries, value: Some(v) }),
                    ..self
                }.ask(Phase::TableKeyCopy, StackOp::CloneTop),
                Frame::Table { entries, value: Some(held) } => match v.as_key() {
                    Ok(k) => Machine {
                        frames: rest.push(
                            Frame::Table { entries: entries.insert(k, held), value: None },
                        ),
                        ..self
                    }.ask(Phase::TableEntry, StackOp::TableNext),
                    Err(t) => self.finish(Outcome::Fault(Fault::InvalidKey(t))),
                },
            }
        }
    }

    /// The machine has learnt the type of the value on top, and names the
    /// operation that starts to copy a value of that type.
    pub open spec fn dispatch(self, t: Type) -> (Machine, Step<Value>) {
        match t {
            Type::Bool => self.ask(Phase::Bool, StackOp::PopBool),
            Type::Int => self.ask(Phase::Int, StackOp::PopInt),
            Type::Float => self.ask(Phase::Float, StackOp::PopFloat),
            Type::Str => self.ask(Phase::Str, StackOp::PopStr),
            Type::List => self.ask(Phase::ListCopy, StackOp::CloneTop),
            Type::Table => self.ask(Phase::TableCursor, StackOp::PushUndef),
            Type::UserData => self.ask(Phase::Tag, StackOp::PeekTypeName),
            Type::UserPtr => self.ask(Phase::UserPtr, StackOp::PopUserPtr),
            _ => self.ask(Phase::Discard, StackOp::Pop),
        }
    }

    /// One step of the machine: from its state and the reply to the
    /// operation that it named last, to its next state and what it wants
    /// next.
    pub open spec fn next(self, answer: Answer) -> (Machine, Step<Value>) {
        match (self.phase, answer) {
            (Phase::Kind, Answer::Type(t)) => {
                if self.frames.len() == 0 && self.expected is Some && self.expected != Some(t) {
                    self.finish(Outcome::Failed(StateError::TypeError))
                } else {
                    self.dispatch(t)
                }
            },
            (Phase::Bool, Answer::Bool(b)) => self.deliver(Value::Bool(b)),
            (Phase::Int, Answer::Int(i)) => self.deliver(Value::Int(i)),
            (Phase::Float, Answer::Float(f)) => self.deliver(Value::Float(f)),
            (Phase::Str, Answer::Str(s)) => self.deliver(
                Value::Str(
                    match s {
                        Some(text) => text,
                        None => Seq::empty(),
                    },
                ),
            ),
            (Phase::UserPtr, Answer::Address(p)) => self.deliver(Value::UserPtr(p)),
            (Phase::Tag, Answer::TypeName(tag)) => Machine { tag, ..self }.ask(
                Phase::UserData,
                StackOp::PopUserData,
            ),
            (Phase::UserData, Answer::Address(data)) => Machine { tag: None, ..self }.deliver(
                Value::UserData { data, tag: self.tag },
            ),
            (Phase::Discard, Answer::Performed) => self.deliver(Value::Undef),
            (Phase::ListCopy, Answer::Performed) => self.ask(Phase::ListLen, StackOp::Len),
            (Phase::ListLen, Answer::Performed) => self.ask(Phase::ListLenValue, StackOp::PopInt),
            (Phase::ListLenValue, Answer::Int(len)) => self.next_item(len, Seq::empty()),
            (Phase::ListItem, Answer::Status(Ok(_))) => self.ask(Phase::Kind, StackOp::PeekType),
            (Phase::ListItem, Answer::Status(Err(e))) => self.finish(Outcome::Failed(e)),
            (Phase::ListDrop, Answer::Performed) => {
                if self.frames.len() > 0 && self.frames.last() is List {
                    Machine { frames: self.frames.drop_last(), ..self }.deliver(
                        Value::List(self.frames.last()->items),
                    )
                } else {
                    self.finish(Outcome::Fault(Fault::Protocol))
                }
            },
            (Phase::TableCursor, Answer::Performed) => Machine {
                frames: self.frames.push(Frame::Table { entries: Map::empty(), value: None }),
                ..self
            }.ask(Phase::TableEntry, StackOp::TableNext),
            (Phase::TableEntry, Answer::More(more)) => {
                if more {
                    self.ask(Phase::Kind, StackOp::PeekType)
                } else {
                    self.ask(Phase::TableDrop, StackOp::Pop)
                }
            },
            (Phase::TableKeyCopy, Answer::Performed) => self.ask(Phase::Kind, StackOp::PeekType),
            (Phase::TableDrop, Answer::Performed) => {
                if self.frames.len() > 0 && self.frames.last() is Table {
                    Machine { frames: self.frames.drop_last(), ..self }.deliver(
                        Value::Table(self.frames.last()->entries),
                    )
                } else {
                    self.finish(Outcome::Fault(Fault::Protocol))
                }
            },
            _ => self.finish(Outcome::Fault(Fault::Protocol)),
        }
    }
}

/// A list or a table under construction.
enum Builder {
    List { len: i64, items: Vec<Object> },
    Table { table: Table, value: Option<Object> },
}

impl View for Builder {
    type V = Frame;

    closed spec fn view(&self) -> Frame {
        match self {
            Builder::List { len, items } => Frame::List { len: *len, items: list_view(items@) },
            Builder::Table { table, value } => Frame::Table {
                entries: table@,
                value: match value {
                    Some(v) => Some(v@),
                    None => None,
                },
            },
        }
    }
}

spec fn frames_view(frames: Seq<Builder>) -> Seq<Frame> {
    Seq::new(frames.len(), |i: int| frames[i]@)
}

/// The marshaler. Its view is the state of the machine.
pub struct Materializer {
    expected: Option<Type>,
    phase: Phase,
    frames: Vec<Builder>,
    tag: Option<Vec<u8>>,
}

impl View for Materializer {
    type V = Machine;

    closed spec fn view(&self) -> Machine {
        Machine {
            expected: self.expected,
            phase: self.phase,
            frames: frames_view(self.frames@),
            tag: match self.tag {
                Some(t) => Some(t@),
                None => None,
            },
        }
    }
}

impl Materializer {
    /// A marshaler for the value on top of the stack, and the first
    /// operation that it wants performed. Where `expected` names a type and
    /// the value is of another, the marshaler fails with a type error and
    /// leaves the stack as it is.
    pub fn begin(expected: Option<Type>) -> (r: (Materializer, StackOp))
        ensures
            r.0@ == Machine::start(expected),
            r.1 == StackOp::PeekType,
    {
        let m = Materializer { expected, phase: Phase::Kind, frames: Vec::new(), tag: None };
        assert(frames_view(m.frames@) =~= Seq::empty());
        (m, StackOp::PeekType)
    }

    fn ask(&mut self, phase: Phase, op: StackOp) -> (step: Step<Object>)
        ensures
            (final(self)@, step@) == old(self)@.ask(phase, op),
    {
        self.phase = phase;
        Step::Perform(op)
    }

    fn finish(&mut self, outcome: Outcome<Object>) -> (step: Step<Object>)
        ensures
            (final(self)@, step@) == old(self)@.finish(outcome@),
    {
        self.phase = Phase::Finished;
        self.frames = Vec::new();
        self.tag = None;
        assert(frames_view(self.frames@) =~= Seq::empty());
        Step::Done(outcome)
    }

    fn push_frame(&mut self, frame: Builder)
        ensures
            final(self)@ == (Machine { frames: old(self)@.frames.push(frame@), ..old(self)@ }),
    {
        self.frames.push(frame);
        assert(frames_view(self.frames@) =~= frames_view(old(self).frames@).push(frame@));
    }

    fn pop_frame(&mut self) -> (frame: Option<Builder>)
        ensures
            frame is Some <==> old(self)@.frames.len() > 0,
            frame is None ==> final(self)@ == old(self)@,
            frame matches Some(f) ==> f@ == old(self)@.frames.last() && final(self)@ == (Machine {
                frames: old(self)@.frames.drop_last(),
                ..old(self)@
            }),
    {
        let frame = self.frames.pop();
        assert(frame is Some ==> frames_view(self.frames@) =~= frames_view(
            old(self).frames@,
        ).drop_last());
        frame
    }

    fn next_item(&mut self, len: i64, items: Vec<Object>) -> (step: Step<Object>)
        ensures
            (final(self)@, step@) == old(self)@.next_item(len, list_view(items@)),
    {
        let have = items.len();
        self.push_frame(Builder::List { len, items });
        if len > 0 && (have as u64) < (len as u64) {
            self.ask(Phase::ListItem, StackOp::ListGet(have as i64))
        } else {
            self.ask(Phase::ListDrop, StackOp::Pop)
        }
    }

    fn deliver(&mut self, v: Object) -> (step: Step<Object>)
        ensures
            (final(self)@, step@) == old(self)@.deliver(v@),
    {
        match self.pop_frame() {
            None => self.finish(Outcome::Value(v)),
            Some(Builder::List { len, items }) => {
                let mut items = items;
                let ghost before = list_view(items@);
                items.push(v);
                assert(list_view(items@) =~= before.push(v@));
                self.next_item(len, items)
            },
            Some(Builder::Table { table, value: None }) => {
                self.push_frame(Builder::Table { table, value: Some(v) });
                self.ask(Phase::TableKeyCopy, StackOp::CloneTop)
            },
            Some(Builder::Table { table, value: Some(held) }) => {
                match HashableObject::try_from(v) {
                    Ok(k) => {
                        let mut table = table;
                        table.insert(k, held);
                        self.push_frame(Builder::Table { table, value: None });
                        self.ask(Phase::TableEntry, StackOp::TableNext)
                    },
                    Err(t) => self.finish(Outcome::Fault(Fault::InvalidKey(t))),
                }
            },
        }
    }

    fn dispatch(&mut self, t: Type) -> (step: Step<Object>)
        ensures
            (final(self)@, step@) == old(self)@.dispatch(t),
    {
        match t {
            Type::Bool => self.ask(Phase::Bool, StackOp::PopBool),
            Type::Int => self.ask(Phase::Int, StackOp::PopInt),
            Type::Float => self.ask(Phase::Float, StackOp::PopFloat),
            Type::Str => self.ask(Phase::Str, StackOp::PopStr),
            Type::List => self.ask(Phase::ListCopy, StackOp::CloneTop),
            Type::Table => self.ask(Phase::TableCursor, StackOp::PushUndef),
            Type::UserData => self.ask(Phase::Tag, StackOp::PeekTypeName),
            Type::UserPtr => self.ask(Phase::UserPtr, StackOp::PopUserPtr),
            _ => self.ask(Phase::Discard, StackOp::Pop),
        }
    }

    /// Takes the reply to the operation that the machine named last, and
    /// says what the machine wants next: one more operation, or nothing,
    /// with the value or the failure that the machine ends on.
    pub fn step(&mut self, reply: Reply) -> (step: Step<Object>)
        ensures
            (final(self)@, step@) == old(self)@.next(reply@),
    {
        match (self.phase, reply) {
            (Phase::Kind, Reply::Type(t)) => {
                let mismatch = match self.expected {
                    Some(e) => e != t,
                    None => false,
                };
                if self.frames.len() == 0 && mismatch {
                    self.finish(Outcome::Failed(StateError::TypeError))
                } else {
                    self.dispatch(t)
                }
            },
            (Phase::Bool, Reply::Bool(b)) => self.deliver(Object::Bool(b)),
            (Phase::Int, Reply::Int(i)) => self.deliver(Object::Int(i)),
            (Phase::Float, Reply::Float(f)) => self.deliver(Object::Float(f)),
            (Phase::Str, Reply::Str(s)) => {
                let text = match s {
                    Some(text) => text,
                    None => String::new(),
                };
                self.deliver(Object::Str(text))
            },
            (Phase::UserPtr, Reply::Address(p)) => self.deliver(Object::UserPtr(p)),
            (Phase::Tag, Reply::TypeName(tag)) => {
                self.tag = tag;
                self.ask(Phase::UserData, StackOp::PopUserData)
            },
            (Phase::UserData, Reply::Address(data)) => {
                let tag = self.tag.take();
                self.deliver(Object::UserData { data, tag })
            },
            (Phase::Discard, Reply::Performed) => self.deliver(Object::Undef),
            (Phase::ListCopy, Reply::Performed) => self.ask(Phase::ListLen, StackOp::Len),
            (Phase::ListLen, Reply::Performed) => self.ask(Phase::ListLenValue, StackOp::PopInt),
            (Phase::ListLenValue, Reply::Int(len)) => {
                let items: Vec<Object> = Vec::new();
                assert(list_view(items@) =~= Seq::empty());
                self.next_item(len, items)
            },
            (Phase::ListItem, Reply::Status(Ok(_))) => self.ask(Phase::Kind, StackOp::PeekType),
            (Phase::ListItem, Reply::Status(Err(e))) => self.finish(Outcome::Failed(e)),
            (Phase::ListDrop, Reply::Performed) => {
                match self.pop_frame() {
                    Some(Builder::List { len, items }) => {
                        proof {
                            lemma_list_view(items);
                        }
                        self.deliver(Object::List(items))
                    },
                    _ => self.finish(Outcome::Fault(Fault::Protocol)),
                }
            },
            (Phase::TableCursor, Reply::Performed) => {
                self.push_frame(Builder::Table { table: Table::new(), value: None });
                self.ask(Phase::TableEntry, StackOp::TableNext)
            },
            (Phase::TableEntry, Reply::More(more)) => {
                if more {
                    self.ask(Phase::Kind, StackOp::PeekType)
                } else {
                    self.ask(Phase::TableDrop, StackOp::Pop)
                }
            },
            (Phase::TableKeyCopy, Reply::Performed) => self.ask(Phase::Kind, StackOp::PeekType),
            (Phase::TableDrop, Reply::Performed) => {
                match self.pop_frame() {
                    Some(Builder::Table { table, value }) => self.deliver(Object::Table(table)),
                    _ => self.finish(Outcome::Fault(Fault::Protocol)),
                }
            },
            _ => self.finish(Outcome::Fault(Fault::Protocol)),
        }
    }
}

} // verus!
