//! Owned host values: what a value of the runtime becomes once it has been
//! copied out of the stack.

use vstd::prelude::*;
use vstd::std_specs::cmp::PartialEqSpecImpl;
use vstd::std_specs::convert::{FromSpecImpl, TryFromSpecImpl};
use crate::status::Type;
use crate::table::Table;

verus! {

/// A float held as its IEEE-754 bit pattern, so that equality and hashing
/// agree on every value, `NaN` and the two zeros included.
#[derive(Clone, Copy, Debug, PartialEq, Eq, Hash, Structural)]
pub struct HashableF64 {
    pub bits: u64,
}

impl HashableF64 {
    /// The float with the given bit pattern.
    pub fn from_bits(bits: u64) -> (f: HashableF64)
        ensures
            f.bits == bits,
    {
        HashableF64 { bits }
    }

    /// The bit pattern of the float.
    pub fn to_bits(self) -> (bits: u64)
        ensures
            bits == self.bits,
    {
        self.bits
    }
}

/// What a `HashableObject` is: a scalar. Strings are their characters,
/// floats their bit patterns, pointers their addresses.
pub enum Key {
    Bool(bool),
    Int(i64),
    Float(u64),
    Str(Seq<char>),
    UserPtr(usize),
    Undef,
}

/// What an `Object` is. A list is the sequence of its items, a table the map
/// from its keys to their values.
pub enum Value {
    Bool(bool),
    Int(i64),
    Float(u64),
    Str(Seq<char>),
    List(Seq<Value>),
    Table(Map<Key, Value>),
    UserData { data: usize, tag: Option<Seq<u8>> },
    UserPtr(usize),
    Undef,
}

impl Key {
    /// The value that the key is when it is no longer used as a key.
    pub open spec fn value(self) -> Value {
        match self {
            Key::Bool(b) => Value::Bool(b),
            Key::Int(i) => Value::Int(i),
            Key::Float(f) => Value::Float(f),
            Key::Str(s) => Value::Str(s),
            Key::UserPtr(p) => Value::UserPtr(p),
            Key::Undef => Value::Undef,
        }
    }
}

impl Value {
    /// The type tag of the value.
    pub open spec fn kind(self) -> Type {
        match self {
            Value::Bool(_) => Type::Bool,
            Value::Int(_) => Type::Int,
            Value::Float(_) => Type::Float,
            Value::Str(_) => Type::Str,
            Value::List(_) => Type::List,
            Value::Table(_) => Type::Table,
            Value::UserData { .. } => Type::UserData,
            Value::UserPtr(_) => Type::UserPtr,
            Value::Undef => Type::Undef,
        }
    }

    /// The value as a key of a table, or its type where it cannot be one: a
    /// list, a table and foreign data cannot.
    pub open spec fn as_key(self) -> Result<Key, Type> {
        match self {
            Value::Bool(b) => Ok(Key::Bool(b)),
            Value::Int(i) => Ok(Key::Int(i)),
            Value::Float(f) => Ok(Key::Float(f)),
            Value::Str(s) => Ok(Key::Str(s)),
            Value::UserPtr(p) => Ok(Key::UserPtr(p)),
            Value::Undef => Ok(Key::Undef),
            _ => Err(self.kind()),
        }
    }
}

/// A key that is made a value is a value that can be made a key again, and
/// then it is the key that it was.
pub proof fn lemma_key_round_trip(k: Key)
    ensures
        k.value().as_key() == Ok::<Key, Type>(k),
{
}

/// Every value can be a key but a list, a table and foreign data, and a
/// value that is made a key is still the value that it was.
pub proof fn lemma_as_key(v: Value)
    ensures
        v.as_key() is Ok <==> !(v is List || v is Table || v is UserData),
        v.as_key() matches Ok(k) ==> k.value() == v,
        v.as_key() matches Err(t) ==> t == v.kind(),
{
}

/// The values that can be used as keys of a table.
#[derive(Debug, Eq, Hash)]
pub enum HashableObject {
    Bool(bool),
    Int(i64),
    Float(HashableF64),
    Str(String),
    /// The address that the pointer holds; zero for the null pointer.
    UserPtr(usize),
    Undef,
}

/// A value of the runtime, owned by the host.
#[derive(Debug)]
pub enum Object {
    Bool(bool),
    Int(i64),
    /// The IEEE-754 bit pattern of the float.
    Float(u64),
    Str(String),
    List(Vec<Object>),
    Table(Table),
    /// The address of data that the runtime owns, with the tag of its type.
    UserData { data: usize, tag: Option<Vec<u8>> },
    /// The address that the pointer holds; zero for the null pointer.
    UserPtr(usize),
    Undef,
}

impl View for HashableObject {
    type V = Key;

    open spec fn view(&self) -> Key {
        match self {
            HashableObject::Bool(b) => Key::Bool(*b),
            HashableObject::Int(i) => Key::Int(*i),
            HashableObject::Float(f) => Key::Float(f.bits),
            HashableObject::Str(s) => Key::Str(s@),
            HashableObject::UserPtr(p) => Key::UserPtr(*p),
            HashableObject::Undef => Key::Undef,
        }
    }
}

impl PartialEq for HashableObject {
    /// Two keys are equal where they are the same scalar.
    fn eq(&self, other: &HashableObject) -> (equal: bool) {
        match (self, other) {
            (HashableObject::Bool(a), HashableObject::Bool(b)) => *a == *b,
            (HashableObject::Int(a), HashableObject::Int(b)) => *a == *b,
            (HashableObject::Float(a), HashableObject::Float(b)) => a.to_bits() == b.to_bits(),
            (HashableObject::Str(a), HashableObject::Str(b)) => *a == *b,
            (HashableObject::UserPtr(a), HashableObject::UserPtr(b)) => *a == *b,
            (HashableObject::Undef, HashableObject::Undef) => true,
            _ => false,
        }
    }
}

impl Clone for HashableObject {
    /// A copy of the key.
    fn clone(&self) -> (copy: HashableObject)
        ensures
            copy@ == self@,
    {
        match self {
            HashableObject::Bool(b) => HashableObject::Bool(*b),
            HashableObject::Int(i) => HashableObject::Int(*i),
            HashableObject::Float(f) => HashableObject::Float(*f),
            HashableObject::Str(s) => HashableObject::Str(s.clone()),
            HashableObject::UserPtr(p) => HashableObject::UserPtr(*p),
            HashableObject::Undef => HashableObject::Undef,
        }
    }
}

impl PartialEqSpecImpl for HashableObject {
    open spec fn obeys_eq_spec() -> bool {
        true
    }

    open spec fn eq_spec(&self, other: &HashableObject) -> bool {
        self@ == other@
    }
}

impl Object {
    /// What the value is: the view of an `Object`.
    pub open spec fn value(&self) -> Value
        decreases self, 0nat,
    {
        match self {
            Object::Bool(b) => Value::Bool(*b),
            Object::Int(i) => Value::Int(*i),
            Object::Float(f) => Value::Float(*f),
            Object::Str(s) => Value::Str(s@),
            Object::List(items) => Value::List(
                Seq::new(
                    items.len() as nat,
                    |i: int|
                        if 0 <= i < items.len() {
                            items[i].value()
                        } else {
                            Value::Undef
                        },
                ),
            ),
            Object::Table(table) => Value::Table(table.map()),
            Object::UserData { data, tag } => Value::UserData {
                data: *data,
                tag: match tag {
                    Some(t) => Some(t@),
                    None => None,
                },
            },
            Object::UserPtr(p) => Value::UserPtr(*p),
            Object::Undef => Value::Undef,
        }
    }
}

impl View for Object {
    type V = Value;

    open spec fn view(&self) -> Value {
        self.value()
    }
}

/// The items of a list, each by its view.
pub open spec fn list_view(items: Seq<Object>) -> Seq<Value> {
    Seq::new(items.len(), |i: int| items[i]@)
}

/// The view of a list is the list of the views of its items.
pub proof fn lemma_list_view(items: Vec<Object>)
    ensures
        Object::List(items)@ == Value::List(list_view(items@)),
{
    assert(Object::List(items).value()->List_0 =~= list_view(items@));
}

impl Object {
    /// The type tag of the value.
    pub fn kind(&self) -> (t: Type)
        ensures
            t == self@.kind(),
    {
        match self {
            Object::Bool(_) => Type::Bool,
            Object::Int(_) => Type::Int,
            Object::Float(_) => Type::Float,
            Object::Str(_) => Type::Str,
            Object::List(_) => Type::List,
            Object::Table(_) => Type::Table,
            Object::UserData { .. } => Type::UserData,
            Object::UserPtr(_) => Type::UserPtr,
            Object::Undef => Type::Undef,
        }
    }

    /// The bit pattern of the float that the value is, or the type of the
    /// value where it is no float.
    pub fn float_bits(self) -> (r: Result<u64, Type>)
        ensures
            r == (match self@ {
                Value::Float(f) => Ok::<u64, Type>(f),
                other => Err(other.kind()),
            }),
    {
        match self {
            Object::Float(f) => Ok(f),
            o => Err(o.kind()),
        }
    }
}

fn same_bytes(a: &Vec<u8>, b: &Vec<u8>) -> (same: bool)
    ensures
        same == (a@ == b@),
{
    if a.len() != b.len() {
        return false;
    }
    let mut i: usize = 0;
    while i < a.len()
        invariant
            i <= a.len(),
            a.len() == b.len(),
            forall|j: int| 0 <= j < i ==> a@[j] == b@[j],
        decreases a.len() - i,
    {
        if a[i] != b[i] {
            return false;
        }
        i += 1;
    }
    assert(a@ =~= b@);
    true
}

fn copy_bytes(a: &Vec<u8>) -> (copy: Vec<u8>)
    ensures
        copy@ == a@,
{
    let mut copy: Vec<u8> = Vec::new();
    let mut i: usize = 0;
    while i < a.len()
        invariant
            i <= a.len(),
            copy@ == a@.take(i as int),
        decreases a.len() - i,
    {
        copy.push(a[i]);
        assert(a@.take(i + 1) =~= a@.take(i as int).push(a@[i as int]));
        i += 1;
    }
    assert(a@.take(a.len() as int) =~= a@);
    copy
}

impl Object {
    /// Whether the two values are the same: equal scalars, lists with the
    /// same items in the same order, tables with the same entries in any
    /// order. Floats are the same where their bit patterns are.
    pub fn same(&self, other: &Object) -> (same: bool)
        ensures
            same == (self@ == other@),
        decreases self,
    {
        match (self, other) {
            (Object::Bool(a), Object::Bool(b)) => *a == *b,
            (Object::Int(a), Object::Int(b)) => *a == *b,
            (Object::Float(a), Object::Float(b)) => *a == *b,
            (Object::Str(a), Object::Str(b)) => *a == *b,
            (Object::List(a), Object::List(b)) => {
                proof {
                    lemma_list_view(*a);
                    lemma_list_view(*b);
                }
                if a.len() != b.len() {
                    assert(list_view(a@).len() != list_view(b@).len());
                    return false;
                }
                let mut i: usize = 0;
                while i < a.len()
                    invariant
                        i <= a.len(),
                        a.len() == b.len(),
                        *self == Object::List(*a),
                        self@ == Value::List(list_view(a@)),
                        other@ == Value::List(list_view(b@)),
                        forall|j: int| 0 <= j < i ==> a@[j]@ == b@[j]@,
                    decreases a.len() - i,
                {
                    proof {
                        assert(decreases_to!(self => self->List_0));
                        assert(decreases_to!(self->List_0 => self->List_0@));
                        assert(decreases_to!(self->List_0@ => self->List_0@[i as int]));
                    }
                    if !a[i].same(&b[i]) {
                        assert(list_view(a@)[i as int] != list_view(b@)[i as int]);
                        return false;
                    }
                    i += 1;
                }
                assert(list_view(a@) =~= list_view(b@));
                true
            },
            (Object::Table(a), Object::Table(b)) => a.same(b),
            (Object::UserData { data: a, tag: s }, Object::UserData { data: b, tag: t }) => {
                if *a != *b {
                    return false;
                }
                match (s, t) {
                    (Some(s), Some(t)) => same_bytes(s, t),
                    (None, None) => true,
                    _ => false,
                }
            },
            (Object::UserPtr(a), Object::UserPtr(b)) => *a == *b,
            (Object::Undef, Object::Undef) => true,
            _ => false,
        }
    }

    /// A copy of the value, with copies of everything that it holds.
    pub fn duplicate(&self) -> (copy: Object)
        ensures
            copy@ == self@,
        decreases self,
    {
        match self {
            Object::Bool(b) => Object::Bool(*b),
            Object::Int(i) => Object::Int(*i),
            Object::Float(f) => Object::Float(*f),
            Object::Str(s) => Object::Str(s.clone()),
            Object::List(items) => {
                let mut copy: Vec<Object> = Vec::new();
                let mut i: usize = 0;
                while i < items.len()
                    invariant
                        i <= items.len(),
                        *self == Object::List(*items),
                        copy@.len() == i,
                        list_view(copy@) == list_view(items@).take(i as int),
                    decreases items.len() - i,
                {
                    proof {
                        assert(decreases_to!(self => self->List_0));
                        assert(decreases_to!(self->List_0 => self->List_0@));
                        assert(decreases_to!(self->List_0@ => self->List_0@[i as int]));
                    }
                    let item = items[i].duplicate();
                    let ghost before = copy@;
                    copy.push(item);
                    assert forall|j: int| 0 <= j <= i implies list_view(copy@)[j] == list_view(
                        items@,
                    )[j] by {
                        if j < i {
                            assert(list_view(before)[j] == list_view(items@).take(i as int)[j]);
                        }
                    }
                    assert(list_view(copy@) =~= list_view(items@).take(i + 1));
                    i += 1;
                }
                proof {
                    lemma_list_view(*items);
                    lemma_list_view(copy);
                    assert(list_view(items@).take(items.len() as int) =~= list_view(items@));
                }
                Object::List(copy)
            },
            Object::Table(table) => Object::Table(table.duplicate()),
            Object::UserData { data, tag } => Object::UserData {
                data: *data,
                tag: match tag {
                    Some(t) => Some(copy_bytes(t)),
                    None => None,
                },
            },
            Object::UserPtr(p) => Object::UserPtr(*p),
            Object::Undef => Object::Undef,
        }
    }
}

impl Clone for Object {
    /// A copy of the value, with copies of everything that it holds.
    fn clone(&self) -> (copy: Object)
        ensures
            copy@ == self@,
    {
        self.duplicate()
    }
}

impl PartialEq for Object {
    /// Two values are equal where they are the same value.
    fn eq(&self, other: &Object) -> (equal: bool) {
        self.same(other)
    }
}

impl PartialEqSpecImpl for Object {
    open spec fn obeys_eq_spec() -> bool {
        true
    }

    open spec fn eq_spec(&self, other: &Object) -> bool {
        self@ == other@
    }
}

impl From<&Object> for Type {
    /// The type tag of the value.
    fn from(value: &Object) -> (t: Type) {
        value.kind()
    }
}

impl FromSpecImpl<&Object> for Type {
    open spec fn obeys_from_spec() -> bool {
        true
    }

    open spec fn from_spec(value: &Object) -> Type {
        value@.kind()
    }
}

impl From<Object> for Type {
    /// The type tag of the value.
    fn from(value: Object) -> (t: Type) {
        value.kind()
    }
}

impl FromSpecImpl<Object> for Type {
    open spec fn obeys_from_spec() -> bool {
        true
    }

    open spec fn from_spec(value: Object) -> Type {
        value@.kind()
    }
}

impl TryFrom<Object> for HashableObject {
    type Error = Type;

    /// The value as a key of a table, or its type where it cannot be one.
    fn try_from(value: Object) -> (r: Result<HashableObject, Type>)
        ensures
            r is Ok <==> value@.as_key() is Ok,
            r matches Ok(k) ==> Ok::<Key, Type>(k@) == value@.as_key(),
            r matches Err(t) ==> Err::<Key, Type>(t) == value@.as_key(),
    {
        match value {
            Object::Bool(b) => Ok(HashableObject::Bool(b)),
            Object::Int(i) => Ok(HashableObject::Int(i)),
            Object::Float(f) => Ok(HashableObject::Float(HashableF64 { bits: f })),
            Object::Str(s) => Ok(HashableObject::Str(s)),
            Object::UserPtr(p) => Ok(HashableObject::UserPtr(p)),
            Object::Undef => Ok(HashableObject::Undef),
            v => Err(v.kind()),
        }
    }
}

impl TryFromSpecImpl<Object> for HashableObject {
    open spec fn obeys_try_from_spec() -> bool {
        true
    }

    open spec fn try_from_spec(value: Object) -> Result<HashableObject, Type> {
        match value {
            Object::Bool(b) => Ok(HashableObject::Bool(b)),
            Object::Int(i) => Ok(HashableObject::Int(i)),
            Object::Float(f) => Ok(HashableObject::Float(HashableF64 { bits: f })),
            Object::Str(s) => Ok(HashableObject::Str(s)),
            Object::UserPtr(p) => Ok(HashableObject::UserPtr(p)),
            Object::Undef => Ok(HashableObject::Undef),
            v => Err(v@.kind()),
        }
    }
}

impl From<HashableObject> for Object {
    /// The key as a value.
    fn from(key: HashableObject) -> (value: Object)
        ensures
            value@ == key@.value(),
    {
        match key {
            HashableObject::Bool(b) => Object::Bool(b),
            HashableObject::Int(i) => Object::Int(i),
            HashableObject::Float(f) => Object::Float(f.bits),
            HashableObject::Str(s) => Object::Str(s),
            HashableObject::UserPtr(p) => Object::UserPtr(p),
            HashableObject::Undef => Object::Undef,
        }
    }
}

impl FromSpecImpl<HashableObject> for Object {
    open spec fn obeys_from_spec() -> bool {
        true
    }

    open spec fn from_spec(key: HashableObject) -> Object {
        match key {
            HashableObject::Bool(b) => Object::Bool(b),
            HashableObject::Int(i) => Object::Int(i),
            HashableObject::Float(f) => Object::Float(f.bits),
            HashableObject::Str(s) => Object::Str(s),
            HashableObject::UserPtr(p) => Object::UserPtr(p),
            HashableObject::Undef => Object::Undef,
        }
    }
}

impl TryFrom<Object> for bool {
    type Error = Type;

    /// The boolean that the value is, or the type of the value where it is
    /// none.
    fn try_from(value: Object) -> (r: Result<bool, Type>) {
        match value {
            Object::Bool(b) => Ok(b),
            o => Err(o.kind()),
        }
    }
}

impl TryFromSpecImpl<Object> for bool {
    open spec fn obeys_try_from_spec() -> bool {
        true
    }

    open spec fn try_from_spec(value: Object) -> Result<bool, Type> {
        match value {
            Object::Bool(b) => Ok(b),
            o => Err(o@.kind()),
        }
    }
}

impl TryFrom<Object> for i64 {
    type Error = Type;

    /// The integer that the value is, or the type of the value where it is
    /// none.
    fn try_from(value: Object) -> (r: Result<i64, Type>) {
        match value {
            Object::Int(i) => Ok(i),
            o => Err(o.kind()),
        }
    }
}

impl TryFromSpecImpl<Object> for i64 {
    open spec fn obeys_try_from_spec() -> bool {
        true
    }

    open spec fn try_from_spec(value: Object) -> Result<i64, Type> {
        match value {
            Object::Int(i) => Ok(i),
            o => Err(o@.kind()),
        }
    }
}

impl TryFrom<Object> for String {
    type Error = Type;

    /// The text that the value is, or the type of the value where it is no
    /// string.
    fn try_from(value: Object) -> (r: Result<String, Type>) {
        match value {
            Object::Str(s) => Ok(s),
            o => Err(o.kind()),
        }
    }
}

impl TryFromSpecImpl<Object> for String {
    open spec fn obeys_try_from_spec() -> bool {
        true
    }

    open spec fn try_from_spec(value: Object) -> Result<String, Type> {
        match value {
            Object::Str(s) => Ok(s),
            o => Err(o@.kind()),
        }
    }
}

impl TryFrom<Object> for Vec<Object> {
    type Error = Type;

    /// The items of the list that the value is, or the type of the value
    /// where it is no list.
    fn try_from(value: Object) -> (r: Result<Vec<Object>, Type>) {
        match value {
            Object::List(items) => Ok(items),
            o => Err(o.kind()),
        }
    }
}

impl TryFromSpecImpl<Object> for Vec<Object> {
    open spec fn obeys_try_from_spec() -> bool {
        true
    }

    open spec fn try_from_spec(value: Object) -> Result<Vec<Object>, Type> {
        match value {
            Object::List(items) => Ok(items),
            o => Err(o@.kind()),
        }
    }
}

} // verus!
