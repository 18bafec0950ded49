use yaslapi::object::{HashableF64, HashableObject, Object};
use yaslapi::status::Type;
use yaslapi::table::Table;

fn text(s: &str) -> Object {
    Object::Str(s.to_string())
}

#[test]
fn a_scalar_can_be_a_key() {
    assert_eq!(HashableObject::try_from(Object::Bool(true)), Ok(HashableObject::Bool(true)));
    assert_eq!(HashableObject::try_from(Object::Int(-3)), Ok(HashableObject::Int(-3)));
    assert_eq!(
        HashableObject::try_from(Object::Float(2.5f64.to_bits())),
        Ok(HashableObject::Float(HashableF64::from_bits(2.5f64.to_bits())))
    );
    assert_eq!(
        HashableObject::try_from(text("a")),
        Ok(HashableObject::Str("a".to_string()))
    );
    assert_eq!(HashableObject::try_from(Object::UserPtr(8)), Ok(HashableObject::UserPtr(8)));
    assert_eq!(HashableObject::try_from(Object::Undef), Ok(HashableObject::Undef));
}

#[test]
fn a_list_a_table_and_foreign_data_cannot_be_keys() {
    assert_eq!(HashableObject::try_from(Object::List(Vec::new())), Err(Type::List));
    assert_eq!(HashableObject::try_from(Object::Table(Table::new())), Err(Type::Table));
    assert_eq!(
        HashableObject::try_from(Object::UserData { data: 1, tag: None }),
        Err(Type::UserData)
    );
}

#[test]
fn a_key_is_a_value_again() {
    let keys = [
        Object::Bool(false),
        Object::Int(9),
        Object::Float(f64::NAN.to_bits()),
        text("k"),
        Object::UserPtr(0),
        Object::Undef,
    ];
    for v in keys {
        let k = HashableObject::try_from(v.clone()).unwrap();
        assert_eq!(Object::from(k), v);
    }
}

#[test]
fn floats_are_keys_by_their_bits() {
    let nan = HashableObject::Float(HashableF64::from_bits(f64::NAN.to_bits()));
    assert_eq!(nan, nan.clone());
    let zero = HashableObject::Float(HashableF64::from_bits(0.0f64.to_bits()));
    let minus_zero = HashableObject::Float(HashableF64::from_bits((-0.0f64).to_bits()));
    assert_ne!(zero, minus_zero);
    assert_eq!(HashableF64::from_bits(7).to_bits(), 7);
    let mut table = Table::new();
    table.insert(zero.clone(), Object::Int(1));
    table.insert(minus_zero.clone(), Object::Int(2));
    table.insert(nan.clone(), Object::Int(3));
    assert_eq!(table.len(), 3);
    assert_eq!(table.get(&zero), Some(&Object::Int(1)));
    assert_eq!(table.get(&minus_zero), Some(&Object::Int(2)));
    assert_eq!(table.get(&nan), Some(&Object::Int(3)));
}

#[test]
fn the_type_of_a_value() {
    assert_eq!(Type::from(&Object::Bool(true)), Type::Bool);
    assert_eq!(Type::from(&Object::Int(1)), Type::Int);
    assert_eq!(Type::from(&Object::Float(0)), Type::Float);
    assert_eq!(Type::from(&text("")), Type::Str);
    assert_eq!(Type::from(&Object::List(Vec::new())), Type::List);
    assert_eq!(Type::from(&Object::Table(Table::new())), Type::Table);
    assert_eq!(Type::from(&Object::UserData { data: 0, tag: None }), Type::UserData);
    assert_eq!(Type::from(&Object::UserPtr(0)), Type::UserPtr);
    assert_eq!(Type::from(&Object::Undef), Type::Undef);
    assert_eq!(Type::from(Object::Int(1)), Type::Int);
    assert_eq!(Object::Undef.kind(), Type::Undef);
}

#[test]
fn a_value_gives_what_it_holds_or_its_type() {
    assert_eq!(bool::try_from(Object::Bool(true)), Ok(true));
    assert_eq!(bool::try_from(Object::Int(1)), Err(Type::Int));
    assert_eq!(i64::try_from(Object::Int(-5)), Ok(-5));
    assert_eq!(i64::try_from(Object::Bool(true)), Err(Type::Bool));
    assert_eq!(String::try_from(text("s")), Ok("s".to_string()));
    assert_eq!(String::try_from(Object::Undef), Err(Type::Undef));
    assert_eq!(
        Vec::<Object>::try_from(Object::List(vec![Object::Int(1)])),
        Ok(vec![Object::Int(1)])
    );
    assert_eq!(Vec::<Object>::try_from(text("s")), Err(Type::Str));
    assert_eq!(Object::Float(3.25f64.to_bits()).float_bits(), Ok(3.25f64.to_bits()));
    assert_eq!(Object::Int(3).float_bits(), Err(Type::Int));
}

#[test]
fn a_table_holds_each_key_once() {
    let mut table = Table::new();
    assert!(table.is_empty());
    assert_eq!(table.len(), 0);
    table.insert(HashableObject::Int(1), text("one"));
    table.insert(HashableObject::Int(2), text("two"));
    table.insert(HashableObject::Int(1), text("uno"));
    assert!(!table.is_empty());
    assert_eq!(table.len(), 2);
    assert_eq!(table.get(&HashableObject::Int(1)), Some(&text("uno")));
    assert_eq!(table.get(&HashableObject::Int(2)), Some(&text("two")));
    assert_eq!(table.get(&HashableObject::Int(3)), None);
    assert!(table.contains_key(&HashableObject::Int(2)));
    assert!(!table.contains_key(&HashableObject::Bool(true)));
    assert_eq!(table.into_entries().len(), 2);
}

#[test]
fn tables_are_equal_in_any_order() {
    let mut one = Table::new();
    one.insert(HashableObject::Int(1), text("a"));
    one.insert(HashableObject::Int(2), text("b"));
    let mut two = Table::new();
    two.insert(HashableObject::Int(2), text("b"));
    two.insert(HashableObject::Int(1), text("a"));
    assert_eq!(one, two);
    assert_eq!(Object::Table(one.clone()), Object::Table(two.clone()));
    two.insert(HashableObject::Int(1), text("c"));
    assert_ne!(one, two);
    two.insert(HashableObject::Int(1), text("a"));
    assert_eq!(one, two);
    two.insert(HashableObject::Int(3), text("a"));
    assert_ne!(one, two);
    assert_ne!(two, one);
}

#[test]
fn values_are_equal_where_they_are_the_same() {
    assert_eq!(Object::Int(1), Object::Int(1));
    assert_ne!(Object::Int(1), Object::Int(2));
    assert_ne!(Object::Int(1), Object::Bool(true));
    assert_ne!(Object::Int(0), Object::Undef);
    assert_eq!(text("a"), text("a"));
    assert_ne!(text("a"), text("b"));
    assert_ne!(Object::List(vec![Object::Int(1)]), Object::List(vec![]));
    assert_ne!(
        Object::List(vec![Object::Int(1), Object::Int(2)]),
        Object::List(vec![Object::Int(2), Object::Int(1)])
    );
    assert_eq!(
        Object::UserData { data: 5, tag: Some(b"t".to_vec()) },
        Object::UserData { data: 5, tag: Some(b"t".to_vec()) }
    );
    assert_ne!(
        Object::UserData { data: 5, tag: Some(b"t".to_vec()) },
        Object::UserData { data: 5, tag: Some(b"u".to_vec()) }
    );
    assert_ne!(
        Object::UserData { data: 5, tag: Some(b"t".to_vec()) },
        Object::UserData { data: 5, tag: None }
    );
    assert_ne!(
        Object::UserData { data: 5, tag: None },
        Object::UserData { data: 6, tag: None }
    );
    assert_eq!(Object::Float(f64::NAN.to_bits()), Object::Float(f64::NAN.to_bits()));
    assert_ne!(Object::Float(0.0f64.to_bits()), Object::Float((-0.0f64).to_bits()));
}

#[test]
fn a_copy_is_equal_and_apart() {
    let mut table = Table::new();
    table.insert(HashableObject::Str("k".to_string()), Object::List(vec![Object::Int(1)]));
    let first = Object::List(vec![Object::Table(table), text("s")]);
    let copy = first.clone();
    assert_eq!(copy, first);
    assert_eq!(first.duplicate(), first);
    if let Object::List(mut items) = copy {
        items.push(Object::Undef);
        assert_ne!(Object::List(items), first);
    }
}
