use yaslapi::ident::InvalidIdentifier;
use yaslapi::names::{NameHandle, NameRegistry};

#[test]
fn the_same_text_gets_the_same_place() {
    let mut registry = NameRegistry::new();
    let first = registry.intern("answer").unwrap();
    let other = registry.intern("rust_print").unwrap();
    let again = registry.intern(&String::from("answer")).unwrap();
    assert_eq!(first, again);
    assert_ne!(first, other);
    assert_eq!(registry.len(), 2);
    assert_eq!(first, NameHandle { slot: 0 });
    assert_eq!(other, NameHandle { slot: 1 });
}

#[test]
fn a_name_stays_where_it_is() {
    let mut registry = NameRegistry::new();
    let x = registry.intern("x").unwrap();
    for i in 0..100 {
        registry.intern(&format!("v{}", i)).unwrap();
    }
    assert_eq!(registry.intern("x").unwrap(), x);
    assert_eq!(registry.name(x), Some("x"));
    assert_eq!(registry.lookup("x"), Some(x));
    assert_eq!(registry.len(), 101);
    assert_eq!(registry.name(NameHandle { slot: 100 }), Some("v99"));
    assert_eq!(registry.name(NameHandle { slot: 101 }), None);
}

#[test]
fn a_name_that_is_no_identifier_is_refused() {
    let mut registry = NameRegistry::new();
    assert_eq!(registry.intern("not an identifier"), Err(InvalidIdentifier));
    assert_eq!(registry.intern(""), Err(InvalidIdentifier));
    assert_eq!(registry.intern("a\0"), Err(InvalidIdentifier));
    assert_eq!(registry.len(), 0);
    assert_eq!(registry.lookup("not an identifier"), None);
}

#[test]
fn a_new_registry_is_empty() {
    let registry = NameRegistry::new();
    assert_eq!(registry.len(), 0);
    assert_eq!(registry.lookup("x"), None);
    assert_eq!(registry.name(NameHandle { slot: 0 }), None);
}
