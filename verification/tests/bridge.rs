use yaslapi::abi::{argument_count, error_code, list_index, stack_index};
use yaslapi::bridge::{arity, function_entries, MetatableFunction, YaslCFn};
use yaslapi::ident::InvalidIdentifier;
use yaslapi::names::NameRegistry;

fn add_two(a: i32) -> i32 {
    a + 2
}

fn negate(a: i32) -> i32 {
    -a
}

#[test]
fn a_method_holds_what_it_was_made_of() {
    let callable = YaslCFn { cfn: add_two as fn(i32) -> i32, args: 2 };
    let function = MetatableFunction::new("__add", callable.cfn, callable.args);
    assert_eq!(function.name, "__add");
    assert_eq!(function.args, 2);
    assert_eq!((function.cfn)(1), 3);
}

#[test]
fn a_batch_of_methods_becomes_entries() {
    let mut registry = NameRegistry::new();
    registry.intern("tostr").unwrap();
    let functions = [
        MetatableFunction::new("__add", add_two as fn(i32) -> i32, 2),
        MetatableFunction::new("tostr", negate as fn(i32) -> i32, 1),
        MetatableFunction::new("call", negate as fn(i32) -> i32, -1),
        MetatableFunction::new("__add", negate as fn(i32) -> i32, 0),
    ];
    let entries = function_entries(&functions, &mut registry).unwrap();
    assert_eq!(entries.len(), 4);
    assert_eq!(registry.len(), 3);
    assert_eq!(registry.name(entries[0].name), Some("__add"));
    assert_eq!(registry.name(entries[1].name), Some("tostr"));
    assert_eq!(registry.name(entries[2].name), Some("call"));
    assert_eq!(entries[3].name, entries[0].name);
    assert_eq!(entries[1].name.slot, 0);
    assert_eq!(entries[0].name.slot, 1);
    assert_eq!(entries[2].name.slot, 2);
    assert_eq!(entries[0].args, 2);
    assert_eq!(entries[1].args, 1);
    assert_eq!(entries[2].args, -1);
    assert_eq!((entries[0].cfn)(5), 7);
    assert_eq!((entries[1].cfn)(5), -5);
}

#[test]
fn a_batch_with_a_malformed_name_is_refused_as_a_whole() {
    let mut registry = NameRegistry::new();
    let functions = [
        MetatableFunction::new("good", add_two as fn(i32) -> i32, 2),
        MetatableFunction::new("not good", negate as fn(i32) -> i32, 1),
    ];
    assert!(matches!(function_entries(&functions, &mut registry), Err(InvalidIdentifier)));
    assert_eq!(registry.len(), 0);
    let none: [MetatableFunction<fn(i32) -> i32>; 0] = [];
    assert_eq!(function_entries(&none, &mut registry).unwrap().len(), 0);
}

#[test]
fn the_number_of_arguments_as_a_c_integer() {
    assert_eq!(arity(0), 0);
    assert_eq!(arity(2), 2);
    assert_eq!(arity(-1), -1);
    assert_eq!(arity(i32::MAX as isize), i32::MAX);
    assert_eq!(arity(i32::MIN as isize), i32::MIN);
    assert_eq!(arity(0x1_0000_0002_i64 as isize), 2);
}

#[test]
fn host_integers_as_c_integers() {
    assert_eq!(stack_index(0), Some(0));
    assert_eq!(stack_index(u32::MAX as usize), Some(u32::MAX));
    assert_eq!(stack_index(u32::MAX as usize + 1), None);
    assert_eq!(argument_count(2), Some(2));
    assert_eq!(argument_count(i32::MAX as usize), Some(i32::MAX));
    assert_eq!(argument_count(i32::MAX as usize + 1), None);
    assert_eq!(list_index(-1), -1);
    assert_eq!(list_index(isize::MAX), isize::MAX as i64);
    assert_eq!(error_code(5), Some(5));
    assert_eq!(error_code(i32::MIN as isize), Some(i32::MIN));
    assert_eq!(error_code(i32::MAX as isize + 1), None);
    assert_eq!(error_code(i32::MIN as isize - 1), None);
}
