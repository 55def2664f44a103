use lang_frontend::data::vtype::FunctionSignature;
use lang_frontend::data::vtype::Parameter;
use lang_frontend::data::vtype::VType;
use lang_frontend::parser::symbols_table::Scope;
use lang_frontend::parser::symbols_table::SymbolsTable;
use std::collections::VecDeque;

#[test]
fn a_new_table_has_no_scope() {
    let table = SymbolsTable::new();
    assert_eq!(table.scope(), 0);
    assert_eq!(table.get_id("x"), None);
    assert_eq!(table.lookup("x"), None);
    assert!(table.get_function("f").is_none());
    assert_eq!(table.next_id(), 0);
    assert!(table.can_define());
}

#[test]
fn define_binds_in_the_innermost_scope() {
    let mut table = SymbolsTable::new();
    table.push_scope();
    table.define("x", VType::Integer);
    table.define("y", VType::Boolean);
    assert_eq!(table.scope(), 1);
    assert_eq!(table.get_id("x"), Some(0));
    assert_eq!(table.get_id("y"), Some(1));
    assert_eq!(table.lookup("x"), Some(&VType::Integer));
    assert_eq!(table.lookup("y"), Some(&VType::Boolean));
    assert_eq!(table.get_id("z"), None);
    assert_eq!(table.next_id(), 2);
}

#[test]
fn an_inner_scope_sees_outer_names_and_may_shadow_them() {
    let mut table = SymbolsTable::new();
    table.push_scope();
    table.define("x", VType::Integer);
    table.push_scope();
    assert_eq!(table.scope(), 2);
    assert_eq!(table.get_id("x"), Some(0));
    table.define("x", VType::Boolean);
    table.define("y", VType::Integer);
    assert_eq!(table.get_id("x"), Some(1));
    assert_eq!(table.lookup("x"), Some(&VType::Boolean));
    table.pop_scope();
    assert_eq!(table.scope(), 1);
    assert_eq!(table.get_id("x"), Some(0));
    assert_eq!(table.lookup("x"), Some(&VType::Integer));
    assert_eq!(table.get_id("y"), None);
    assert_eq!(table.next_id(), 3);
}

#[test]
fn a_name_bound_twice_in_one_scope_has_the_later_id() {
    let mut table = SymbolsTable::new();
    table.push_scope();
    table.define("x", VType::Integer);
    table.define("x", VType::Boolean);
    assert_eq!(table.get_id("x"), Some(1));
    assert_eq!(table.lookup("x"), Some(&VType::Boolean));
}

#[test]
fn define_without_a_scope_uses_up_an_id() {
    let mut table = SymbolsTable::new();
    table.define("x", VType::Integer);
    assert_eq!(table.get_id("x"), None);
    assert_eq!(table.next_id(), 1);
    table.pop_scope();
    assert_eq!(table.scope(), 0);
}

#[test]
fn ids_run_out_after_the_last() {
    let mut table = SymbolsTable::new();
    table.push_scope();
    let mut n: u32 = 0;
    while table.can_define() {
        table.pop_scope();
        table.push_scope();
        table.define("x", VType::Integer);
        n += 1;
    }
    assert_eq!(n, 65535);
    assert_eq!(table.next_id(), 65535);
    assert_eq!(table.get_id("x"), Some(65534));
}

#[test]
fn functions_are_registered_by_name() {
    let mut table = SymbolsTable::new();
    let mut parameters = VecDeque::new();
    parameters.push_back(Parameter::new(3, VType::Integer));
    parameters.push_back(Parameter::new(4, VType::Boolean));
    table.define_function("f", VType::Boolean, parameters);
    table.define_function("g", VType::Void, VecDeque::new());
    let f = table.get_function("f").unwrap();
    assert_eq!(f.name(), "f");
    assert_eq!(f.return_type(), VType::Boolean);
    assert_eq!(f.arity(), 2);
    let ps = f.parameters();
    assert_eq!(ps[0].id(), 3);
    assert_eq!(ps[1].vtype(), VType::Boolean);
    assert_eq!(table.get_function("g").unwrap().arity(), 0);
    assert!(table.get_function("h").is_none());
    table.retract_function();
    assert!(table.get_function("g").is_none());
    assert!(table.get_function("f").is_some());
}

#[test]
fn a_copy_of_a_table_is_its_own() {
    let mut table = SymbolsTable::new();
    table.push_scope();
    table.define("x", VType::Integer);
    let copy = table.clone();
    table.define("y", VType::Integer);
    assert_eq!(copy.get_id("x"), Some(0));
    assert_eq!(copy.get_id("y"), None);
    assert_eq!(copy.next_id(), 1);
    assert_eq!(table.get_id("y"), Some(1));
}

#[test]
fn a_scope_starts_with_the_bindings_of_its_parent() {
    let mut parent = Scope::new(None);
    assert_eq!(parent.lookup_id("x"), None);
    parent.define("x", 7, VType::Boolean);
    let mut child = Scope::new(Some(&parent));
    assert_eq!(child.lookup_id("x"), Some(7));
    assert_eq!(child.lookup_type(7), Some(&VType::Boolean));
    child.define("y", 8, VType::Integer);
    assert_eq!(child.lookup_id("y"), Some(8));
    assert_eq!(parent.lookup_id("y"), None);
    assert_eq!(parent.lookup_type(8), None);
}

#[test]
fn a_signature_keeps_what_it_was_made_of() {
    let mut parameters = VecDeque::new();
    parameters.push_back(Parameter::new(1, VType::Integer));
    let s = FunctionSignature::new("square".to_string(), VType::Integer, parameters);
    let c = s.clone();
    assert_eq!(c.name(), "square");
    assert_eq!(c.return_type(), VType::Integer);
    assert_eq!(c.arity(), 1);
    assert_eq!(c.parameters()[0].id(), 1);
}
