use lisp_repl::{Location, SymbolTable};

fn at(routine: usize, index: usize) -> Location {
    Location { routine, index }
}

#[test]
fn empty_table_binds_nothing() {
    let table = SymbolTable::new();
    assert_eq!(table.len(), 0);
    assert_eq!(table.get(&"x".to_string()), None);
}

#[test]
fn binding_is_found_again() {
    let mut table = SymbolTable::new();
    table.insert("x".to_string(), at(0, 1));
    table.insert("y".to_string(), at(0, 4));
    assert_eq!(table.get(&"x".to_string()), Some(at(0, 1)));
    assert_eq!(table.get(&"y".to_string()), Some(at(0, 4)));
    assert_eq!(table.get(&"z".to_string()), None);
    assert_eq!(table.len(), 2);
}

#[test]
fn rebinding_replaces_the_entry() {
    let mut table = SymbolTable::new();
    table.insert("x".to_string(), at(0, 1));
    table.insert("y".to_string(), at(0, 4));
    table.insert("x".to_string(), at(0, 7));
    assert_eq!(table.get(&"x".to_string()), Some(at(0, 7)));
    assert_eq!(table.get(&"y".to_string()), Some(at(0, 4)));
    assert_eq!(table.len(), 2);
}

#[test]
fn copy_has_the_same_bindings_and_a_life_of_its_own() {
    let mut table = SymbolTable::new();
    table.insert("x".to_string(), at(0, 1));
    let mut copy = table.clone();
    assert_eq!(copy, table);
    copy.insert("x".to_string(), at(2, 2));
    copy.insert("p".to_string(), at(2, 5));
    assert_eq!(table.get(&"x".to_string()), Some(at(0, 1)));
    assert_eq!(table.get(&"p".to_string()), None);
    assert_eq!(table.len(), 1);
    assert_eq!(copy.len(), 2);
}
