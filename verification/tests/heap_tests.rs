use vm_heap::defs::{ClosureDataDef, ClosureInitDef, DataDef, Def, PartialApplicationDataDef};
use vm_heap::heap::Gc;
use vm_heap::traverse::{Collector, Traverseable};
use vm_heap::value::{
    BytecodeFunction, Callable, DataStruct, ExternFunction, GcRef, Symbol, Value,
};

fn new_code(gc: &mut Gc, gen: usize) -> GcRef {
    gc.alloc_code(
        BytecodeFunction {
            name: Symbol { id: 7 },
            args: 2,
            instructions: vec![],
            inner_functions: vec![],
            strings: vec![],
            globals: vec![],
        },
        gen,
    )
}

#[test]
fn generation_of_primitives_is_zero() {
    assert_eq!(Value::Int(3).generation(), 0);
    assert_eq!(Value::Float(0).generation(), 0);
}

#[test]
fn generation_of_heap_values_is_the_owning_arena() {
    let mut gc = Gc::new();
    let s = gc.alloc_text(String::from("a"), 5);
    assert_eq!(Value::Text(s).generation(), 5);
    let u = gc.alloc_userdata(3);
    assert_eq!(Value::Userdata(u).generation(), 3);
}

#[test]
fn placement_def_traversal_matches_input() {
    let mut gc = Gc::new();
    let s = gc.alloc_text(String::from("x"), 2);
    let elems = vec![Value::Int(1), Value::Text(s)];
    let def = Def { tag: 3, elems: elems.clone() };
    let mut before = Collector::new();
    def.traverse(&mut before);
    let size = def.size();
    // one tag word, one length header, two value slots
    assert_eq!(size, 8 + 8 + 16 * 2);
    let d = gc.allocate(def, 2);
    let mut after = Collector::new();
    gc.data_at(d).traverse(&mut after);
    // the initialized object traverses to exactly the references of the
    // definition input: no more, no fewer
    assert_eq!(before.marked, after.marked);
    assert_eq!(after.marked, vec![s]);
}

#[test]
fn placement_closure_def_traversal_matches_input() {
    let mut gc = Gc::new();
    let f = new_code(&mut gc, 0);
    let s = gc.alloc_text(String::from("x"), 2);
    let def = ClosureDataDef(f, vec![Value::Text(s), Value::Int(4)]);
    let mut before = Collector::new();
    def.traverse(&mut before);
    assert_eq!(def.size(), 8 + 8 + 16 * 2);
    let c = gc.allocate(def, 2);
    let mut after = Collector::new();
    gc.closure_at(c).traverse(&mut after);
    assert_eq!(before.marked, after.marked);
    assert_eq!(after.marked, vec![f, s]);
}

#[test]
fn placeholder_shell_traverses_to_function_only() {
    let mut gc = Gc::new();
    let f = new_code(&mut gc, 0);
    let def = ClosureInitDef(f, 3);
    let mut before = Collector::new();
    def.traverse(&mut before);
    assert_eq!(def.size(), 8 + 8 + 16 * 3);
    let c = gc.allocate(def, 2);
    assert_eq!(gc.closure_at(c).upvars, vec![Value::Int(0); 3]);
    let mut after = Collector::new();
    gc.closure_at(c).traverse(&mut after);
    // the zero placeholders satisfy the traversal contract trivially
    assert_eq!(before.marked, after.marked);
    assert_eq!(after.marked, vec![f]);
}

#[test]
fn two_pass_closure_patches_own_reference() {
    let mut gc = Gc::new();
    let f = new_code(&mut gc, 0);
    let c = gc.allocate(ClosureInitDef(f, 1), 2);
    // the closure's own reference appears among its captured upvalues
    gc.set_slot(c, 0, Value::Closure(c));
    assert_eq!(gc.closure_at(c).upvars[0], Value::Closure(c));
    assert_eq!(gc.closure_at(c).function, f);
}

#[test]
fn partial_application_def_traversal_matches_input() {
    let mut gc = Gc::new();
    let f = new_code(&mut gc, 0);
    let s = gc.alloc_text(String::from("arg"), 2);
    let def = PartialApplicationDataDef(Callable::Closure(GcRef { index: 99, gen: 0 }), vec![]);
    // a closure callable reports its reference; an extern callable reports
    // nothing
    let mut m1 = Collector::new();
    def.traverse(&mut m1);
    assert_eq!(m1.marked, vec![GcRef { index: 99, gen: 0 }]);
    let def2 = PartialApplicationDataDef(Callable::Extern(f), vec![Value::Text(s)]);
    let mut m2 = Collector::new();
    def2.traverse(&mut m2);
    assert_eq!(m2.marked, vec![s]);
}

#[test]
fn extern_function_traverses_to_nothing() {
    let e = ExternFunction { id: Symbol { id: 1 }, args: 0, function: 7 };
    let mut c = Collector::new();
    e.traverse(&mut c);
    assert!(c.marked.is_empty());
}

#[test]
fn bytecode_function_traverses_inner_and_globals() {
    let mut gc = Gc::new();
    let inner = new_code(&mut gc, 0);
    let s = gc.alloc_text(String::from("g"), 0);
    let f = BytecodeFunction {
        name: Symbol { id: 2 },
        args: 0,
        instructions: vec![],
        inner_functions: vec![inner],
        strings: vec![],
        globals: vec![Value::Text(s), Value::Int(1)],
    };
    let mut c = Collector::new();
    f.traverse(&mut c);
    assert_eq!(c.marked, vec![inner, s]);
}

#[test]
fn lookup_field_finds_first_match() {
    let mut gc = Gc::new();
    let d = gc.allocate(
        Def { tag: 0, elems: vec![Value::Int(10), Value::Int(20)] },
        1,
    );
    let names = vec![Symbol { id: 1 }, Symbol { id: 2 }];
    assert_eq!(gc.lookup_field(d, &names, Symbol { id: 2 }), Some(Value::Int(20)));
    assert_eq!(gc.lookup_field(d, &names, Symbol { id: 1 }), Some(Value::Int(10)));
    assert_eq!(gc.lookup_field(d, &names, Symbol { id: 3 }), None);
}

#[test]
fn callable_name_and_args() {
    let mut gc = Gc::new();
    let f = new_code(&mut gc, 0);
    let c = gc.allocate(ClosureDataDef(f, vec![]), 0);
    let closure_callable = Callable::Closure(c);
    assert_eq!(closure_callable.name(&gc), Symbol { id: 7 });
    assert_eq!(closure_callable.args(&gc), 2);
    let e = gc.alloc_extern(
        ExternFunction { id: Symbol { id: 11 }, args: 1, function: 0 },
        0,
    );
    let extern_callable = Callable::Extern(e);
    assert_eq!(extern_callable.name(&gc), Symbol { id: 11 });
    assert_eq!(extern_callable.args(&gc), 1);
}

#[test]
fn callables_never_compare_equal() {
    let a = Callable::Extern(GcRef { index: 0, gen: 0 });
    let b = Callable::Extern(GcRef { index: 0, gen: 0 });
    assert!(a != b);
}

#[test]
fn data_struct_equality_is_structural() {
    let a = DataStruct { tag: 1, fields: vec![Value::Int(1), Value::Float(2)] };
    let b = DataStruct { tag: 1, fields: vec![Value::Int(1), Value::Float(2)] };
    let c = DataStruct { tag: 2, fields: vec![Value::Int(1), Value::Float(2)] };
    let d = DataStruct { tag: 1, fields: vec![Value::Int(1)] };
    assert!(a == b);
    assert!(a != c);
    assert!(a != d);
}

#[test]
fn value_equality_of_heap_variants_is_identity() {
    let r1 = GcRef { index: 0, gen: 1 };
    let r2 = GcRef { index: 1, gen: 1 };
    assert_eq!(Value::Text(r1), Value::Text(r1));
    assert_ne!(Value::Text(r1), Value::Text(r2));
    assert_ne!(Value::Int(1), Value::Int(2));
    assert_eq!(Value::Int(1), Value::Int(1));
}
