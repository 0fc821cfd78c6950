use vm_heap::deep_clone::{deep_clone, VmError};
use vm_heap::defs::Def;
use vm_heap::heap::Gc;
use vm_heap::value::{BytecodeFunction, Callable, ClosureData, ExternFunction, Symbol, Value};
use vm_heap::visited::VisitedMap;
use vm_heap::defs::{ClosureDataDef, PartialApplicationDataDef};

fn new_code(gc: &mut Gc, gen: usize) -> vm_heap::value::GcRef {
    gc.alloc_code(
        BytecodeFunction {
            name: Symbol { id: 7 },
            args: 2,
            instructions: vec![],
            inner_functions: vec![],
            strings: vec![],
            globals: vec![],
        },
        gen,
    )
}

#[test]
fn sharing_preserved_across_clone() {
    let mut gc = Gc::new();
    let s = gc.alloc_text(String::from("shared"), 2);
    let d = gc.allocate(
        Def { tag: 4, elems: vec![Value::Text(s), Value::Text(s)] },
        2,
    );
    let mut m = VisitedMap::new();
    let out = deep_clone(&Value::Data(d), &mut m, &mut gc, 1).unwrap();
    let p = match out {
        Value::Data(p) => p,
        other => panic!("expected an aggregate, got {:?}", other),
    };
    let f0 = gc.data_at(p).fields[0];
    let f1 = gc.data_at(p).fields[1];
    // the two fields still point at one object, by identity
    assert_eq!(f0, f1);
    match f0 {
        Value::Text(t) => {
            assert_ne!(t.index, s.index);
            assert_eq!(t.gen, 1);
            assert_eq!(gc.text_at(t).as_str(), "shared");
        },
        other => panic!("expected a string, got {:?}", other),
    }
}

#[test]
fn cycle_clones_in_bounded_time() {
    let mut gc = Gc::new();
    let d = gc.allocate(Def { tag: 9, elems: vec![Value::Int(0)] }, 2);
    // a slot of the object holds a reference back to the object itself
    gc.set_slot(d, 0, Value::Data(d));
    let mut m = VisitedMap::new();
    let out = deep_clone(&Value::Data(d), &mut m, &mut gc, 1).unwrap();
    let p = match out {
        Value::Data(p) => p,
        other => panic!("expected an aggregate, got {:?}", other),
    };
    assert_ne!(p.index, d.index);
    assert_eq!(p.gen, 1);
    // the clone is structurally cyclic: its slot points back at the clone
    assert_eq!(gc.data_at(p).fields[0], Value::Data(p));
}

#[test]
fn generation_short_circuit_returns_identity() {
    let mut gc = Gc::new();
    let s = gc.alloc_text(String::from("old"), 1);
    let before = gc.objects.len();
    let mut m = VisitedMap::new();
    let v = Value::Text(s);
    let out = deep_clone(&v, &mut m, &mut gc, 1).unwrap();
    // equal by identity, and zero allocations were performed
    assert_eq!(out, v);
    assert_eq!(gc.objects.len(), before);
}

#[test]
fn primitives_clone_unchanged() {
    let mut gc = Gc::new();
    let mut m = VisitedMap::new();
    assert_eq!(
        deep_clone(&Value::Int(-17), &mut m, &mut gc, 0).unwrap(),
        Value::Int(-17)
    );
    assert_eq!(
        deep_clone(&Value::Float(55), &mut m, &mut gc, 0).unwrap(),
        Value::Float(55)
    );
    assert_eq!(gc.objects.len(), 0);
}

#[test]
fn order_preserved_before_and_after_clone() {
    let mut gc = Gc::new();
    let a = Value::Int(10);
    let b = Value::Int(20);
    let c = Value::Int(30);
    let d = gc.allocate(Def { tag: 2, elems: vec![a, b, c] }, 2);
    assert_eq!(gc.get_variant(d, 0), Some(a));
    assert_eq!(gc.get_variant(d, 1), Some(b));
    assert_eq!(gc.get_variant(d, 2), Some(c));
    assert_eq!(gc.get_variant(d, 3), None);
    let mut m = VisitedMap::new();
    let out = deep_clone(&Value::Data(d), &mut m, &mut gc, 1).unwrap();
    let p = match out {
        Value::Data(p) => p,
        other => panic!("expected an aggregate, got {:?}", other),
    };
    assert_eq!(gc.get_variant(p, 0), Some(a));
    assert_eq!(gc.get_variant(p, 1), Some(b));
    assert_eq!(gc.get_variant(p, 2), Some(c));
    assert_eq!(gc.get_variant(p, 3), None);
}

#[test]
fn userdata_is_rejected() {
    let mut gc = Gc::new();
    let u = gc.alloc_userdata(2);
    let before = gc.objects.len();
    let mut m = VisitedMap::new();
    let r = deep_clone(&Value::Userdata(u), &mut m, &mut gc, 1);
    assert_eq!(r, Err(VmError::Uncloneable));
    assert_eq!(gc.objects.len(), before);
}

#[test]
fn thread_is_rejected() {
    let mut gc = Gc::new();
    let t = gc.alloc_thread(2);
    let before = gc.objects.len();
    let mut m = VisitedMap::new();
    let r = deep_clone(&Value::Thread(t), &mut m, &mut gc, 1);
    assert_eq!(r, Err(VmError::Uncloneable));
    assert_eq!(gc.objects.len(), before);
}

#[test]
fn extern_function_is_rejected() {
    let mut gc = Gc::new();
    let f = gc.alloc_extern(
        ExternFunction { id: Symbol { id: 3 }, args: 1, function: 99 },
        2,
    );
    let before = gc.objects.len();
    let mut m = VisitedMap::new();
    let r = deep_clone(&Value::Function(f), &mut m, &mut gc, 1);
    assert_eq!(r, Err(VmError::Uncloneable));
    assert_eq!(gc.objects.len(), before);
}

#[test]
fn aggregate_holding_userdata_is_rejected() {
    let mut gc = Gc::new();
    let u = gc.alloc_userdata(2);
    let d = gc.allocate(
        Def { tag: 1, elems: vec![Value::Int(1), Value::Userdata(u)] },
        2,
    );
    let source_fields = gc.data_at(d).fields.clone();
    let mut m = VisitedMap::new();
    let r = deep_clone(&Value::Data(d), &mut m, &mut gc, 1);
    assert_eq!(r, Err(VmError::Uncloneable));
    // the whole clone failed, and the source object was left untouched
    assert_eq!(gc.data_at(d).fields, source_fields);
    assert_eq!(gc.data_at(d).tag, 1);
}

#[test]
fn uncloneable_message_text() {
    assert_eq!(
        VmError::Uncloneable.message(),
        "Threads, Userdata and Extern functions cannot be deep cloned yet"
    );
}

#[test]
fn closure_clone_keeps_function_reference() {
    let mut gc = Gc::new();
    let f = new_code(&mut gc, 0);
    let s = gc.alloc_text(String::from("up"), 2);
    let c = gc.allocate(ClosureDataDef(f, vec![Value::Int(1), Value::Text(s)]), 2);
    let mut m = VisitedMap::new();
    let out = deep_clone(&Value::Closure(c), &mut m, &mut gc, 1).unwrap();
    let p = match out {
        Value::Closure(p) => p,
        other => panic!("expected a closure, got {:?}", other),
    };
    assert_ne!(p.index, c.index);
    // the compiled-function reference is copied verbatim, never rehomed
    assert_eq!(gc.closure_at(p).function, f);
    assert_eq!(gc.closure_at(p).upvars[0], Value::Int(1));
    match gc.closure_at(p).upvars[1] {
        Value::Text(t) => assert_eq!(gc.text_at(t).as_str(), "up"),
        other => panic!("expected a string upvalue, got {:?}", other),
    }
}

#[test]
fn partial_application_clone_keeps_callable_and_order() {
    let mut gc = Gc::new();
    let f = gc.alloc_extern(
        ExternFunction { id: Symbol { id: 5 }, args: 3, function: 123 },
        0,
    );
    let a = gc.allocate(
        PartialApplicationDataDef(
            Callable::Extern(f),
            vec![Value::Int(1), Value::Int(2)],
        ),
        2,
    );
    let mut m = VisitedMap::new();
    let out = deep_clone(&Value::PartialApplication(a), &mut m, &mut gc, 1).unwrap();
    let p = match out {
        Value::PartialApplication(p) => p,
        other => panic!("expected a partial application, got {:?}", other),
    };
    match gc.app_at(p).function {
        Callable::Extern(e) => assert_eq!(e, f),
        Callable::Closure(_) => panic!("callable kind changed"),
    }
    assert_eq!(gc.app_at(p).arguments, vec![Value::Int(1), Value::Int(2)]);
}

#[test]
fn end_to_end_promotion() {
    let mut gc = Gc::new();
    let s = gc.alloc_text(String::from("x"), 2);
    let d = gc.allocate(
        Def { tag: 1, elems: vec![Value::Int(5), Value::Text(s)] },
        2,
    );
    let mut m = VisitedMap::new();
    let out = deep_clone(&Value::Data(d), &mut m, &mut gc, 1).unwrap();
    let p = match out {
        Value::Data(p) => p,
        other => panic!("expected an aggregate, got {:?}", other),
    };
    assert_eq!(gc.tag(p), 1);
    assert_eq!(gc.get_variant(p, 0), Some(Value::Int(5)));
    match gc.get_variant(p, 1) {
        Some(Value::Text(t)) => {
            // content-equal but a distinct heap reference: the string was
            // generation-younger than the target
            assert_eq!(gc.text_at(t).as_str(), "x");
            assert_ne!(t.index, s.index);
            assert_eq!(t.gen, 1);
        },
        other => panic!("expected a string field, got {:?}", other),
    }
}

#[test]
fn closure_never_equal_structurally() {
    let c1 = ClosureData {
        function: vm_heap::value::GcRef { index: 0, gen: 0 },
        upvars: vec![],
    };
    let c2 = ClosureData {
        function: vm_heap::value::GcRef { index: 0, gen: 0 },
        upvars: vec![],
    };
    assert!(c1 != c2);
    assert!(c1 != c1);
}
