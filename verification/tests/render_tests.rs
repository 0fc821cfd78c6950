use vm_heap::defs::{ClosureDataDef, Def};
use vm_heap::heap::Gc;
use vm_heap::value::{BytecodeFunction, Symbol, Value};

fn new_code(gc: &mut Gc, gen: usize) -> vm_heap::value::GcRef {
    gc.alloc_code(
        BytecodeFunction {
            name: Symbol { id: 7 },
            args: 2,
            instructions: vec![],
            inner_functions: vec![],
            strings: vec![],
            globals: vec![],
        },
        gen,
    )
}

#[test]
fn show_integers() {
    let gc = Gc::new();
    assert_eq!(Value::Int(5).show(&gc), "5");
    assert_eq!(Value::Int(0).show(&gc), "0");
    assert_eq!(Value::Int(-3).show(&gc), "-3");
    assert_eq!(Value::Int(1234567).show(&gc), "1234567");
    assert_eq!(Value::Int(i64::MIN).show(&gc), "-9223372036854775808");
}

#[test]
fn show_float_bits() {
    let gc = Gc::new();
    assert_eq!(Value::Float(7).show(&gc), "7f");
}

#[test]
fn show_string_quoted() {
    let mut gc = Gc::new();
    let s = gc.alloc_text(String::from("hi"), 0);
    assert_eq!(Value::Text(s).show(&gc), "\"hi\"");
}

#[test]
fn show_aggregate_with_fields() {
    let mut gc = Gc::new();
    let s = gc.alloc_text(String::from("x"), 0);
    let d = gc.allocate(
        Def { tag: 1, elems: vec![Value::Int(5), Value::Text(s)] },
        0,
    );
    assert_eq!(Value::Data(d).show(&gc), "{1: 5, \"x\"}");
}

#[test]
fn show_cyclic_aggregate_is_bounded() {
    let mut gc = Gc::new();
    let d = gc.allocate(Def { tag: 9, elems: vec![Value::Int(0)] }, 0);
    gc.set_slot(d, 0, Value::Data(d));
    // the nesting cutoff keeps a cyclic value's rendering finite
    assert_eq!(Value::Data(d).show(&gc), "{9: {9: }}");
}

#[test]
fn show_partial_application() {
    let mut gc = Gc::new();
    let f = gc.alloc_extern(
        vm_heap::value::ExternFunction { id: Symbol { id: 1 }, args: 2, function: 4 },
        0,
    );
    let a = gc.allocate(
        vm_heap::defs::PartialApplicationDataDef(
            vm_heap::value::Callable::Extern(f),
            vec![Value::Int(1), Value::Int(2)],
        ),
        0,
    );
    assert_eq!(Value::PartialApplication(a).show(&gc), "<App <EXTERN>1, 2>");
}

#[test]
fn show_closure_and_thread() {
    let mut gc = Gc::new();
    let f = new_code(&mut gc, 0);
    let c = gc.allocate(ClosureDataDef(f, vec![]), 0);
    assert_eq!(Value::Closure(c).show(&gc), "<7 #0>");
    let t = gc.alloc_thread(0);
    assert_eq!(Value::Thread(t).show(&gc), "<thread>");
    let u = gc.alloc_userdata(0);
    assert_eq!(Value::Userdata(u).show(&gc), "<Userdata #3>");
}
