//! Depth-limited rendering of values for diagnostics.
//!
//! Mirrors how the virtual machine debug-prints a value: primitives by
//! content, strings quoted, aggregates as `{tag: fields}`, closures and
//! partial applications by name and identity, opaque resources by identity.
//! Nesting is cut off at a fixed depth so cyclic structures render in
//! bounded space. A float's payload is shown as its bit pattern followed by
//! `f`: interpreting the bits numerically is outside this core.

use vstd::prelude::*;
use vstd::string::StringExecFns;

use crate::heap::{obj_ok, value_ok, Gc, HeapObject};
use crate::value::{Callable, Value};

verus! {

/// How many nesting levels are rendered before the cutoff.
pub const RENDER_DEPTH: u64 = 3;

pub open spec fn digit_char(d: nat) -> char {
    if d == 0 {
        '0'
    } else if d == 1 {
        '1'
    } else if d == 2 {
        '2'
    } else if d == 3 {
        '3'
    } else if d == 4 {
        '4'
    } else if d == 5 {
        '5'
    } else if d == 6 {
        '6'
    } else if d == 7 {
        '7'
    } else if d == 8 {
        '8'
    } else {
        '9'
    }
}

/// The decimal digits of a number, most significant first.
pub open spec fn dec_str(n: nat) -> Seq<char>
    decreases n,
{
    if n < 10 {
        seq![digit_char(n)]
    } else {
        dec_str(n / 10) + seq![digit_char(n % 10)]
    }
}

/// A signed integer in decimal.
pub open spec fn int_str(i: int) -> Seq<char> {
    if i < 0 {
        seq!['-'] + dec_str((-i) as nat)
    } else {
        dec_str(i as nat)
    }
}

/// One value at the given nesting level; level 0 renders nothing.
pub open spec fn render_value(objs: Seq<HeapObject>, v: Value, depth: nat) -> Seq<char>
    decreases depth, 0nat, 0nat,
{
    if depth == 0 {
        Seq::<char>::empty()
    } else {
        match v {
            Value::Int(i) => int_str(i as int),
            Value::Float(bits) => dec_str(bits as nat) + seq!['f'],
            Value::Text(r) => seq!['"'] + objs[r.index as int].kind->Text_0@ + seq!['"'],
            Value::Data(r) => {
                let d = objs[r.index as int].kind->Data_0;
                seq!['{'] + dec_str(d.tag as nat) + seq![':', ' '] + render_slice(
                    objs,
                    d.fields@,
                    (depth - 1) as nat,
                ) + seq!['}']
            },
            Value::Function(r) => seq!['<', 'E', 'X', 'T', 'E', 'R', 'N', ' '] + dec_str(
                objs[r.index as int].kind->Extern_0.function as nat,
            ) + seq!['>'],
            Value::Closure(r) => {
                let c = objs[r.index as int].kind->Closure_0;
                seq!['<'] + dec_str(
                    objs[c.function.index as int].kind->Code_0.name.id as nat,
                ) + seq![' ', '#'] + dec_str(c.function.index as nat) + seq!['>']
            },
            Value::PartialApplication(r) => {
                let a = objs[r.index as int].kind->App_0;
                let name = match a.function {
                    Callable::Closure(_) => seq!['<', 'C', 'L', 'O', 'S', 'U', 'R', 'E', '>'],
                    Callable::Extern(_) => seq!['<', 'E', 'X', 'T', 'E', 'R', 'N', '>'],
                };
                seq!['<', 'A', 'p', 'p', ' '] + name + render_slice(
                    objs,
                    a.arguments@,
                    (depth - 1) as nat,
                ) + seq!['>']
            },
            Value::Userdata(r) => seq!['<', 'U', 's', 'e', 'r', 'd', 'a', 't', 'a', ' ', '#']
                + dec_str(r.index as nat) + seq!['>'],
            Value::Thread(_) => seq!['<', 't', 'h', 'r', 'e', 'a', 'd', '>'],
        }
    }
}

/// A slice of values at the given level: nothing at level 0 or when empty,
/// else the first element and then `", "` before each further element, every
/// element one level down.
pub open spec fn render_slice(objs: Seq<HeapObject>, s: Seq<Value>, depth: nat) -> Seq<char>
    decreases depth, s.len(), 2nat,
{
    if depth == 0 || s.len() == 0 {
        Seq::<char>::empty()
    } else {
        render_value(objs, s[0], (depth - 1) as nat) + render_rest(objs, s.drop_first(), depth)
    }
}

pub open spec fn render_rest(objs: Seq<HeapObject>, s: Seq<Value>, depth: nat) -> Seq<char>
    decreases depth, s.len(), 1nat,
{
    if depth == 0 || s.len() == 0 {
        Seq::<char>::empty()
    } else {
        seq![',', ' '] + render_value(objs, s[0], (depth - 1) as nat) + render_rest(
            objs,
            s.drop_first(),
            depth,
        )
    }
}

fn digit_string(d: u64) -> (s: &'static str)
    requires
        d < 10,
    ensures
        s@ == seq![digit_char(d as nat)],
{
    proof {
        reveal_strlit("0");
        reveal_strlit("1");
        reveal_strlit("2");
        reveal_strlit("3");
        reveal_strlit("4");
        reveal_strlit("5");
        reveal_strlit("6");
        reveal_strlit("7");
        reveal_strlit("8");
        reveal_strlit("9");
    }
    let s = match d {
        0 => "0",
        1 => "1",
        2 => "2",
        3 => "3",
        4 => "4",
        5 => "5",
        6 => "6",
        7 => "7",
        8 => "8",
        _ => "9",
    };
    proof {
        assert(s@ =~= seq![digit_char(d as nat)]);
    }
    s
}

/// Renders an unsigned number in decimal.
fn dec_string(n: u64) -> (s: String)
    ensures
        s@ == dec_str(n as nat),
    decreases n,
{
    if n < 10 {
        digit_string(n).to_owned()
    } else {
        let mut s = dec_string(n / 10);
        s.append(digit_string(n % 10));
        proof {
            assert(s@ =~= dec_str(n as nat));
        }
        s
    }
}

/// Renders a signed integer in decimal.
fn int_string(i: i64) -> (s: String)
    ensures
        s@ == int_str(i as int),
{
    proof {
        reveal_strlit("-");
    }
    if i >= 0 {
        dec_string(i as u64)
    } else {
        let mag: u64 = if i == i64::MIN {
            9223372036854775808u64
        } else {
            (-i) as u64
        };
        let mut s = "-".to_owned();
        s.append(dec_string(mag).as_str());
        proof {
            assert(s@ =~= int_str(i as int));
        }
        s
    }
}

impl Value {
    /// Renders this value to the fixed depth, as the machine debug-prints
    /// it.
    pub fn show(&self, gc: &Gc) -> (s: String)
        requires
            gc.wf(),
            value_ok(gc.objects@, *self),
        ensures
            s@ == render_value(gc.objects@, *self, RENDER_DEPTH as nat),
    {
        render_value_exec(self, gc, RENDER_DEPTH)
    }
}

fn render_value_exec(v: &Value, gc: &Gc, depth: u64) -> (s: String)
    requires
        gc.wf(),
        value_ok(gc.objects@, *v),
    ensures
        s@ == render_value(gc.objects@, *v, depth as nat),
    decreases depth, 0nat, 0nat,
{
    proof {
        reveal_strlit("");
        reveal_strlit("f");
        reveal_strlit("\"");
        reveal_strlit("{");
        reveal_strlit(": ");
        reveal_strlit("}");
        reveal_strlit("<EXTERN ");
        reveal_strlit(">");
        reveal_strlit("<");
        reveal_strlit(" #");
        reveal_strlit("<App ");
        reveal_strlit("<CLOSURE>");
        reveal_strlit("<EXTERN>");
        reveal_strlit("<Userdata #");
        reveal_strlit("<thread>");
    }
    if depth == 0 {
        let s = "".to_owned();
        proof {
            assert(s@ =~= render_value(gc.objects@, *v, depth as nat));
        }
        return s;
    }
    let s: String = match v {
        Value::Int(i) => int_string(*i),
        Value::Float(bits) => {
            let mut s = dec_string(*bits);
            s.append("f");
            s
        },
        Value::Text(r) => {
            let mut s = "\"".to_owned();
            s.append(gc.text_at(*r).as_str());
            s.append("\"");
            s
        },
        Value::Data(r) => {
            proof {
                assert(obj_ok(gc.objects@, gc.objects@[r.index as int]));
            }
            let mut s = "{".to_owned();
            s.append(dec_string(gc.data_at(*r).tag).as_str());
            s.append(": ");
            s.append(render_slice_exec(&gc.data_at(*r).fields, gc, depth - 1).as_str());
            s.append("}");
            s
        },
        Value::Function(r) => {
            let mut s = "<EXTERN ".to_owned();
            s.append(dec_string(gc.extern_at(*r).function).as_str());
            s.append(">");
            s
        },
        Value::Closure(r) => {
            proof {
                assert(obj_ok(gc.objects@, gc.objects@[r.index as int]));
            }
            let fref = gc.closure_at(*r).function;
            let mut s = "<".to_owned();
            s.append(dec_string(gc.code_at(fref).name.id).as_str());
            s.append(" #");
            s.append(dec_string(fref.index as u64).as_str());
            s.append(">");
            s
        },
        Value::PartialApplication(r) => {
            proof {
                assert(obj_ok(gc.objects@, gc.objects@[r.index as int]));
            }
            let mut s = "<App ".to_owned();
            match gc.app_at(*r).function {
                Callable::Closure(_) => s.append("<CLOSURE>"),
                Callable::Extern(_) => s.append("<EXTERN>"),
            }
            s.append(render_slice_exec(&gc.app_at(*r).arguments, gc, depth - 1).as_str());
            s.append(">");
            s
        },
        Value::Userdata(r) => {
            let mut s = "<Userdata #".to_owned();
            s.append(dec_string(r.index as u64).as_str());
            s.append(">");
            s
        },
        Value::Thread(_) => "<thread>".to_owned(),
    };
    proof {
        assert(s@ =~= render_value(gc.objects@, *v, depth as nat));
    }
    s
}

fn render_slice_exec(vs: &Vec<Value>, gc: &Gc, depth: u64) -> (s: String)
    requires
        gc.wf(),
        forall|i: int| 0 <= i < vs@.len() ==> value_ok(gc.objects@, #[trigger] vs@[i]),
    ensures
        s@ == render_slice(gc.objects@, vs@, depth as nat),
    decreases depth, vs@.len(), 2nat,
{
    proof {
        reveal_strlit("");
        reveal_strlit(", ");
    }
    if depth == 0 || vs.len() == 0 {
        let s = "".to_owned();
        proof {
            assert(s@ =~= render_slice(gc.objects@, vs@, depth as nat));
        }
        return s;
    }
    let mut s = render_value_exec(&vs[0], gc, depth - 1);
    let n = vs.len();
    let mut i: usize = 1;
    while i < n
        invariant
            1 <= i <= n,
            n == vs@.len(),
            depth >= 1,
            n >= 1,
            gc.wf(),
            forall|j: int| 0 <= j < vs@.len() ==> value_ok(gc.objects@, #[trigger] vs@[j]),
            s@ == render_value(gc.objects@, vs@[0], (depth - 1) as nat) + rest_prefix(
                gc.objects@,
                vs@,
                depth as nat,
                i as int,
            ),
        decreases n - i,
    {
        proof {
            reveal_strlit(", ");
        }
        s.append(", ");
        s.append(render_value_exec(&vs[i], gc, depth - 1).as_str());
        proof {
            assert(s@ =~= render_value(gc.objects@, vs@[0], (depth - 1) as nat) + rest_prefix(
                gc.objects@,
                vs@,
                depth as nat,
                i + 1,
            ));
        }
        i = i + 1;
    }
    proof {
        lemma_rest_prefix(gc.objects@, vs@, depth as nat, n as int);
        assert(s@ =~= render_slice(gc.objects@, vs@, depth as nat));
    }
    s
}

/// The rendering of elements `1 .. upto` of a slice, each preceded by a
/// separator.
spec fn rest_prefix(objs: Seq<HeapObject>, s: Seq<Value>, depth: nat, upto: int) -> Seq<char>
    decreases upto,
{
    if upto <= 1 {
        Seq::<char>::empty()
    } else {
        rest_prefix(objs, s, depth, upto - 1) + seq![',', ' '] + render_value(
            objs,
            s[upto - 1],
            (depth - 1) as nat,
        )
    }
}

/// Rendering every element from the second on agrees with the recursive
/// definition over the tail of the slice.
proof fn lemma_rest_prefix(objs: Seq<HeapObject>, s: Seq<Value>, depth: nat, upto: int)
    requires
        1 <= upto <= s.len(),
        depth >= 1,
    ensures
        rest_prefix(objs, s, depth, upto) + render_rest(
            objs,
            s.subrange(upto, s.len() as int),
            depth,
        ) == render_rest(objs, s.drop_first(), depth),
    decreases upto,
{
    if upto == 1 {
        assert(s.subrange(1, s.len() as int) =~= s.drop_first());
        assert(rest_prefix(objs, s, depth, 1) + render_rest(objs, s.drop_first(), depth)
            =~= render_rest(objs, s.drop_first(), depth));
    } else {
        lemma_rest_prefix(objs, s, depth, upto - 1);
        let tail_prev = s.subrange(upto - 1, s.len() as int);
        assert(tail_prev.len() > 0);
        assert(tail_prev[0] == s[upto - 1]);
        assert(tail_prev.drop_first() =~= s.subrange(upto, s.len() as int));
        assert(render_rest(objs, tail_prev, depth) == seq![',', ' '] + render_value(
            objs,
            s[upto - 1],
            (depth - 1) as nat,
        ) + render_rest(objs, s.subrange(upto, s.len() as int), depth));
        assert(rest_prefix(objs, s, depth, upto) + render_rest(
            objs,
            s.subrange(upto, s.len() as int),
            depth,
        ) =~= rest_prefix(objs, s, depth, upto - 1) + render_rest(objs, tail_prev, depth));
    }
}

} // verus!
