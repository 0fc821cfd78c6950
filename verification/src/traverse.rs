//! The traversal contract the collector relies on to discover live
//! references.

use vstd::prelude::*;

use crate::heap::ObjKind;
use crate::value::{
    BytecodeFunction, Callable, ClosureData, DataStruct, ExternFunction, GcRef,
    PartialApplicationData, Value,
};

verus! {

/// The collector handle a traversal reports to: it accumulates, in order,
/// every heap reference the traversed value directly owns. What the
/// collector then does with the report (the transitive walk, marking,
/// reclamation) is out of scope.
pub struct Collector {
    pub marked: Vec<GcRef>,
}

impl Collector {
    pub fn new() -> (c: Collector)
        ensures
            c.marked@.len() == 0,
    {
        Collector { marked: Vec::new() }
    }

    /// Reports one directly owned reference.
    pub fn mark(&mut self, r: GcRef)
        ensures
            final(self).marked@ == old(self).marked@.push(r),
    {
        self.marked.push(r);
    }
}

/// The traversal contract: every type reachable from a value reports, given
/// a collector handle, each heap reference it directly owns — not
/// transitively; the collector performs the transitive walk by re-invoking
/// traversal on each reported reference. Omitting a live reference would be
/// a silent correctness bug (premature reclamation), so `refs` pins down
/// exactly what `traverse` reports and every implementation is proved
/// against it.
pub trait Traverseable {
    /// The heap references this value directly owns, in report order.
    spec fn refs(&self) -> Seq<GcRef>;

    /// Reports every directly owned reference to the collector.
    fn traverse(&self, gc: &mut Collector)
        ensures
            final(gc).marked@ == old(gc).marked@ + self.refs(),
    ;
}

/// The capability an opaque boxed host resource must provide to live on the
/// heap: traversal, so the collector can see any references its payload
/// holds. The payload itself stays outside this core — the heap records
/// only an opaque slot for such a resource, and resource values compare by
/// reference identity alone, never by content.
pub trait Userdata: Traverseable {

}

/// The references one value directly holds: one for a heap variant, none for
/// a primitive.
pub open spec fn value_refs(v: Value) -> Seq<GcRef> {
    match v.heap_ref() {
        Some(r) => seq![r],
        None => Seq::<GcRef>::empty(),
    }
}

/// The references a sequence of values holds, in slot order.
pub open spec fn values_refs(vs: Seq<Value>) -> Seq<GcRef>
    decreases vs.len(),
{
    if vs.len() == 0 {
        Seq::<GcRef>::empty()
    } else {
        values_refs(vs.drop_last()) + value_refs(vs.last())
    }
}

/// Slots that hold only primitives (such as the placeholder-filled closure
/// shell) contribute no references.
pub proof fn lemma_values_refs_empty(vs: Seq<Value>)
    requires
        forall|i: int| 0 <= i < vs.len() ==> value_refs(#[trigger] vs[i]).len() == 0,
    ensures
        values_refs(vs).len() == 0,
    decreases vs.len(),
{
    if vs.len() > 0 {
        assert(forall|i: int|
            0 <= i < vs.drop_last().len() ==> value_refs(#[trigger] vs.drop_last()[i]).len() == 0);
        lemma_values_refs_empty(vs.drop_last());
    }
}

/// What a whole heap object's traversal visits.
pub open spec fn obj_refs(k: ObjKind) -> Seq<GcRef> {
    match k {
        ObjKind::Text(_) => Seq::<GcRef>::empty(),
        ObjKind::Data(d) => d.refs(),
        ObjKind::Code(f) => f.refs(),
        ObjKind::Extern(e) => e.refs(),
        ObjKind::Closure(c) => c.refs(),
        ObjKind::App(a) => a.refs(),
        ObjKind::Userdata => Seq::<GcRef>::empty(),
        ObjKind::Thread => Seq::<GcRef>::empty(),
    }
}

/// Reports the references a slice of values holds, in slot order.
pub fn traverse_values(vs: &Vec<Value>, gc: &mut Collector)
    ensures
        final(gc).marked@ == old(gc).marked@ + values_refs(vs@),
{
    let n = vs.len();
    for i in 0..n
        invariant
            n == vs@.len(),
            gc.marked@ == old(gc).marked@ + values_refs(vs@.take(i as int)),
    {
        match vs[i] {
            Value::Int(_) => (),
            Value::Float(_) => (),
            Value::Text(r) => gc.mark(r),
            Value::Data(r) => gc.mark(r),
            Value::Function(r) => gc.mark(r),
            Value::Closure(r) => gc.mark(r),
            Value::PartialApplication(r) => gc.mark(r),
            Value::Userdata(r) => gc.mark(r),
            Value::Thread(r) => gc.mark(r),
        }
        proof {
            assert(vs@.take(i + 1).drop_last() =~= vs@.take(i as int));
            assert(vs@.take(i + 1).last() == vs@[i as int]);
            assert(gc.marked@ =~= old(gc).marked@ + values_refs(vs@.take(i + 1)));
        }
    }
    proof {
        assert(vs@.take(n as int) =~= vs@);
    }
}

impl Traverseable for Value {
    open spec fn refs(&self) -> Seq<GcRef> {
        value_refs(*self)
    }

    fn traverse(&self, gc: &mut Collector) {
        match *self {
            Value::Int(_) => (),
            Value::Float(_) => (),
            Value::Text(r) => gc.mark(r),
            Value::Data(r) => gc.mark(r),
            Value::Function(r) => gc.mark(r),
            Value::Closure(r) => gc.mark(r),
            Value::PartialApplication(r) => gc.mark(r),
            Value::Userdata(r) => gc.mark(r),
            Value::Thread(r) => gc.mark(r),
        }
        proof {
            assert(gc.marked@ =~= old(gc).marked@ + value_refs(*self));
        }
    }
}

impl Traverseable for DataStruct {
    open spec fn refs(&self) -> Seq<GcRef> {
        values_refs(self.fields@)
    }

    fn traverse(&self, gc: &mut Collector) {
        traverse_values(&self.fields, gc);
    }
}

impl Traverseable for ClosureData {
    open spec fn refs(&self) -> Seq<GcRef> {
        seq![self.function] + values_refs(self.upvars@)
    }

    fn traverse(&self, gc: &mut Collector) {
        gc.mark(self.function);
        traverse_values(&self.upvars, gc);
        proof {
            assert(gc.marked@ =~= old(gc).marked@ + (seq![self.function] + values_refs(
                self.upvars@,
            )));
        }
    }
}

impl Traverseable for BytecodeFunction {
    open spec fn refs(&self) -> Seq<GcRef> {
        self.inner_functions@ + values_refs(self.globals@)
    }

    fn traverse(&self, gc: &mut Collector) {
        let n = self.inner_functions.len();
        for i in 0..n
            invariant
                n == self.inner_functions@.len(),
                gc.marked@ == old(gc).marked@ + self.inner_functions@.take(i as int),
        {
            gc.mark(self.inner_functions[i]);
            proof {
                assert(gc.marked@ =~= old(gc).marked@ + self.inner_functions@.take(i + 1));
            }
        }
        proof {
            assert(self.inner_functions@.take(n as int) =~= self.inner_functions@);
        }
        traverse_values(&self.globals, gc);
        proof {
            assert(gc.marked@ =~= old(gc).marked@ + (self.inner_functions@ + values_refs(
                self.globals@,
            )));
        }
    }
}

impl Traverseable for Callable {
    open spec fn refs(&self) -> Seq<GcRef> {
        match *self {
            Callable::Closure(r) => seq![r],
            Callable::Extern(_) => Seq::<GcRef>::empty(),
        }
    }

    fn traverse(&self, gc: &mut Collector) {
        match *self {
            Callable::Closure(r) => gc.mark(r),
            Callable::Extern(_) => (),
        }
        proof {
            assert(gc.marked@ =~= old(gc).marked@ + self.refs());
        }
    }
}

impl Traverseable for PartialApplicationData {
    open spec fn refs(&self) -> Seq<GcRef> {
        self.function.refs() + values_refs(self.arguments@)
    }

    fn traverse(&self, gc: &mut Collector) {
        self.function.traverse(gc);
        traverse_values(&self.arguments, gc);
        proof {
            assert(gc.marked@ =~= old(gc).marked@ + (self.function.refs() + values_refs(
                self.arguments@,
            )));
        }
    }
}

impl Traverseable for ExternFunction {
    open spec fn refs(&self) -> Seq<GcRef> {
        Seq::<GcRef>::empty()
    }

    /// A native callback is opaque to the collector and must not capture heap
    /// references outside its declared payload, so the wrapper traverses to
    /// nothing.
    fn traverse(&self, gc: &mut Collector) {
        proof {
            assert(gc.marked@ =~= old(gc).marked@ + self.refs());
        }
    }
}

} // verus!
