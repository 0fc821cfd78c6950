//! The placement-definition protocol: every variable-length heap object is
//! sized first and then initialized exactly once into a single reservation,
//! so that its header and trailing inline sequence share one allocation and
//! no throwaway stack value is built first.

use vstd::prelude::*;

use crate::heap::{extends, Gc, HeapObject, ObjKind, MAX_SLOTS};
use crate::traverse::{
    obj_refs, lemma_values_refs_empty, traverse_values, value_refs, values_refs, Collector,
    Traverseable,
};
use crate::value::{Callable, ClosureData, DataStruct, GcRef, PartialApplicationData, Value, VmTag};

verus! {

/// Bytes of one pointer-sized header word (a reference to compiled-function
/// metadata, or an aggregate's tag word).
pub const WORD_BYTES: usize = 8;

/// Bytes of the length header of a trailing inline sequence.
pub const ARRAY_HEADER_BYTES: usize = 8;

/// Bytes of one inline value slot.
pub const VALUE_BYTES: usize = 16;

/// Bytes of an inline callable (a discriminant word and a reference).
pub const CALLABLE_BYTES: usize = 16;

/// Bytes of a trailing inline sequence of `n` value slots, its length header
/// included.
pub open spec fn array_bytes(n: int) -> int {
    ARRAY_HEADER_BYTES as int + VALUE_BYTES as int * n
}

/// The byte size of a heap object under the model layout. The fixed-size
/// kinds (compiled-function metadata, native-function wrappers, boxed
/// resources, threads) take one header word plus an out-of-line payload this
/// model does not account.
pub open spec fn obj_bytes(k: ObjKind) -> int {
    match k {
        ObjKind::Text(s) => ARRAY_HEADER_BYTES as int + s@.len(),
        ObjKind::Data(d) => WORD_BYTES as int + array_bytes(d.fields@.len() as int),
        ObjKind::Code(_) => WORD_BYTES as int,
        ObjKind::Extern(_) => WORD_BYTES as int,
        ObjKind::Closure(c) => WORD_BYTES as int + array_bytes(c.upvars@.len() as int),
        ObjKind::App(a) => CALLABLE_BYTES as int + array_bytes(a.arguments@.len() as int),
        ObjKind::Userdata => WORD_BYTES as int,
        ObjKind::Thread => WORD_BYTES as int,
    }
}

/// Stands for a freshly reserved, logically uninitialized region of exactly
/// `bytes` bytes. A definition's `initialize` consumes it and must account
/// for every byte: the object it yields is exactly as large as the region.
pub struct WriteOnly {
    pub bytes: usize,
}

/// A placement definition `D` for a heap object: `size` reports the exact
/// byte count one instance requires, and `initialize` consumes the
/// definition and writes every field into the reserved region exactly once,
/// the length of any trailing inline sequence included. Everything the
/// traversal contract will later read must be initialized here.
pub trait DataDef: Sized {
    /// What an allocation request needs of the definition (the slot-count
    /// bound that keeps the byte count exact in a machine word).
    spec fn wf(&self) -> bool;

    /// The exact number of bytes one instance requires.
    spec fn size_spec(&self) -> int;

    /// The objects this definition may initialize the region to.
    spec fn constructs(&self, obj: ObjKind) -> bool;

    /// Reports the byte count, deterministically and without allocating.
    fn size(&self) -> (n: usize)
        requires
            self.wf(),
        ensures
            n as int == self.size_spec(),
    ;

    /// Consumes the definition and initializes the reserved region, every
    /// byte of it, to an object the definition describes.
    fn initialize(self, target: WriteOnly) -> (obj: ObjKind)
        requires
            self.wf(),
            target.bytes as int == self.size_spec(),
        ensures
            self.constructs(obj),
            obj_bytes(obj) == target.bytes as int,
    ;
}

/// Definition for tagged aggregates: the tag, and the fields copied from the
/// given slice in order.
pub struct Def {
    pub tag: VmTag,
    pub elems: Vec<Value>,
}

/// Definition for a closure whose upvalues are copied from the given slice.
pub struct ClosureDataDef(pub GcRef, pub Vec<Value>);

/// Definition for a closure shell with the given upvalue count, every slot
/// pre-filled with a zero-valued `Int` placeholder: the two-pass
/// construction used when a closure's own reference must appear among its
/// captured upvalues (allocate the shell, obtain its reference, then patch
/// the slots).
pub struct ClosureInitDef(pub GcRef, pub usize);

/// Definition for a partial application: the callable, and the already
/// supplied arguments copied in call order (that order is preserved exactly;
/// completing the call later indexes them positionally).
pub struct PartialApplicationDataDef(pub Callable, pub Vec<Value>);

impl DataDef for Def {
    open spec fn wf(&self) -> bool {
        self.elems@.len() <= MAX_SLOTS
    }

    open spec fn size_spec(&self) -> int {
        WORD_BYTES as int + array_bytes(self.elems@.len() as int)
    }

    open spec fn constructs(&self, obj: ObjKind) -> bool {
        obj matches ObjKind::Data(d) && d.tag == self.tag && d.fields@ == self.elems@
    }

    fn size(&self) -> (n: usize) {
        WORD_BYTES + ARRAY_HEADER_BYTES + VALUE_BYTES * self.elems.len()
    }

    fn initialize(self, target: WriteOnly) -> (obj: ObjKind) {
        ObjKind::Data(DataStruct { tag: self.tag, fields: self.elems })
    }
}

impl Traverseable for Def {
    open spec fn refs(&self) -> Seq<GcRef> {
        values_refs(self.elems@)
    }

    fn traverse(&self, gc: &mut Collector) {
        traverse_values(&self.elems, gc);
    }
}

impl DataDef for ClosureDataDef {
    open spec fn wf(&self) -> bool {
        self.1@.len() <= MAX_SLOTS
    }

    open spec fn size_spec(&self) -> int {
        WORD_BYTES as int + array_bytes(self.1@.len() as int)
    }

    open spec fn constructs(&self, obj: ObjKind) -> bool {
        obj matches ObjKind::Closure(c) && c.function == self.0 && c.upvars@ == self.1@
    }

    fn size(&self) -> (n: usize) {
        WORD_BYTES + ARRAY_HEADER_BYTES + VALUE_BYTES * self.1.len()
    }

    fn initialize(self, target: WriteOnly) -> (obj: ObjKind) {
        ObjKind::Closure(ClosureData { function: self.0, upvars: self.1 })
    }
}

impl Traverseable for ClosureDataDef {
    open spec fn refs(&self) -> Seq<GcRef> {
        seq![self.0] + values_refs(self.1@)
    }

    fn traverse(&self, gc: &mut Collector) {
        gc.mark(self.0);
        traverse_values(&self.1, gc);
        proof {
            assert(gc.marked@ =~= old(gc).marked@ + (seq![self.0] + values_refs(self.1@)));
        }
    }
}

impl DataDef for ClosureInitDef {
    open spec fn wf(&self) -> bool {
        self.1 <= MAX_SLOTS
    }

    open spec fn size_spec(&self) -> int {
        WORD_BYTES as int + array_bytes(self.1 as int)
    }

    open spec fn constructs(&self, obj: ObjKind) -> bool {
        obj matches ObjKind::Closure(c) && c.function == self.0 && c.upvars@.len() == self.1
            && forall|i: int| 0 <= i < c.upvars@.len() ==> c.upvars@[i] == Value::Int(0)
    }

    fn size(&self) -> (n: usize) {
        WORD_BYTES + ARRAY_HEADER_BYTES + VALUE_BYTES * self.1
    }

    fn initialize(self, target: WriteOnly) -> (obj: ObjKind) {
        let n = self.1;
        let mut upvars: Vec<Value> = Vec::new();
        for i in 0..n
            invariant
                upvars@.len() == i,
                forall|j: int| 0 <= j < i ==> upvars@[j] == Value::Int(0),
        {
            upvars.push(Value::Int(0));
        }
        ObjKind::Closure(ClosureData { function: self.0, upvars })
    }
}

impl Traverseable for ClosureInitDef {
    open spec fn refs(&self) -> Seq<GcRef> {
        seq![self.0]
    }

    fn traverse(&self, gc: &mut Collector) {
        gc.mark(self.0);
        proof {
            assert(gc.marked@ =~= old(gc).marked@ + seq![self.0]);
        }
    }
}

impl DataDef for PartialApplicationDataDef {
    open spec fn wf(&self) -> bool {
        self.1@.len() <= MAX_SLOTS
    }

    open spec fn size_spec(&self) -> int {
        CALLABLE_BYTES as int + array_bytes(self.1@.len() as int)
    }

    open spec fn constructs(&self, obj: ObjKind) -> bool {
        obj matches ObjKind::App(a) && a.function == self.0 && a.arguments@ == self.1@
    }

    fn size(&self) -> (n: usize) {
        CALLABLE_BYTES + ARRAY_HEADER_BYTES + VALUE_BYTES * self.1.len()
    }

    fn initialize(self, target: WriteOnly) -> (obj: ObjKind) {
        ObjKind::App(PartialApplicationData { function: self.0, arguments: self.1 })
    }
}

impl Traverseable for PartialApplicationDataDef {
    open spec fn refs(&self) -> Seq<GcRef> {
        self.0.refs() + values_refs(self.1@)
    }

    fn traverse(&self, gc: &mut Collector) {
        self.0.traverse(gc);
        traverse_values(&self.1, gc);
        proof {
            assert(gc.marked@ =~= old(gc).marked@ + (self.0.refs() + values_refs(self.1@)));
        }
    }
}

impl Gc {
    /// The allocation entry point: reserves exactly `size()` bytes in the
    /// requested generation, hands the definition the reserved region, and
    /// publishes the initialized object under a fresh identity.
    pub fn allocate<D: DataDef>(&mut self, def: D, gen: usize) -> (r: GcRef)
        requires
            def.wf(),
        ensures
            r.index == old(self).objects@.len(),
            r.gen == gen,
            final(self).objects@.len() == old(self).objects@.len() + 1,
            extends(old(self).objects@, final(self).objects@),
            final(self).objects@.last().gen == gen,
            def.constructs(final(self).objects@.last().kind),
    {
        let n = def.size();
        let target = WriteOnly { bytes: n };
        let kind = def.initialize(target);
        let index = self.objects.len();
        self.objects.push(HeapObject { gen, kind });
        GcRef { index, gen }
    }
}

/// Placement correctness for aggregate definitions: the object a `Def`
/// initializes its region to traverses to exactly the heap references
/// present in the definition's input, in order, and is exactly as large as
/// the definition reported.
pub proof fn lemma_def_placement(def: Def, obj: ObjKind)
    requires
        def.constructs(obj),
    ensures
        obj_refs(obj) == def.refs(),
        obj_bytes(obj) == def.size_spec(),
{
}

/// Placement correctness for closure definitions with copied upvalues.
pub proof fn lemma_closure_data_def_placement(def: ClosureDataDef, obj: ObjKind)
    requires
        def.constructs(obj),
    ensures
        obj_refs(obj) == def.refs(),
        obj_bytes(obj) == def.size_spec(),
{
}

/// Placement correctness for placeholder-filled closure shells: the zero
/// placeholders hold no references, so the shell traverses to exactly the
/// function reference the definition named.
pub proof fn lemma_closure_init_def_placement(def: ClosureInitDef, obj: ObjKind)
    requires
        def.constructs(obj),
    ensures
        obj_refs(obj) == def.refs(),
        obj_bytes(obj) == def.size_spec(),
{
    match obj {
        ObjKind::Closure(c) => {
            assert(forall|i: int|
                0 <= i < c.upvars@.len() ==> value_refs(#[trigger] c.upvars@[i]).len() == 0);
            lemma_values_refs_empty(c.upvars@);
            assert(obj_refs(obj) =~= def.refs());
        },
        _ => (),
    }
}

/// Placement correctness for partial-application definitions.
pub proof fn lemma_partial_application_def_placement(def: PartialApplicationDataDef, obj: ObjKind)
    requires
        def.constructs(obj),
    ensures
        obj_refs(obj) == def.refs(),
        obj_bytes(obj) == def.size_spec(),
{
}

} // verus!
