//! The heap arena, its object kinds, and the well-formedness of references.
//!
//! Every generation's objects live in one arena; an object's slot index is
//! its identity, and the generation it was allocated into is recorded both in
//! the object and in every reference to it. The sweep-and-compact mechanics
//! of a collector are out of scope: this module specifies only the allocation
//! and inspection surface a collector and an interpreter rely on.

use vstd::prelude::*;

use crate::value::{
    BytecodeFunction, Callable, ClosureData, DataStruct, ExternFunction, GcRef,
    PartialApplicationData, Symbol, Value, VmIndex, VmTag,
};

verus! {

/// The payload of one heap object.
pub enum ObjKind {
    /// A text buffer (the pointee of a `Value::Text` reference).
    Text(String),
    /// A tagged aggregate.
    Data(DataStruct),
    /// Compiled-function metadata.
    Code(BytecodeFunction),
    /// A native-function wrapper.
    Extern(ExternFunction),
    /// A closure.
    Closure(ClosureData),
    /// A partial application.
    App(PartialApplicationData),
    /// An opaque boxed host resource; its payload cannot be inspected or
    /// duplicated by this core.
    Userdata,
    /// A virtual-machine thread; opaque to this core.
    Thread,
}

/// One arena slot: the generation the object was allocated into, and its
/// payload.
pub struct HeapObject {
    pub gen: usize,
    pub kind: ObjKind,
}

/// The heap: one arena holding every generation's objects. A slot index is
/// an object's identity and never moves or changes kind; allocation only
/// appends. Reclamation of whole generations is the out-of-scope collector's
/// business.
pub struct Gc {
    pub objects: Vec<HeapObject>,
}

/// The most slots one variable-length object may carry; keeps the byte
/// count of every allocation request exact in a machine word.
pub const MAX_SLOTS: usize = 0xFF_FFFF;

/// The reference points at an existing slot and carries the generation that
/// slot was allocated into.
pub open spec fn ref_ok(objs: Seq<HeapObject>, r: GcRef) -> bool {
    r.index < objs.len() && objs[r.index as int].gen == r.gen
}

/// The value's reference (if any) points at an existing slot of the kind the
/// value's variant promises.
pub open spec fn value_ok(objs: Seq<HeapObject>, v: Value) -> bool {
    match v {
        Value::Int(_) => true,
        Value::Float(_) => true,
        Value::Text(r) => ref_ok(objs, r) && objs[r.index as int].kind is Text,
        Value::Data(r) => ref_ok(objs, r) && objs[r.index as int].kind is Data,
        Value::Function(r) => ref_ok(objs, r) && objs[r.index as int].kind is Extern,
        Value::Closure(r) => ref_ok(objs, r) && objs[r.index as int].kind is Closure,
        Value::PartialApplication(r) => ref_ok(objs, r) && objs[r.index as int].kind is App,
        Value::Userdata(r) => ref_ok(objs, r) && objs[r.index as int].kind is Userdata,
        Value::Thread(r) => ref_ok(objs, r) && objs[r.index as int].kind is Thread,
    }
}

pub open spec fn values_ok(objs: Seq<HeapObject>, vs: Seq<Value>) -> bool {
    forall|i: int| 0 <= i < vs.len() ==> value_ok(objs, #[trigger] vs[i])
}

pub open spec fn callable_ok(objs: Seq<HeapObject>, c: Callable) -> bool {
    match c {
        Callable::Closure(r) => ref_ok(objs, r) && objs[r.index as int].kind is Closure,
        Callable::Extern(r) => ref_ok(objs, r) && objs[r.index as int].kind is Extern,
    }
}

/// Every reference an object directly holds is well formed.
pub open spec fn obj_ok(objs: Seq<HeapObject>, o: HeapObject) -> bool {
    match o.kind {
        ObjKind::Text(_) => true,
        ObjKind::Data(d) => values_ok(objs, d.fields@) && d.fields@.len() <= MAX_SLOTS,
        ObjKind::Code(f) => values_ok(objs, f.globals@) && forall|i: int|
            0 <= i < f.inner_functions@.len() ==> ref_ok(objs, #[trigger] f.inner_functions@[i])
                && objs[f.inner_functions@[i].index as int].kind is Code,
        ObjKind::Extern(_) => true,
        ObjKind::Closure(c) => ref_ok(objs, c.function)
            && objs[c.function.index as int].kind is Code && values_ok(objs, c.upvars@)
            && c.upvars@.len() <= MAX_SLOTS,
        ObjKind::App(a) => callable_ok(objs, a.function) && values_ok(objs, a.arguments@)
            && a.arguments@.len() <= MAX_SLOTS,
        ObjKind::Userdata => true,
        ObjKind::Thread => true,
    }
}

/// Every object of the arena is well formed against the arena.
pub open spec fn objects_ok(objs: Seq<HeapObject>) -> bool {
    forall|i: int| 0 <= i < objs.len() ==> obj_ok(objs, #[trigger] objs[i])
}

/// The slots a composite object owns (field, upvalue or argument order);
/// empty for the kinds that own no value slots.
pub open spec fn obj_slots(k: ObjKind) -> Seq<Value> {
    match k {
        ObjKind::Data(d) => d.fields@,
        ObjKind::Closure(c) => c.upvars@,
        ObjKind::App(a) => a.arguments@,
        _ => Seq::<Value>::empty(),
    }
}

/// The kinds whose slots the deep clone patches in place while the object is
/// still unpublished.
pub open spec fn is_composite(k: ObjKind) -> bool {
    k is Data || k is Closure || k is App
}

/// `n` extends `o`: nothing already allocated moved or changed.
pub open spec fn extends(o: Seq<HeapObject>, n: Seq<HeapObject>) -> bool {
    o.len() <= n.len() && forall|i: int| 0 <= i < o.len() ==> n[i] == #[trigger] o[i]
}

/// `n` extends `o` and everything newly allocated carries generation `gen`.
pub open spec fn heap_grown(o: Seq<HeapObject>, n: Seq<HeapObject>, gen: usize) -> bool {
    extends(o, n) && forall|i: int| o.len() <= i < n.len() ==> (#[trigger] n[i]).gen == gen
}

pub open spec fn kind_variant_eq(a: ObjKind, b: ObjKind) -> bool {
    &&& (a is Text <==> b is Text)
    &&& (a is Data <==> b is Data)
    &&& (a is Code <==> b is Code)
    &&& (a is Extern <==> b is Extern)
    &&& (a is Closure <==> b is Closure)
    &&& (a is App <==> b is App)
    &&& (a is Userdata <==> b is Userdata)
    &&& (a is Thread <==> b is Thread)
}

/// Same arena length, and every slot keeps its generation and its kind of
/// payload (the payload itself may differ). Patching a slot of a composite
/// object changes nothing a reference's well-formedness reads.
pub open spec fn same_shape(o: Seq<HeapObject>, n: Seq<HeapObject>) -> bool {
    n.len() == o.len() && forall|i: int|
        0 <= i < o.len() ==> (#[trigger] n[i]).gen == o[i].gen && kind_variant_eq(o[i].kind, n[i].kind)
}

pub proof fn lemma_value_ok_extends(o: Seq<HeapObject>, n: Seq<HeapObject>, v: Value)
    requires
        extends(o, n),
        value_ok(o, v),
    ensures
        value_ok(n, v),
{
}

pub proof fn lemma_values_ok_extends(o: Seq<HeapObject>, n: Seq<HeapObject>, vs: Seq<Value>)
    requires
        extends(o, n),
        values_ok(o, vs),
    ensures
        values_ok(n, vs),
{
    assert forall|i: int| 0 <= i < vs.len() implies value_ok(n, #[trigger] vs[i]) by {
        lemma_value_ok_extends(o, n, vs[i]);
    }
}

pub proof fn lemma_obj_ok_extends(o: Seq<HeapObject>, n: Seq<HeapObject>, obj: HeapObject)
    requires
        extends(o, n),
        obj_ok(o, obj),
    ensures
        obj_ok(n, obj),
{
    match obj.kind {
        ObjKind::Data(d) => lemma_values_ok_extends(o, n, d.fields@),
        ObjKind::Code(f) => lemma_values_ok_extends(o, n, f.globals@),
        ObjKind::Closure(c) => lemma_values_ok_extends(o, n, c.upvars@),
        ObjKind::App(a) => lemma_values_ok_extends(o, n, a.arguments@),
        _ => (),
    }
}

/// Appending a well-formed object keeps the arena well formed.
pub proof fn lemma_objects_ok_push(objs: Seq<HeapObject>, o: HeapObject)
    requires
        objects_ok(objs),
        obj_ok(objs.push(o), o),
    ensures
        objects_ok(objs.push(o)),
{
    let n = objs.push(o);
    assert forall|i: int| 0 <= i < n.len() implies obj_ok(n, #[trigger] n[i]) by {
        if i < objs.len() {
            lemma_obj_ok_extends(objs, n, objs[i]);
        }
    }
}

pub proof fn lemma_value_ok_same_shape(o: Seq<HeapObject>, n: Seq<HeapObject>, v: Value)
    requires
        same_shape(o, n),
        value_ok(o, v),
    ensures
        value_ok(n, v),
{
}

pub proof fn lemma_values_ok_same_shape(o: Seq<HeapObject>, n: Seq<HeapObject>, vs: Seq<Value>)
    requires
        same_shape(o, n),
        values_ok(o, vs),
    ensures
        values_ok(n, vs),
{
    assert forall|i: int| 0 <= i < vs.len() implies value_ok(n, #[trigger] vs[i]) by {
        lemma_value_ok_same_shape(o, n, vs[i]);
    }
}

pub proof fn lemma_obj_ok_same_shape(o: Seq<HeapObject>, n: Seq<HeapObject>, obj: HeapObject)
    requires
        same_shape(o, n),
        obj_ok(o, obj),
    ensures
        obj_ok(n, obj),
{
    match obj.kind {
        ObjKind::Data(d) => lemma_values_ok_same_shape(o, n, d.fields@),
        ObjKind::Code(f) => lemma_values_ok_same_shape(o, n, f.globals@),
        ObjKind::Closure(c) => lemma_values_ok_same_shape(o, n, c.upvars@),
        ObjKind::App(a) => lemma_values_ok_same_shape(o, n, a.arguments@),
        _ => (),
    }
}

impl Gc {
    /// The arena is closed: every reference any object holds is well formed.
    pub open spec fn wf(&self) -> bool {
        objects_ok(self.objects@)
    }

    /// An empty heap.
    pub fn new() -> (gc: Gc)
        ensures
            gc.objects@.len() == 0,
            gc.wf(),
    {
        Gc { objects: Vec::new() }
    }

    /// Allocates a text buffer in generation `gen`.
    pub fn alloc_text(&mut self, content: String, gen: usize) -> (r: GcRef)
        ensures
            r.index == old(self).objects@.len(),
            r.gen == gen,
            final(self).objects@ == old(self).objects@.push(
                (HeapObject { gen, kind: ObjKind::Text(content) }),
            ),
    {
        let index = self.objects.len();
        self.objects.push(HeapObject { gen, kind: ObjKind::Text(content) });
        GcRef { index, gen }
    }

    /// Allocates compiled-function metadata in generation `gen`.
    pub fn alloc_code(&mut self, f: BytecodeFunction, gen: usize) -> (r: GcRef)
        ensures
            r.index == old(self).objects@.len(),
            r.gen == gen,
            final(self).objects@ == old(self).objects@.push(
                (HeapObject { gen, kind: ObjKind::Code(f) }),
            ),
    {
        let index = self.objects.len();
        self.objects.push(HeapObject { gen, kind: ObjKind::Code(f) });
        GcRef { index, gen }
    }

    /// Allocates a native-function wrapper in generation `gen`.
    pub fn alloc_extern(&mut self, f: ExternFunction, gen: usize) -> (r: GcRef)
        ensures
            r.index == old(self).objects@.len(),
            r.gen == gen,
            final(self).objects@ == old(self).objects@.push(
                (HeapObject { gen, kind: ObjKind::Extern(f) }),
            ),
    {
        let index = self.objects.len();
        self.objects.push(HeapObject { gen, kind: ObjKind::Extern(f) });
        GcRef { index, gen }
    }

    /// Allocates an opaque boxed host resource in generation `gen`.
    pub fn alloc_userdata(&mut self, gen: usize) -> (r: GcRef)
        ensures
            r.index == old(self).objects@.len(),
            r.gen == gen,
            final(self).objects@ == old(self).objects@.push(
                (HeapObject { gen, kind: ObjKind::Userdata }),
            ),
    {
        let index = self.objects.len();
        self.objects.push(HeapObject { gen, kind: ObjKind::Userdata });
        GcRef { index, gen }
    }

    /// Allocates a thread object in generation `gen`.
    pub fn alloc_thread(&mut self, gen: usize) -> (r: GcRef)
        ensures
            r.index == old(self).objects@.len(),
            r.gen == gen,
            final(self).objects@ == old(self).objects@.push(
                (HeapObject { gen, kind: ObjKind::Thread }),
            ),
    {
        let index = self.objects.len();
        self.objects.push(HeapObject { gen, kind: ObjKind::Thread });
        GcRef { index, gen }
    }

    /// The text buffer a `Value::Text` reference points at.
    pub fn text_at(&self, r: GcRef) -> (s: &String)
        requires
            r.index < self.objects@.len(),
            self.objects@[r.index as int].kind is Text,
        ensures
            self.objects@[r.index as int].kind == ObjKind::Text(*s),
    {
        match &self.objects[r.index].kind {
            ObjKind::Text(s) => s,
            _ => vstd::pervasive::unreached(),
        }
    }

    /// The tagged aggregate a `Value::Data` reference points at.
    pub fn data_at(&self, r: GcRef) -> (d: &DataStruct)
        requires
            r.index < self.objects@.len(),
            self.objects@[r.index as int].kind is Data,
        ensures
            self.objects@[r.index as int].kind == ObjKind::Data(*d),
    {
        match &self.objects[r.index].kind {
            ObjKind::Data(d) => d,
            _ => vstd::pervasive::unreached(),
        }
    }

    /// The closure a `Value::Closure` reference points at.
    pub fn closure_at(&self, r: GcRef) -> (c: &ClosureData)
        requires
            r.index < self.objects@.len(),
            self.objects@[r.index as int].kind is Closure,
        ensures
            self.objects@[r.index as int].kind == ObjKind::Closure(*c),
    {
        match &self.objects[r.index].kind {
            ObjKind::Closure(c) => c,
            _ => vstd::pervasive::unreached(),
        }
    }

    /// The compiled-function metadata a closure's `function` reference points
    /// at.
    pub fn code_at(&self, r: GcRef) -> (f: &BytecodeFunction)
        requires
            r.index < self.objects@.len(),
            self.objects@[r.index as int].kind is Code,
        ensures
            self.objects@[r.index as int].kind == ObjKind::Code(*f),
    {
        match &self.objects[r.index].kind {
            ObjKind::Code(f) => f,
            _ => vstd::pervasive::unreached(),
        }
    }

    /// The partial application a `Value::PartialApplication` reference points
    /// at.
    pub fn app_at(&self, r: GcRef) -> (a: &PartialApplicationData)
        requires
            r.index < self.objects@.len(),
            self.objects@[r.index as int].kind is App,
        ensures
            self.objects@[r.index as int].kind == ObjKind::App(*a),
    {
        match &self.objects[r.index].kind {
            ObjKind::App(a) => a,
            _ => vstd::pervasive::unreached(),
        }
    }

    /// The native-function wrapper a `Value::Function` reference points at.
    pub fn extern_at(&self, r: GcRef) -> (f: &ExternFunction)
        requires
            r.index < self.objects@.len(),
            self.objects@[r.index as int].kind is Extern,
        ensures
            self.objects@[r.index as int].kind == ObjKind::Extern(*f),
    {
        match &self.objects[r.index].kind {
            ObjKind::Extern(f) => f,
            _ => vstd::pervasive::unreached(),
        }
    }

    /// Overwrites one slot of a composite object. Used only during the
    /// initialization windows the design allows: patching a closure shell's
    /// upvalue slots, and patching a deep-clone shell, both before the new
    /// reference is published.
    pub fn set_slot(&mut self, r: GcRef, i: usize, v: Value)
        requires
            r.index < old(self).objects@.len(),
            is_composite(old(self).objects@[r.index as int].kind),
            i < obj_slots(old(self).objects@[r.index as int].kind).len(),
        ensures
            final(self).objects@.len() == old(self).objects@.len(),
            forall|j: int|
                0 <= j < final(self).objects@.len() && j != r.index ==> final(self).objects@[j]
                    == old(self).objects@[j],
            final(self).objects@[r.index as int].gen == old(self).objects@[r.index as int].gen,
            obj_slots(final(self).objects@[r.index as int].kind) == obj_slots(
                old(self).objects@[r.index as int].kind,
            ).update(i as int, v),
            old(self).objects@[r.index as int].kind matches ObjKind::Data(d0) ==> (
            final(self).objects@[r.index as int].kind matches ObjKind::Data(d1) && d1.tag
                == d0.tag),
            old(self).objects@[r.index as int].kind matches ObjKind::Closure(c0) ==> (
            final(self).objects@[r.index as int].kind matches ObjKind::Closure(c1)
                && c1.function == c0.function),
            old(self).objects@[r.index as int].kind matches ObjKind::App(a0) ==> (
            final(self).objects@[r.index as int].kind matches ObjKind::App(a1) && a1.function
                == a0.function),
            same_shape(old(self).objects@, final(self).objects@),
    {
        let g = self.objects[r.index].gen;
        let kind = match &self.objects[r.index].kind {
            ObjKind::Data(d) => {
                let mut fields = copy_values(&d.fields);
                fields[i] = v;
                ObjKind::Data(DataStruct { tag: d.tag, fields })
            },
            ObjKind::Closure(c) => {
                let mut upvars = copy_values(&c.upvars);
                upvars[i] = v;
                ObjKind::Closure(ClosureData { function: c.function, upvars })
            },
            ObjKind::App(a) => {
                let mut arguments = copy_values(&a.arguments);
                arguments[i] = v;
                ObjKind::App(PartialApplicationData { function: a.function, arguments })
            },
            _ => vstd::pervasive::unreached(),
        };
        self.objects[r.index] = HeapObject { gen: g, kind };
    }
}

/// Copies a slice of values (values are handles, so this copies no heap
/// object).
pub fn copy_values(src: &Vec<Value>) -> (out: Vec<Value>)
    ensures
        out@ == src@,
{
    let mut out: Vec<Value> = Vec::new();
    let n = src.len();
    for i in 0..n
        invariant
            n == src@.len(),
            out@ == src@.take(i as int),
    {
        out.push(src[i]);
        proof {
            assert(out@ =~= src@.take(i + 1));
        }
    }
    proof {
        assert(src@.take(n as int) =~= src@);
    }
    out
}

/// The position of the first slot whose compiled field name matches, if any.
pub open spec fn name_index(names: Seq<Symbol>, name: Symbol) -> Option<int>
    decreases names.len(),
{
    if names.len() == 0 {
        None
    } else if names[0] == name {
        Some(0int)
    } else {
        match name_index(names.drop_first(), name) {
            Some(i) => Some(i + 1),
            None => None,
        }
    }
}

/// `name_index` finds exactly the first match.
pub proof fn lemma_name_index(names: Seq<Symbol>, name: Symbol)
    ensures
        name_index(names, name) matches Some(i) ==> (0 <= i < names.len() && names[i] == name
            && forall|j: int| 0 <= j < i ==> names[j] != name),
        name_index(names, name) is None ==> forall|j: int| 0 <= j < names.len() ==> names[j]
            != name,
    decreases names.len(),
{
    if names.len() > 0 && names[0] != name {
        let rest = names.drop_first();
        lemma_name_index(rest, name);
        match name_index(rest, name) {
            Some(i) => {
                assert(rest[i] == names[i + 1]);
                assert forall|j: int| 0 <= j < i + 1 implies names[j] != name by {
                    if j > 0 {
                        assert(rest[j - 1] == names[j]);
                        assert(rest[j - 1] != name);
                    }
                }
            },
            None => {
                assert forall|j: int| 0 <= j < names.len() implies names[j] != name by {
                    if j > 0 {
                        assert(rest[j - 1] == names[j]);
                        assert(rest[j - 1] != name);
                    }
                }
            },
        }
    }
}

impl Gc {
    /// The tag of a tagged aggregate: which struct or enum-variant shape its
    /// fields follow.
    pub fn tag(&self, data: GcRef) -> (t: VmTag)
        requires
            data.index < self.objects@.len(),
            self.objects@[data.index as int].kind is Data,
        ensures
            t == self.objects@[data.index as int].kind->Data_0.tag,
    {
        self.data_at(data).tag
    }

    /// Field-by-index lookup on a tagged aggregate: the `index`th slot's
    /// value, in construction order, or nothing when the index is out of
    /// range (the marshalling layer treats that as a fatal mismatch between
    /// compiled and native type layout).
    pub fn get_variant(&self, data: GcRef, index: usize) -> (o: Option<Value>)
        requires
            data.index < self.objects@.len(),
            self.objects@[data.index as int].kind is Data,
        ensures
            ({
                let fields = self.objects@[data.index as int].kind->Data_0.fields@;
                if index < fields.len() {
                    o == Some(fields[index as int])
                } else {
                    o is None
                }
            }),
    {
        let d = self.data_at(data);
        if index < d.fields.len() {
            Some(d.fields[index])
        } else {
            None
        }
    }

    /// Field-by-name lookup on a tagged aggregate, consumed by the
    /// marshalling layer to reconstruct native structs. The compiled type's
    /// field names are supplied by the caller (type metadata lives outside
    /// this core), one per slot in slot order; the first slot whose name
    /// matches is returned, or nothing when no name matches (a fatal layout
    /// mismatch for the caller).
    pub fn lookup_field(&self, data: GcRef, names: &Vec<Symbol>, name: Symbol) -> (o: Option<
        Value,
    >)
        requires
            data.index < self.objects@.len(),
            self.objects@[data.index as int].kind is Data,
            names@.len() == self.objects@[data.index as int].kind->Data_0.fields@.len(),
        ensures
            ({
                let fields = self.objects@[data.index as int].kind->Data_0.fields@;
                match name_index(names@, name) {
                    Some(i) => o == Some(fields[i]),
                    None => o is None,
                }
            }),
    {
        proof {
            lemma_name_index(names@, name);
        }
        let d = self.data_at(data);
        let n = names.len();
        for i in 0..n
            invariant
                n == names@.len(),
                n == d.fields@.len(),
                self.objects@[data.index as int].kind == ObjKind::Data(*d),
                forall|j: int| 0 <= j < i ==> names@[j] != name,
        {
            if names[i] == name {
                proof {
                    lemma_name_index(names@, name);
                    if name_index(names@, name) is None {
                        assert(names@[i as int] != name);
                    }
                    let w = name_index(names@, name)->Some_0;
                    if w < i as int {
                        assert(names@[w] != name);
                    }
                    if w > i as int {
                        assert(names@[i as int] != name);
                    }
                }
                return Some(d.fields[i]);
            }
        }
        proof {
            lemma_name_index(names@, name);
            match name_index(names@, name) {
                Some(w) => {
                    assert(names@[w] == name);
                    assert(false);
                },
                None => {},
            }
        }
        None
    }
}

/// What `Callable::name` reads from the heap: the compiled function's name
/// for a closure, the identifier for a native-function wrapper.
pub open spec fn callable_name(objs: Seq<HeapObject>, c: Callable) -> Symbol {
    match c {
        Callable::Closure(r) => {
            let cl = objs[r.index as int].kind->Closure_0;
            objs[cl.function.index as int].kind->Code_0.name
        },
        Callable::Extern(r) => objs[r.index as int].kind->Extern_0.id,
    }
}

/// What `Callable::args` reads from the heap: the declared arity.
pub open spec fn callable_args(objs: Seq<HeapObject>, c: Callable) -> VmIndex {
    match c {
        Callable::Closure(r) => {
            let cl = objs[r.index as int].kind->Closure_0;
            objs[cl.function.index as int].kind->Code_0.args
        },
        Callable::Extern(r) => objs[r.index as int].kind->Extern_0.args,
    }
}

impl Callable {
    /// The symbol naming this callable.
    pub fn name(&self, gc: &Gc) -> (s: Symbol)
        requires
            gc.wf(),
            callable_ok(gc.objects@, *self),
        ensures
            s == callable_name(gc.objects@, *self),
    {
        match self {
            Callable::Closure(r) => {
                proof {
                    assert(obj_ok(gc.objects@, gc.objects@[r.index as int]));
                }
                let fref = gc.closure_at(*r).function;
                gc.code_at(fref).name
            },
            Callable::Extern(r) => gc.extern_at(*r).id,
        }
    }

    /// The declared arity of this callable.
    pub fn args(&self, gc: &Gc) -> (a: VmIndex)
        requires
            gc.wf(),
            callable_ok(gc.objects@, *self),
        ensures
            a == callable_args(gc.objects@, *self),
    {
        match self {
            Callable::Closure(r) => {
                proof {
                    assert(obj_ok(gc.objects@, gc.objects@[r.index as int]));
                }
                let fref = gc.closure_at(*r).function;
                gc.code_at(fref).args
            },
            Callable::Extern(r) => gc.extern_at(*r).args,
        }
    }
}

} // verus!
