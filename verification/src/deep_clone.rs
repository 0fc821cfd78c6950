//! The deep clone: reconstructs, inside a target (older) generation, a value
//! graph that lives in a younger generation, preserving identity-sharing and
//! cycles and refusing the kinds that cannot be duplicated.

use vstd::prelude::*;

use crate::defs::{ClosureDataDef, Def, PartialApplicationDataDef};
use crate::heap::{
    callable_ok, copy_values, extends, heap_grown, lemma_obj_ok_same_shape, lemma_objects_ok_push,
    lemma_value_ok_extends, lemma_value_ok_same_shape, lemma_values_ok_extends, obj_ok, obj_slots,
    objects_ok, ref_ok, same_shape, value_ok, Gc, HeapObject, ObjKind,
};
use crate::value::{GcRef, Value};
use crate::visited::VisitedMap;

verus! {

/// The failure a deep clone reports. It is an ordinary result, recoverable
/// by the caller (the promotion may be refused and the value left in
/// place); already-existing heap state is never touched by the failure.
#[derive(Clone, Copy, PartialEq, Eq, Structural, Debug)]
pub enum VmError {
    /// Native callbacks, opaque host resources and threads cannot be
    /// duplicated or reinterpreted as belonging to a different generation.
    Uncloneable,
}

impl VmError {
    /// The diagnostic the embedding surfaces for this failure.
    pub fn message(&self) -> (s: &'static str)
        ensures
            s@ == "Threads, Userdata and Extern functions cannot be deep cloned yet"@,
    {
        "Threads, Userdata and Extern functions cannot be deep cloned yet"
    }
}

/// The identities of the objects that are younger than the target
/// generation: the objects a clone into `gen` may still have to copy.
pub open spec fn young_set(objs: Seq<HeapObject>, gen: usize) -> Set<int> {
    Set::new(|i: int| 0 <= i < objs.len() && objs[i].gen > gen)
}

/// A value a clone into `gen` never refuses: either it already lives at or
/// below the target generation (the short-circuit returns it unchanged), or
/// it is of a cloneable kind.
pub open spec fn cloneable_value(v: Value, gen: usize) -> bool {
    v.spec_generation() <= gen || !(v is Function || v is Userdata || v is Thread)
}

pub open spec fn cloneable_values(vs: Seq<Value>, gen: usize) -> bool {
    forall|i: int| 0 <= i < vs.len() ==> cloneable_value(#[trigger] vs[i], gen)
}

pub open spec fn cloneable_obj(o: HeapObject, gen: usize) -> bool {
    match o.kind {
        ObjKind::Data(d) => cloneable_values(d.fields@, gen),
        ObjKind::Closure(c) => cloneable_values(c.upvars@, gen),
        ObjKind::App(a) => cloneable_values(a.arguments@, gen),
        _ => true,
    }
}

/// No slot of any composite object holds a value a clone into `gen` would
/// refuse: the condition under which a deep clone is owed success.
pub open spec fn cloneable_heap(objs: Seq<HeapObject>, gen: usize) -> bool {
    forall|i: int| 0 <= i < objs.len() ==> cloneable_obj(#[trigger] objs[i], gen)
}

/// The value recorded for a visited source object is of the same kind as
/// the source.
pub open spec fn kind_matches(k: ObjKind, v: Value) -> bool {
    match k {
        ObjKind::Text(_) => v is Text,
        ObjKind::Data(_) => v is Data,
        ObjKind::Closure(_) => v is Closure,
        ObjKind::App(_) => v is PartialApplication,
        _ => false,
    }
}

/// What holds of the visited map throughout one clone: keys are identities
/// of younger-generation objects, and each recorded value is a well-formed,
/// already-rehomed value of the source object's kind.
pub open spec fn visited_ok(m: &VisitedMap, objs: Seq<HeapObject>, gen: usize) -> bool {
    &&& m.wf()
    &&& forall|k: usize| #[trigger] m.spec_get(k) is Some ==> {
        &&& k < objs.len()
        &&& objs[k as int].gen > gen
        &&& value_ok(objs, m.spec_get(k)->Some_0)
        &&& m.spec_get(k)->Some_0.spec_generation() <= gen
        &&& cloneable_value(m.spec_get(k)->Some_0, gen)
        &&& kind_matches(objs[k as int].kind, m.spec_get(k)->Some_0)
    }
}

/// The map only grows: what one step recorded, every later step still sees.
pub open spec fn visited_grown(o: &VisitedMap, n: &VisitedMap) -> bool {
    forall|k: usize| #[trigger] o.spec_get(k) is Some ==> n.spec_get(k) == o.spec_get(k)
}

/// How a cloned slot relates to its source slot: a value at or below the
/// target generation is kept verbatim; a younger value is replaced by the
/// clone the visited map records for its source identity.
pub open spec fn clone_rel(src: Value, dst: Value, m: &VisitedMap, gen: usize) -> bool {
    if src.spec_generation() <= gen {
        dst == src
    } else {
        match src.heap_ref() {
            Some(r) => m.spec_get(r.index) == Some(dst),
            None => false,
        }
    }
}

/// What every step of a clone preserves: the heap only grows, and only with
/// target-generation objects; nothing already allocated is touched; the
/// visited map only grows and stays well formed against the grown heap.
pub open spec fn clone_frame(gc0: Gc, gc1: Gc, m0: &VisitedMap, m1: &VisitedMap, gen: usize) -> bool {
    &&& gc1.wf()
    &&& heap_grown(gc0.objects@, gc1.objects@, gen)
    &&& visited_ok(m1, gc1.objects@, gen)
    &&& visited_grown(m0, m1)
    &&& m1.len_spec() >= m0.len_spec()
    &&& young_set(gc1.objects@, gen) == young_set(gc0.objects@, gen)
    &&& (cloneable_heap(gc0.objects@, gen) ==> cloneable_heap(gc1.objects@, gen))
}

/// The shape of a freshly cloned aggregate: same tag, same field count, and
/// each field related to its source field in source order.
pub open spec fn data_clone_shape(
    o: Seq<HeapObject>,
    n: Seq<HeapObject>,
    rf: GcRef,
    out: Value,
    m: &VisitedMap,
    gen: usize,
) -> bool {
    &&& out matches Value::Data(p)
    &&& p.gen == gen
    &&& p.index == o.len()
    &&& p.index < n.len()
    &&& o[rf.index as int].kind matches ObjKind::Data(sd)
    &&& n[p.index as int].kind matches ObjKind::Data(nd)
    &&& nd.tag == sd.tag
    &&& nd.fields@.len() == sd.fields@.len()
    &&& forall|i: int| 0 <= i < sd.fields@.len() ==> clone_rel(sd.fields@[i], nd.fields@[i], m, gen)
}

/// The shape of a freshly cloned closure: the function reference is kept
/// verbatim, and each upvalue is related to its source upvalue in capture
/// order.
pub open spec fn closure_clone_shape(
    o: Seq<HeapObject>,
    n: Seq<HeapObject>,
    rf: GcRef,
    out: Value,
    m: &VisitedMap,
    gen: usize,
) -> bool {
    &&& out matches Value::Closure(p)
    &&& p.gen == gen
    &&& p.index == o.len()
    &&& p.index < n.len()
    &&& o[rf.index as int].kind matches ObjKind::Closure(sc)
    &&& n[p.index as int].kind matches ObjKind::Closure(nc)
    &&& nc.function == sc.function
    &&& nc.upvars@.len() == sc.upvars@.len()
    &&& forall|i: int| 0 <= i < sc.upvars@.len() ==> clone_rel(sc.upvars@[i], nc.upvars@[i], m, gen)
}

/// The shape of a freshly cloned partial application: the callable is kept
/// verbatim, and each supplied argument is related to its source argument in
/// call order.
pub open spec fn app_clone_shape(
    o: Seq<HeapObject>,
    n: Seq<HeapObject>,
    rf: GcRef,
    out: Value,
    m: &VisitedMap,
    gen: usize,
) -> bool {
    &&& out matches Value::PartialApplication(p)
    &&& p.gen == gen
    &&& p.index == o.len()
    &&& p.index < n.len()
    &&& o[rf.index as int].kind matches ObjKind::App(sa)
    &&& n[p.index as int].kind matches ObjKind::App(na)
    &&& na.function == sa.function
    &&& na.arguments@.len() == sa.arguments@.len()
    &&& forall|i: int|
        0 <= i < sa.arguments@.len() ==> clone_rel(sa.arguments@[i], na.arguments@[i], m, gen)
}

/// The shape of a freshly cloned string: a new object in the target
/// generation whose content equals the source content.
pub open spec fn text_clone_shape(
    o: Seq<HeapObject>,
    n: Seq<HeapObject>,
    rf: GcRef,
    out: Value,
    m: &VisitedMap,
    gen: usize,
) -> bool {
    &&& out matches Value::Text(p)
    &&& p.gen == gen
    &&& p.index == o.len()
    &&& p.index < n.len()
    &&& o[rf.index as int].kind matches ObjKind::Text(t0)
    &&& n[p.index as int].kind matches ObjKind::Text(t1)
    &&& t1@ == t0@
}

/// Sharing preservation: two slots of a cloned composite whose source slots
/// were the same value are filled with the same cloned value (identity, not
/// just content).
pub proof fn lemma_sharing_preserved(
    src: Seq<Value>,
    dst: Seq<Value>,
    m: &VisitedMap,
    gen: usize,
    i: int,
    j: int,
)
    requires
        0 <= i < src.len(),
        0 <= j < src.len(),
        dst.len() == src.len(),
        clone_rel(src[i], dst[i], m, gen),
        clone_rel(src[j], dst[j], m, gen),
        src[i] == src[j],
    ensures
        dst[i] == dst[j],
{
}

/// The younger-than-`gen` identities are finitely many: no more than the
/// arena holds slots.
pub proof fn lemma_young_set_finite(objs: Seq<HeapObject>, gen: usize)
    ensures
        young_set(objs, gen).finite(),
        young_set(objs, gen).len() <= objs.len(),
{
    broadcast use vstd::set::group_set_axioms;

    let ys = young_set(objs, gen);
    let rng = vstd::set_lib::set_int_range(0, objs.len() as int);
    vstd::set_lib::lemma_int_range(0, objs.len() as int);
    assert(ys.subset_of(rng));
    vstd::set_lib::lemma_len_subset(ys, rng);
}

/// Allocating into the target generation leaves the set of younger
/// identities unchanged.
pub proof fn lemma_young_set_grown(o: Seq<HeapObject>, n: Seq<HeapObject>, gen: usize)
    requires
        heap_grown(o, n, gen),
    ensures
        young_set(n, gen) == young_set(o, gen),
{
    assert(young_set(n, gen) =~= young_set(o, gen));
}

/// Patching a slot in place leaves the set of younger identities unchanged.
pub proof fn lemma_young_set_same_shape(o: Seq<HeapObject>, n: Seq<HeapObject>, gen: usize)
    requires
        same_shape(o, n),
    ensures
        young_set(n, gen) == young_set(o, gen),
{
    assert(young_set(n, gen) =~= young_set(o, gen));
}

/// The visited map never holds more entries than there are younger objects:
/// the measure every recursive clone step decreases.
pub proof fn lemma_measure(m: &VisitedMap, objs: Seq<HeapObject>, gen: usize)
    requires
        visited_ok(m, objs, gen),
    ensures
        m.len_spec() <= young_set(objs, gen).len(),
        young_set(objs, gen).finite(),
{
    broadcast use vstd::set::group_set_axioms;

    m.lemma_dom();
    lemma_young_set_finite(objs, gen);
    assert forall|x: int| m.dom().contains(x) implies young_set(objs, gen).contains(x) by {
        let k = choose|k: usize| k as int == x && #[trigger] m.spec_get(k) is Some;
        assert(k < objs.len() && objs[k as int].gen > gen);
    }
    vstd::set_lib::lemma_len_subset(m.dom(), young_set(objs, gen));
}

/// Growing the heap twice grows it once.
pub proof fn lemma_heap_grown_trans(
    a: Seq<HeapObject>,
    b: Seq<HeapObject>,
    c: Seq<HeapObject>,
    gen: usize,
)
    requires
        heap_grown(a, b, gen),
        heap_grown(b, c, gen),
    ensures
        heap_grown(a, c, gen),
{
    assert forall|x: int| 0 <= x < a.len() implies c[x] == #[trigger] a[x] by {
        assert(b[x] == a[x]);
        assert(c[x] == b[x]);
    }
    assert forall|x: int| a.len() <= x < c.len() implies (#[trigger] c[x]).gen == gen by {
        if x < b.len() {
            assert(c[x] == b[x]);
        }
    }
}

/// Patching a slot of an object that was allocated after the snapshot keeps
/// the snapshot grown-from.
pub proof fn lemma_heap_grown_patch(
    a: Seq<HeapObject>,
    b: Seq<HeapObject>,
    c: Seq<HeapObject>,
    gen: usize,
    idx: int,
)
    requires
        heap_grown(a, b, gen),
        same_shape(b, c),
        a.len() <= idx,
        forall|j: int| 0 <= j < b.len() && j != idx ==> c[j] == b[j],
    ensures
        heap_grown(a, c, gen),
{
    assert forall|x: int| 0 <= x < a.len() implies c[x] == #[trigger] a[x] by {
        assert(c[x] == b[x]);
    }
    assert forall|x: int| a.len() <= x < c.len() implies (#[trigger] c[x]).gen == gen by {
        assert(c[x].gen == b[x].gen);
    }
}

/// A map grown twice is grown once.
pub proof fn lemma_visited_grown_trans(a: &VisitedMap, b: &VisitedMap, c: &VisitedMap)
    requires
        visited_grown(a, b),
        visited_grown(b, c),
    ensures
        visited_grown(a, c),
{
    assert forall|k: usize| #[trigger] a.spec_get(k) is Some implies c.spec_get(k) == a.spec_get(
        k,
    ) by {
        assert(b.spec_get(k) == a.spec_get(k));
        assert(b.spec_get(k) is Some);
    }
}

/// Cycle resolution: when a source slot of a freshly cloned aggregate
/// referred back to the source object itself, the corresponding slot of the
/// clone refers back to the clone itself — the cycle is reproduced, not
/// unrolled.
pub proof fn lemma_cycle_resolves_to_clone(
    o: Seq<HeapObject>,
    n: Seq<HeapObject>,
    rf: GcRef,
    out: Value,
    m: &VisitedMap,
    gen: usize,
    i: int,
)
    requires
        data_clone_shape(o, n, rf, out, m, gen),
        m.spec_get(rf.index) == Some(out),
        rf.gen > gen,
        0 <= i < o[rf.index as int].kind->Data_0.fields@.len(),
        o[rf.index as int].kind->Data_0.fields@[i] == Value::Data(rf),
    ensures
        n[out->Data_0.index as int].kind->Data_0.fields@[i] == out,
{
    assert(clone_rel(
        o[rf.index as int].kind->Data_0.fields@[i],
        n[out->Data_0.index as int].kind->Data_0.fields@[i],
        m,
        gen,
    ));
}

/// A visited map stays well formed when the arena only grows.
pub proof fn lemma_visited_ok_extends(
    m: &VisitedMap,
    before: Seq<HeapObject>,
    after: Seq<HeapObject>,
    gen: usize,
)
    requires
        visited_ok(m, before, gen),
        extends(before, after),
    ensures
        visited_ok(m, after, gen),
{
    assert forall|k: usize| #[trigger] m.spec_get(k) is Some implies {
        &&& k < after.len()
        &&& after[k as int].gen > gen
        &&& value_ok(after, m.spec_get(k)->Some_0)
        &&& m.spec_get(k)->Some_0.spec_generation() <= gen
        &&& cloneable_value(m.spec_get(k)->Some_0, gen)
        &&& kind_matches(after[k as int].kind, m.spec_get(k)->Some_0)
    } by {
        lemma_value_ok_extends(before, after, m.spec_get(k)->Some_0);
    }
}

/// A visited map stays well formed when a slot is patched in place.
pub proof fn lemma_visited_ok_same_shape(
    m: &VisitedMap,
    before: Seq<HeapObject>,
    after: Seq<HeapObject>,
    gen: usize,
)
    requires
        visited_ok(m, before, gen),
        same_shape(before, after),
    ensures
        visited_ok(m, after, gen),
{
    assert forall|k: usize| #[trigger] m.spec_get(k) is Some implies {
        &&& k < after.len()
        &&& after[k as int].gen > gen
        &&& value_ok(after, m.spec_get(k)->Some_0)
        &&& m.spec_get(k)->Some_0.spec_generation() <= gen
        &&& cloneable_value(m.spec_get(k)->Some_0, gen)
        &&& kind_matches(after[k as int].kind, m.spec_get(k)->Some_0)
    } by {
        lemma_value_ok_same_shape(before, after, m.spec_get(k)->Some_0);
    }
}

/// Patching one slot of a composite object with a well-formed value keeps
/// the whole arena well formed.
pub proof fn lemma_patched_ok(
    before: Seq<HeapObject>,
    after: Seq<HeapObject>,
    idx: int,
    i: int,
    c: Value,
)
    requires
        objects_ok(before),
        same_shape(before, after),
        forall|j: int| 0 <= j < before.len() && j != idx ==> after[j] == before[j],
        0 <= idx < before.len(),
        0 <= i < obj_slots(before[idx].kind).len(),
        obj_slots(after[idx].kind) == obj_slots(before[idx].kind).update(i, c),
        value_ok(before, c),
        before[idx].kind matches ObjKind::Closure(c0) ==> (
        after[idx].kind matches ObjKind::Closure(c1) && c1.function == c0.function),
        before[idx].kind matches ObjKind::App(a0) ==> (
        after[idx].kind matches ObjKind::App(a1) && a1.function == a0.function),
    ensures
        objects_ok(after),
{
    assert forall|x: int| 0 <= x < after.len() implies obj_ok(after, #[trigger] after[x]) by {
        if x != idx {
            lemma_obj_ok_same_shape(before, after, before[x]);
        } else {
            let ps = obj_slots(before[idx].kind);
            let ns = obj_slots(after[idx].kind);
            assert(obj_ok(before, before[idx]));
            assert forall|j: int| 0 <= j < ns.len() implies value_ok(after, #[trigger] ns[j]) by {
                if j == i {
                    lemma_value_ok_same_shape(before, after, c);
                } else {
                    assert(ns[j] == ps[j]);
                    lemma_value_ok_same_shape(before, after, ps[j]);
                }
            }
            match before[idx].kind {
                ObjKind::Closure(c0) => {
                    assert(ref_ok(after, c0.function));
                },
                ObjKind::App(a0) => {
                    assert(callable_ok(after, a0.function));
                },
                _ => (),
            }
        }
    }
}

/// Patching a slot with an already-rehomed value keeps the heap one a clone
/// is owed success on.
pub proof fn lemma_cloneable_patched(
    before: Seq<HeapObject>,
    after: Seq<HeapObject>,
    gen: usize,
    idx: int,
    i: int,
    c: Value,
)
    requires
        cloneable_heap(before, gen),
        same_shape(before, after),
        forall|j: int| 0 <= j < before.len() && j != idx ==> after[j] == before[j],
        0 <= idx < before.len(),
        0 <= i < obj_slots(before[idx].kind).len(),
        obj_slots(after[idx].kind) == obj_slots(before[idx].kind).update(i, c),
        c.spec_generation() <= gen,
    ensures
        cloneable_heap(after, gen),
{
    assert forall|x: int| 0 <= x < after.len() implies cloneable_obj(
        #[trigger] after[x],
        gen,
    ) by {
        if x != idx {
            assert(after[x] == before[x]);
            assert(cloneable_obj(before[x], gen));
        } else {
            let ps = obj_slots(before[idx].kind);
            let ns = obj_slots(after[idx].kind);
            assert(cloneable_obj(before[idx], gen));
            assert forall|j: int| 0 <= j < ns.len() implies cloneable_value(
                #[trigger] ns[j],
                gen,
            ) by {
                if j != i {
                    assert(ns[j] == ps[j]);
                    assert(cloneable_value(ps[j], gen));
                }
            }
        }
    }
}

/// Looks up a string by source identity: if it was already visited, the
/// previously produced value is returned (two fields pointing at one string
/// before the clone point at one string after); otherwise a fresh string is
/// allocated in the target generation from the source content and the
/// mapping is recorded.
fn deep_clone_str(data: GcRef, visited: &mut VisitedMap, gc: &mut Gc, gen: usize) -> (r: Result<
    Value,
    VmError,
>)
    requires
        old(gc).wf(),
        visited_ok(old(visited), old(gc).objects@, gen),
        ref_ok(old(gc).objects@, data),
        old(gc).objects@[data.index as int].kind is Text,
        data.gen > gen,
    ensures
        clone_frame(*old(gc), *final(gc), old(visited), final(visited), gen),
        r matches Ok(out) ==> value_ok(final(gc).objects@, out) && out.spec_generation() <= gen
            && final(visited).spec_get(data.index) == Some(out),
        old(visited).spec_get(data.index) matches Some(v0) ==> (*final(gc) == *old(gc)
            && *final(visited) == *old(visited) && r == Ok::<Value, VmError>(v0)),
        r is Ok,
        old(visited).spec_get(data.index) is None ==> (r matches Ok(out) ==> text_clone_shape(
            old(gc).objects@,
            final(gc).objects@,
            data,
            out,
            final(visited),
            gen,
        )),
{
    match visited.get(data.index) {
        Some(v) => Ok(v),
        None => {
            let content = gc.text_at(data).clone();
            let nref = gc.alloc_text(content, gen);
            let out = Value::Text(nref);
            proof {
                let objs0 = old(gc).objects@;
                let objs1 = gc.objects@;
                assert(extends(objs0, objs1));
                assert(obj_ok(objs1, objs1.last()));
                assert(objs1 =~= objs0.push(objs1.last()));
                lemma_objects_ok_push(objs0, objs1.last());
                lemma_visited_ok_extends(visited, objs0, objs1, gen);
                lemma_young_set_grown(objs0, objs1, gen);
                if cloneable_heap(objs0, gen) {
                    assert forall|x: int| 0 <= x < objs1.len() implies cloneable_obj(
                        #[trigger] objs1[x],
                        gen,
                    ) by {
                        if x < objs0.len() {
                            assert(cloneable_obj(objs0[x], gen));
                        }
                    }
                }
            }
            visited.insert(data.index, out);
            proof {
                assert forall|k: usize| #[trigger] visited.spec_get(k) is Some implies {
                    &&& k < gc.objects@.len()
                    &&& gc.objects@[k as int].gen > gen
                    &&& value_ok(gc.objects@, visited.spec_get(k)->Some_0)
                    &&& visited.spec_get(k)->Some_0.spec_generation() <= gen
                    &&& cloneable_value(visited.spec_get(k)->Some_0, gen)
                    &&& kind_matches(gc.objects@[k as int].kind, visited.spec_get(k)->Some_0)
                } by {
                    if k != data.index {
                        assert(old(visited).spec_get(k) is Some);
                    }
                }
            }
            Ok(out)
        },
    }
}

/// Clones a tagged aggregate: on a visited hit the recorded value is
/// returned untouched; otherwise a shell with the source tag and the
/// verbatim source fields is allocated in the target generation, registered
/// under the source identity before any recursion (so cycles resolve to the
/// shell), and then each field is overwritten with its own deep clone in
/// source order.
fn deep_clone_data(data: GcRef, visited: &mut VisitedMap, gc: &mut Gc, gen: usize) -> (r: Result<
    GcRef,
    VmError,
>)
    requires
        old(gc).wf(),
        visited_ok(old(visited), old(gc).objects@, gen),
        ref_ok(old(gc).objects@, data),
        old(gc).objects@[data.index as int].kind is Data,
        data.gen > gen,
    ensures
        clone_frame(*old(gc), *final(gc), old(visited), final(visited), gen),
        r matches Ok(p) ==> value_ok(final(gc).objects@, Value::Data(p)) && p.gen <= gen
            && final(visited).spec_get(data.index) == Some(Value::Data(p)),
        old(visited).spec_get(data.index) matches Some(v0) ==> (*final(gc) == *old(gc)
            && *final(visited) == *old(visited) && (r matches Ok(p) && v0 == Value::Data(p))),
        old(visited).spec_get(data.index) is None ==> (r matches Ok(p) ==> data_clone_shape(
            old(gc).objects@,
            final(gc).objects@,
            data,
            Value::Data(p),
            final(visited),
            gen,
        )),
        r is Err ==> r == Err::<GcRef, VmError>(VmError::Uncloneable),
        cloneable_heap(old(gc).objects@, gen) ==> r is Ok,
    decreases young_set(gc.objects@, gen).len() - visited.len_spec(), 0int,
{
    let ghost objs0 = old(gc).objects@;
    let ghost sd = objs0[data.index as int].kind->Data_0;
    match visited.get(data.index) {
        Some(v) => match v {
            Value::Data(p) => Ok(p),
            _ => vstd::pervasive::unreached(),
        },
        None => {
            let tag = gc.data_at(data).tag;
            let elems = copy_values(&gc.data_at(data).fields);
            let n = elems.len();
            proof {
                assert(obj_ok(objs0, objs0[data.index as int]));
            }
            let nref = gc.allocate(Def { tag, elems }, gen);
            proof {
                let objs1 = gc.objects@;
                lemma_values_ok_extends(objs0, objs1, sd.fields@);
                assert(obj_ok(objs1, objs1.last()));
                assert(objs1 =~= objs0.push(objs1.last()));
                lemma_objects_ok_push(objs0, objs1.last());
                lemma_visited_ok_extends(visited, objs0, objs1, gen);
                lemma_young_set_grown(objs0, objs1, gen);
                if cloneable_heap(objs0, gen) {
                    assert forall|x: int| 0 <= x < objs1.len() implies cloneable_obj(
                        #[trigger] objs1[x],
                        gen,
                    ) by {
                        if x < objs0.len() {
                            assert(cloneable_obj(objs0[x], gen));
                        } else {
                            assert(cloneable_obj(objs0[data.index as int], gen));
                        }
                    }
                }
            }
            visited.insert(data.index, Value::Data(nref));
            proof {
                assert forall|k: usize| #[trigger] visited.spec_get(k) is Some implies {
                    &&& k < gc.objects@.len()
                    &&& gc.objects@[k as int].gen > gen
                    &&& value_ok(gc.objects@, visited.spec_get(k)->Some_0)
                    &&& visited.spec_get(k)->Some_0.spec_generation() <= gen
                    &&& cloneable_value(visited.spec_get(k)->Some_0, gen)
                    &&& kind_matches(gc.objects@[k as int].kind, visited.spec_get(k)->Some_0)
                } by {
                    if k != data.index {
                        assert(old(visited).spec_get(k) is Some);
                    }
                }
            }
            let mut i: usize = 0;
            while i < n
                invariant
                    i <= n,
                    n == sd.fields@.len(),
                    gc.wf(),
                    visited_ok(visited, gc.objects@, gen),
                    heap_grown(objs0, gc.objects@, gen),
                    visited_grown(old(visited), visited),
                    visited.len_spec() >= old(visited).len_spec() + 1,
                    young_set(gc.objects@, gen) == young_set(objs0, gen),
                    cloneable_heap(objs0, gen) ==> cloneable_heap(gc.objects@, gen),
                    objs0 == old(gc).objects@,
                    old(visited).spec_get(data.index) is None,
                    ref_ok(objs0, data),
                    data.index < objs0.len(),
                    objs0[data.index as int].kind is Data,
                    sd == objs0[data.index as int].kind->Data_0,
                    data.gen > gen,
                    nref.gen == gen,
                    nref.index == objs0.len(),
                    nref.index < gc.objects@.len(),
                    gc.objects@[nref.index as int].gen == gen,
                    gc.objects@[nref.index as int].kind is Data,
                    gc.objects@[nref.index as int].kind->Data_0.tag == sd.tag,
                    gc.objects@[nref.index as int].kind->Data_0.fields@.len() == n as int,
                    forall|j: int|
                        0 <= j < i ==> clone_rel(
                            sd.fields@[j],
                            gc.objects@[nref.index as int].kind->Data_0.fields@[j],
                            visited,
                            gen,
                        ),
                    forall|j: int|
                        i <= j < n ==> gc.objects@[nref.index as int].kind->Data_0.fields@[j]
                            == sd.fields@[j],
                    visited.spec_get(data.index) == Some(Value::Data(nref)),
                decreases n - i,
            {
                let slot = gc.data_at(data).fields[i];
                proof {
                    assert(gc.objects@[data.index as int] == objs0[data.index as int]);
                    assert(obj_ok(gc.objects@, gc.objects@[data.index as int]));
                    assert(value_ok(gc.objects@, slot));
                    lemma_measure(visited, gc.objects@, gen);
                }
                let ghost pre_objs = gc.objects@;
                let ghost pre_m = *visited;
                let c = match deep_clone(&slot, visited, gc, gen) {
                    Ok(c) => c,
                    Err(e) => {
                        proof {
                            lemma_heap_grown_trans(objs0, pre_objs, gc.objects@, gen);
                            lemma_visited_grown_trans(old(visited), &pre_m, visited);
                            if cloneable_heap(objs0, gen) {
                                assert(cloneable_obj(objs0[data.index as int], gen));
                                assert(cloneable_value(sd.fields@[i as int], gen));
                                assert(false);
                            }
                        }
                        return Err(e);
                    },
                };
                proof {
                    lemma_heap_grown_trans(objs0, pre_objs, gc.objects@, gen);
                    lemma_visited_grown_trans(old(visited), &pre_m, visited);
                    // the shell predates the recursive call, so it is untouched
                    assert(gc.objects@[nref.index as int] == pre_objs[nref.index as int]);
                    assert forall|j: int| 0 <= j < i implies clone_rel(
                        sd.fields@[j],
                        gc.objects@[nref.index as int].kind->Data_0.fields@[j],
                        visited,
                        gen,
                    ) by {
                        assert(clone_rel(
                            sd.fields@[j],
                            pre_objs[nref.index as int].kind->Data_0.fields@[j],
                            &pre_m,
                            gen,
                        ));
                    }
                }
                let ghost mid_objs = gc.objects@;
                gc.set_slot(nref, i, c);
                proof {
                    let now = gc.objects@;
                    lemma_heap_grown_patch(objs0, mid_objs, now, gen, nref.index as int);
                    lemma_patched_ok(mid_objs, now, nref.index as int, i as int, c);
                    lemma_visited_ok_same_shape(visited, mid_objs, now, gen);
                    lemma_young_set_same_shape(mid_objs, now, gen);
                    if cloneable_heap(objs0, gen) {
                        lemma_cloneable_patched(mid_objs, now, gen, nref.index as int, i as int, c);
                    }
                    assert(clone_rel(sd.fields@[i as int], c, visited, gen));
                    assert forall|j: int| 0 <= j < i + 1 implies clone_rel(
                        sd.fields@[j],
                        now[nref.index as int].kind->Data_0.fields@[j],
                        visited,
                        gen,
                    ) by {
                        assert(now[nref.index as int].kind->Data_0.fields@ == obj_slots(
                            mid_objs[nref.index as int].kind,
                        ).update(i as int, c));
                    }
                }
                i = i + 1;
            }
            Ok(nref)
        },
    }
}

/// Clones a closure: the compiled-function reference is copied verbatim
/// (function metadata is shared, never rehomed); the upvalues are cloned in
/// capture order after the shell is registered.
fn deep_clone_closure(data: GcRef, visited: &mut VisitedMap, gc: &mut Gc, gen: usize) -> (r: Result<
    GcRef,
    VmError,
>)
    requires
        old(gc).wf(),
        visited_ok(old(visited), old(gc).objects@, gen),
        ref_ok(old(gc).objects@, data),
        old(gc).objects@[data.index as int].kind is Closure,
        data.gen > gen,
    ensures
        clone_frame(*old(gc), *final(gc), old(visited), final(visited), gen),
        r matches Ok(p) ==> value_ok(final(gc).objects@, Value::Closure(p)) && p.gen <= gen
            && final(visited).spec_get(data.index) == Some(Value::Closure(p)),
        old(visited).spec_get(data.index) matches Some(v0) ==> (*final(gc) == *old(gc)
            && *final(visited) == *old(visited) && (r matches Ok(p) && v0 == Value::Closure(p))),
        old(visited).spec_get(data.index) is None ==> (r matches Ok(p) ==> closure_clone_shape(
            old(gc).objects@,
            final(gc).objects@,
            data,
            Value::Closure(p),
            final(visited),
            gen,
        )),
        r is Err ==> r == Err::<GcRef, VmError>(VmError::Uncloneable),
        cloneable_heap(old(gc).objects@, gen) ==> r is Ok,
    decreases young_set(gc.objects@, gen).len() - visited.len_spec(), 0int,
{
    let ghost objs0 = old(gc).objects@;
    let ghost sc = objs0[data.index as int].kind->Closure_0;
    match visited.get(data.index) {
        Some(v) => match v {
            Value::Closure(p) => Ok(p),
            _ => vstd::pervasive::unreached(),
        },
        None => {
            let function = gc.closure_at(data).function;
            let upvars = copy_values(&gc.closure_at(data).upvars);
            let n = upvars.len();
            proof {
                assert(obj_ok(objs0, objs0[data.index as int]));
            }
            let nref = gc.allocate(ClosureDataDef(function, upvars), gen);
            proof {
                let objs1 = gc.objects@;
                lemma_values_ok_extends(objs0, objs1, sc.upvars@);
                assert(obj_ok(objs1, objs1.last()));
                assert(objs1 =~= objs0.push(objs1.last()));
                lemma_objects_ok_push(objs0, objs1.last());
                lemma_visited_ok_extends(visited, objs0, objs1, gen);
                lemma_young_set_grown(objs0, objs1, gen);
                if cloneable_heap(objs0, gen) {
                    assert forall|x: int| 0 <= x < objs1.len() implies cloneable_obj(
                        #[trigger] objs1[x],
                        gen,
                    ) by {
                        if x < objs0.len() {
                            assert(cloneable_obj(objs0[x], gen));
                        } else {
                            assert(cloneable_obj(objs0[data.index as int], gen));
                        }
                    }
                }
            }
            visited.insert(data.index, Value::Closure(nref));
            proof {
                assert forall|k: usize| #[trigger] visited.spec_get(k) is Some implies {
                    &&& k < gc.objects@.len()
                    &&& gc.objects@[k as int].gen > gen
                    &&& value_ok(gc.objects@, visited.spec_get(k)->Some_0)
                    &&& visited.spec_get(k)->Some_0.spec_generation() <= gen
                    &&& cloneable_value(visited.spec_get(k)->Some_0, gen)
                    &&& kind_matches(gc.objects@[k as int].kind, visited.spec_get(k)->Some_0)
                } by {
                    if k != data.index {
                        assert(old(visited).spec_get(k) is Some);
                    }
                }
            }
            let mut i: usize = 0;
            while i < n
                invariant
                    i <= n,
                    n == sc.upvars@.len(),
                    gc.wf(),
                    visited_ok(visited, gc.objects@, gen),
                    heap_grown(objs0, gc.objects@, gen),
                    visited_grown(old(visited), visited),
                    visited.len_spec() >= old(visited).len_spec() + 1,
                    young_set(gc.objects@, gen) == young_set(objs0, gen),
                    cloneable_heap(objs0, gen) ==> cloneable_heap(gc.objects@, gen),
                    objs0 == old(gc).objects@,
                    old(visited).spec_get(data.index) is None,
                    ref_ok(objs0, data),
                    data.index < objs0.len(),
                    objs0[data.index as int].kind is Closure,
                    sc == objs0[data.index as int].kind->Closure_0,
                    data.gen > gen,
                    nref.gen == gen,
                    nref.index == objs0.len(),
                    nref.index < gc.objects@.len(),
                    gc.objects@[nref.index as int].gen == gen,
                    gc.objects@[nref.index as int].kind is Closure,
                    gc.objects@[nref.index as int].kind->Closure_0.function == sc.function,
                    gc.objects@[nref.index as int].kind->Closure_0.upvars@.len() == n as int,
                    forall|j: int|
                        0 <= j < i ==> clone_rel(
                            sc.upvars@[j],
                            gc.objects@[nref.index as int].kind->Closure_0.upvars@[j],
                            visited,
                            gen,
                        ),
                    forall|j: int|
                        i <= j < n ==> gc.objects@[nref.index as int].kind->Closure_0.upvars@[j]
                            == sc.upvars@[j],
                    visited.spec_get(data.index) == Some(Value::Closure(nref)),
                decreases n - i,
            {
                let slot = gc.closure_at(data).upvars[i];
                proof {
                    assert(gc.objects@[data.index as int] == objs0[data.index as int]);
                    assert(obj_ok(gc.objects@, gc.objects@[data.index as int]));
                    assert(value_ok(gc.objects@, slot));
                    lemma_measure(visited, gc.objects@, gen);
                }
                let ghost pre_objs = gc.objects@;
                let ghost pre_m = *visited;
                let c = match deep_clone(&slot, visited, gc, gen) {
                    Ok(c) => c,
                    Err(e) => {
                        proof {
                            lemma_heap_grown_trans(objs0, pre_objs, gc.objects@, gen);
                            lemma_visited_grown_trans(old(visited), &pre_m, visited);
                            if cloneable_heap(objs0, gen) {
                                assert(cloneable_obj(objs0[data.index as int], gen));
                                assert(cloneable_value(sc.upvars@[i as int], gen));
                                assert(false);
                            }
                        }
                        return Err(e);
                    },
                };
                proof {
                    lemma_heap_grown_trans(objs0, pre_objs, gc.objects@, gen);
                    lemma_visited_grown_trans(old(visited), &pre_m, visited);
                    assert(gc.objects@[nref.index as int] == pre_objs[nref.index as int]);
                    assert forall|j: int| 0 <= j < i implies clone_rel(
                        sc.upvars@[j],
                        gc.objects@[nref.index as int].kind->Closure_0.upvars@[j],
                        visited,
                        gen,
                    ) by {
                        assert(clone_rel(
                            sc.upvars@[j],
                            pre_objs[nref.index as int].kind->Closure_0.upvars@[j],
                            &pre_m,
                            gen,
                        ));
                    }
                }
                let ghost mid_objs = gc.objects@;
                gc.set_slot(nref, i, c);
                proof {
                    let now = gc.objects@;
                    lemma_heap_grown_patch(objs0, mid_objs, now, gen, nref.index as int);
                    lemma_patched_ok(mid_objs, now, nref.index as int, i as int, c);
                    lemma_visited_ok_same_shape(visited, mid_objs, now, gen);
                    lemma_young_set_same_shape(mid_objs, now, gen);
                    if cloneable_heap(objs0, gen) {
                        lemma_cloneable_patched(mid_objs, now, gen, nref.index as int, i as int, c);
                    }
                    assert(clone_rel(sc.upvars@[i as int], c, visited, gen));
                    assert forall|j: int| 0 <= j < i + 1 implies clone_rel(
                        sc.upvars@[j],
                        now[nref.index as int].kind->Closure_0.upvars@[j],
                        visited,
                        gen,
                    ) by {
                        assert(now[nref.index as int].kind->Closure_0.upvars@ == obj_slots(
                            mid_objs[nref.index as int].kind,
                        ).update(i as int, c));
                    }
                }
                i = i + 1;
            }
            Ok(nref)
        },
    }
}

/// Clones a partial application: the callable is copied verbatim; the
/// supplied arguments are cloned in call order after the shell is
/// registered.
fn deep_clone_app(data: GcRef, visited: &mut VisitedMap, gc: &mut Gc, gen: usize) -> (r: Result<
    GcRef,
    VmError,
>)
    requires
        old(gc).wf(),
        visited_ok(old(visited), old(gc).objects@, gen),
        ref_ok(old(gc).objects@, data),
        old(gc).objects@[data.index as int].kind is App,
        data.gen > gen,
    ensures
        clone_frame(*old(gc), *final(gc), old(visited), final(visited), gen),
        r matches Ok(p) ==> value_ok(final(gc).objects@, Value::PartialApplication(p)) && p.gen
            <= gen && final(visited).spec_get(data.index) == Some(Value::PartialApplication(p)),
        old(visited).spec_get(data.index) matches Some(v0) ==> (*final(gc) == *old(gc)
            && *final(visited) == *old(visited) && (r matches Ok(p) && v0
            == Value::PartialApplication(p))),
        old(visited).spec_get(data.index) is None ==> (r matches Ok(p) ==> app_clone_shape(
            old(gc).objects@,
            final(gc).objects@,
            data,
            Value::PartialApplication(p),
            final(visited),
            gen,
        )),
        r is Err ==> r == Err::<GcRef, VmError>(VmError::Uncloneable),
        cloneable_heap(old(gc).objects@, gen) ==> r is Ok,
    decreases young_set(gc.objects@, gen).len() - visited.len_spec(), 0int,
{
    let ghost objs0 = old(gc).objects@;
    let ghost sa = objs0[data.index as int].kind->App_0;
    match visited.get(data.index) {
        Some(v) => match v {
            Value::PartialApplication(p) => Ok(p),
            _ => vstd::pervasive::unreached(),
        },
        None => {
            let function = gc.app_at(data).function;
            let arguments = copy_values(&gc.app_at(data).arguments);
            let n = arguments.len();
            proof {
                assert(obj_ok(objs0, objs0[data.index as int]));
            }
            let nref = gc.allocate(PartialApplicationDataDef(function, arguments), gen);
            proof {
                let objs1 = gc.objects@;
                lemma_values_ok_extends(objs0, objs1, sa.arguments@);
                assert(obj_ok(objs1, objs1.last()));
                assert(objs1 =~= objs0.push(objs1.last()));
                lemma_objects_ok_push(objs0, objs1.last());
                lemma_visited_ok_extends(visited, objs0, objs1, gen);
                lemma_young_set_grown(objs0, objs1, gen);
                if cloneable_heap(objs0, gen) {
                    assert forall|x: int| 0 <= x < objs1.len() implies cloneable_obj(
                        #[trigger] objs1[x],
                        gen,
                    ) by {
                        if x < objs0.len() {
                            assert(cloneable_obj(objs0[x], gen));
                        } else {
                            assert(cloneable_obj(objs0[data.index as int], gen));
                        }
                    }
                }
            }
            visited.insert(data.index, Value::PartialApplication(nref));
            proof {
                assert forall|k: usize| #[trigger] visited.spec_get(k) is Some implies {
                    &&& k < gc.objects@.len()
                    &&& gc.objects@[k as int].gen > gen
                    &&& value_ok(gc.objects@, visited.spec_get(k)->Some_0)
                    &&& visited.spec_get(k)->Some_0.spec_generation() <= gen
                    &&& cloneable_value(visited.spec_get(k)->Some_0, gen)
                    &&& kind_matches(gc.objects@[k as int].kind, visited.spec_get(k)->Some_0)
                } by {
                    if k != data.index {
                        assert(old(visited).spec_get(k) is Some);
                    }
                }
            }
            let mut i: usize = 0;
            while i < n
                invariant
                    i <= n,
                    n == sa.arguments@.len(),
                    gc.wf(),
                    visited_ok(visited, gc.objects@, gen),
                    heap_grown(objs0, gc.objects@, gen),
                    visited_grown(old(visited), visited),
                    visited.len_spec() >= old(visited).len_spec() + 1,
                    young_set(gc.objects@, gen) == young_set(objs0, gen),
                    cloneable_heap(objs0, gen) ==> cloneable_heap(gc.objects@, gen),
                    objs0 == old(gc).objects@,
                    old(visited).spec_get(data.index) is None,
                    ref_ok(objs0, data),
                    data.index < objs0.len(),
                    objs0[data.index as int].kind is App,
                    sa == objs0[data.index as int].kind->App_0,
                    data.gen > gen,
                    nref.gen == gen,
                    nref.index == objs0.len(),
                    nref.index < gc.objects@.len(),
                    gc.objects@[nref.index as int].gen == gen,
                    gc.objects@[nref.index as int].kind is App,
                    gc.objects@[nref.index as int].kind->App_0.function == sa.function,
                    gc.objects@[nref.index as int].kind->App_0.arguments@.len() == n as int,
                    forall|j: int|
                        0 <= j < i ==> clone_rel(
                            sa.arguments@[j],
                            gc.objects@[nref.index as int].kind->App_0.arguments@[j],
                            visited,
                            gen,
                        ),
                    forall|j: int|
                        i <= j < n ==> gc.objects@[nref.index as int].kind->App_0.arguments@[j]
                            == sa.arguments@[j],
                    visited.spec_get(data.index) == Some(Value::PartialApplication(nref)),
                decreases n - i,
            {
                let slot = gc.app_at(data).arguments[i];
                proof {
                    assert(gc.objects@[data.index as int] == objs0[data.index as int]);
                    assert(obj_ok(gc.objects@, gc.objects@[data.index as int]));
                    assert(value_ok(gc.objects@, slot));
                    lemma_measure(visited, gc.objects@, gen);
                }
                let ghost pre_objs = gc.objects@;
                let ghost pre_m = *visited;
                let c = match deep_clone(&slot, visited, gc, gen) {
                    Ok(c) => c,
                    Err(e) => {
                        proof {
                            lemma_heap_grown_trans(objs0, pre_objs, gc.objects@, gen);
                            lemma_visited_grown_trans(old(visited), &pre_m, visited);
                            if cloneable_heap(objs0, gen) {
                                assert(cloneable_obj(objs0[data.index as int], gen));
                                assert(cloneable_value(sa.arguments@[i as int], gen));
                                assert(false);
                            }
                        }
                        return Err(e);
                    },
                };
                proof {
                    lemma_heap_grown_trans(objs0, pre_objs, gc.objects@, gen);
                    lemma_visited_grown_trans(old(visited), &pre_m, visited);
                    assert(gc.objects@[nref.index as int] == pre_objs[nref.index as int]);
                    assert forall|j: int| 0 <= j < i implies clone_rel(
                        sa.arguments@[j],
                        gc.objects@[nref.index as int].kind->App_0.arguments@[j],
                        visited,
                        gen,
                    ) by {
                        assert(clone_rel(
                            sa.arguments@[j],
                            pre_objs[nref.index as int].kind->App_0.arguments@[j],
                            &pre_m,
                            gen,
                        ));
                    }
                }
                let ghost mid_objs = gc.objects@;
                gc.set_slot(nref, i, c);
                proof {
                    let now = gc.objects@;
                    lemma_heap_grown_patch(objs0, mid_objs, now, gen, nref.index as int);
                    lemma_patched_ok(mid_objs, now, nref.index as int, i as int, c);
                    lemma_visited_ok_same_shape(visited, mid_objs, now, gen);
                    lemma_young_set_same_shape(mid_objs, now, gen);
                    if cloneable_heap(objs0, gen) {
                        lemma_cloneable_patched(mid_objs, now, gen, nref.index as int, i as int, c);
                    }
                    assert(clone_rel(sa.arguments@[i as int], c, visited, gen));
                    assert forall|j: int| 0 <= j < i + 1 implies clone_rel(
                        sa.arguments@[j],
                        now[nref.index as int].kind->App_0.arguments@[j],
                        visited,
                        gen,
                    ) by {
                        assert(now[nref.index as int].kind->App_0.arguments@ == obj_slots(
                            mid_objs[nref.index as int].kind,
                        ).update(i as int, c));
                    }
                }
                i = i + 1;
            }
            Ok(nref)
        },
    }
}

/// The value was already visited under its source identity.
pub open spec fn revisit_hit(v: Value, m: &VisitedMap, gen: usize) -> bool {
    v.spec_generation() > gen && match v.heap_ref() {
        Some(r) => m.spec_get(r.index) is Some,
        None => false,
    }
}

/// The clone recorded for an already-visited value.
pub open spec fn recorded(v: Value, m: &VisitedMap) -> Value {
    m.spec_get(v.heap_ref()->Some_0.index)->Some_0
}

/// The value is younger than the target generation and not yet visited.
pub open spec fn fresh_young(v: Value, m: &VisitedMap, gen: usize) -> bool {
    v.spec_generation() > gen && match v.heap_ref() {
        Some(r) => m.spec_get(r.index) is None,
        None => false,
    }
}

/// The deep-clone entry point: produces, inside generation `gen` of the
/// heap, a value equivalent to `value`, preserving identity-sharing and
/// cycles through `visited` (call-local, keyed by source identity).
///
/// Only values belonging to a generation younger than `gen` are cloned: a
/// value already at or below the target generation is returned unchanged
/// (copying it would waste space and break identity for objects the target
/// already shares). Native functions, opaque host resources and threads are
/// refused; the failure propagates through every recursive step and aborts
/// the whole clone, leaving every previously existing object untouched.
pub fn deep_clone(value: &Value, visited: &mut VisitedMap, gc: &mut Gc, gen: usize) -> (r: Result<
    Value,
    VmError,
>)
    requires
        old(gc).wf(),
        visited_ok(old(visited), old(gc).objects@, gen),
        value_ok(old(gc).objects@, *value),
    ensures
        clone_frame(*old(gc), *final(gc), old(visited), final(visited), gen),
        value.spec_generation() <= gen ==> (r == Ok::<Value, VmError>(*value) && *final(gc)
            == *old(gc) && *final(visited) == *old(visited)),
        r matches Ok(out) ==> value_ok(final(gc).objects@, out) && out.spec_generation() <= gen
            && clone_rel(*value, out, final(visited), gen),
        r is Err ==> r == Err::<Value, VmError>(VmError::Uncloneable),
        !cloneable_value(*value, gen) ==> (r == Err::<Value, VmError>(VmError::Uncloneable)
            && *final(gc) == *old(gc) && *final(visited) == *old(visited)),
        revisit_hit(*value, old(visited), gen) ==> (*final(gc) == *old(gc) && *final(visited)
            == *old(visited) && r == Ok::<Value, VmError>(recorded(*value, old(visited)))),
        (cloneable_heap(old(gc).objects@, gen) && cloneable_value(*value, gen)) ==> r is Ok,
        (value is Data && fresh_young(*value, old(visited), gen)) ==> (r matches Ok(out)
            ==> data_clone_shape(
            old(gc).objects@,
            final(gc).objects@,
            value.heap_ref()->Some_0,
            out,
            final(visited),
            gen,
        )),
        (value is Closure && fresh_young(*value, old(visited), gen)) ==> (r matches Ok(out)
            ==> closure_clone_shape(
            old(gc).objects@,
            final(gc).objects@,
            value.heap_ref()->Some_0,
            out,
            final(visited),
            gen,
        )),
        (value is PartialApplication && fresh_young(*value, old(visited), gen)) ==> (r matches Ok(
            out,
        ) ==> app_clone_shape(
            old(gc).objects@,
            final(gc).objects@,
            value.heap_ref()->Some_0,
            out,
            final(visited),
            gen,
        )),
        (value is Text && fresh_young(*value, old(visited), gen)) ==> (r matches Ok(out)
            ==> text_clone_shape(
            old(gc).objects@,
            final(gc).objects@,
            value.heap_ref()->Some_0,
            out,
            final(visited),
            gen,
        )),
    decreases young_set(gc.objects@, gen).len() - visited.len_spec(), 1int,
{
    // Only values that belong to a younger generation than the target need a
    // copy.
    if value.generation() <= gen {
        return Ok(*value);
    }
    match *value {
        Value::Text(data) => deep_clone_str(data, visited, gc, gen),
        Value::Data(data) => match deep_clone_data(data, visited, gc, gen) {
            Ok(p) => Ok(Value::Data(p)),
            Err(e) => Err(e),
        },
        Value::Closure(data) => match deep_clone_closure(data, visited, gc, gen) {
            Ok(p) => Ok(Value::Closure(p)),
            Err(e) => Err(e),
        },
        Value::PartialApplication(data) => match deep_clone_app(data, visited, gc, gen) {
            Ok(p) => Ok(Value::PartialApplication(p)),
            Err(e) => Err(e),
        },
        Value::Function(_) => Err(VmError::Uncloneable),
        Value::Userdata(_) => Err(VmError::Uncloneable),
        Value::Thread(_) => Err(VmError::Uncloneable),
        Value::Int(i) => Ok(Value::Int(i)),
        Value::Float(f) => Ok(Value::Float(f)),
    }
}

} // verus!
