//! The runtime value type and the payload shapes of the heap object kinds.

use vstd::prelude::*;

verus! {

/// A machine integer of the virtual machine.
pub type VmInt = i64;

/// The tag that selects which struct or enum-variant shape a tagged aggregate has.
pub type VmTag = u64;

/// An index or arity count of the virtual machine.
pub type VmIndex = u64;

/// An interned symbol (a function or field name). The interner that maps the
/// textual name to its identity lives outside this crate; here a symbol is an
/// identity-bearing handle and two symbols are equal exactly when their
/// identities are.
#[derive(Clone, Copy, PartialEq, Eq, Structural, Debug)]
pub struct Symbol {
    pub id: u64,
}

/// An interned string of a compiled function's constant pool, again an
/// identity-bearing handle into an interner that lives outside this crate.
#[derive(Clone, Copy, PartialEq, Eq, Structural, Debug)]
pub struct InternedStr {
    pub id: u64,
}

/// One encoded bytecode instruction. The instruction set and its semantics
/// are interpreted elsewhere; this core carries instructions through opaquely.
#[derive(Clone, Copy, PartialEq, Eq, Structural, Debug)]
pub struct Instruction {
    pub encoded: u64,
}

/// A heap reference: the identity of one heap object (its arena slot index)
/// together with the generation index of the heap arena that allocated it.
/// References compare by identity only; value equality is a property of
/// specific heap-object kinds, never of the reference itself.
#[derive(Clone, Copy, PartialEq, Eq, Structural, Debug)]
pub struct GcRef {
    pub index: usize,
    pub gen: usize,
}

/// The runtime value: a tagged union over primitives and heap references.
/// Copying a `Value` copies a handle, never the pointee. Derived equality
/// compares primitives by content and heap variants by reference identity.
#[derive(Clone, Copy, PartialEq, Eq, Structural, Debug)]
pub enum Value {
    Int(VmInt),
    /// The bit pattern of a double-precision float. The numeric
    /// interpretation of the bits lives outside this crate; the heap and the
    /// deep clone carry the payload through unchanged.
    Float(u64),
    /// A reference to a heap-allocated text buffer.
    Text(GcRef),
    /// A reference to a heap-allocated tagged aggregate.
    Data(GcRef),
    /// A reference to a heap-allocated native-function wrapper.
    Function(GcRef),
    /// A reference to a heap-allocated closure.
    Closure(GcRef),
    /// A reference to a heap-allocated partial application.
    PartialApplication(GcRef),
    /// A reference to an opaque boxed host resource.
    Userdata(GcRef),
    /// A reference to a virtual-machine thread.
    Thread(GcRef),
}

impl Value {
    /// The heap reference this value directly holds, if it holds one.
    pub open spec fn heap_ref(self) -> Option<GcRef> {
        match self {
            Value::Int(_) => None,
            Value::Float(_) => None,
            Value::Text(r) => Some(r),
            Value::Data(r) => Some(r),
            Value::Function(r) => Some(r),
            Value::Closure(r) => Some(r),
            Value::PartialApplication(r) => Some(r),
            Value::Userdata(r) => Some(r),
            Value::Thread(r) => Some(r),
        }
    }

    /// The generation a value belongs to: 0 for primitives, the owning
    /// arena's generation index for heap variants.
    pub open spec fn spec_generation(self) -> usize {
        match self.heap_ref() {
            Some(r) => r.gen,
            None => 0,
        }
    }

    /// Returns 0 for primitives and the generation index of the owning heap
    /// arena for heap variants.
    #[verifier::when_used_as_spec(spec_generation)]
    pub fn generation(self) -> (g: usize)
        ensures
            g == self.spec_generation(),
    {
        match self {
            Value::Int(_) => 0,
            Value::Float(_) => 0,
            Value::Text(r) => r.gen,
            Value::Data(r) => r.gen,
            Value::Function(r) => r.gen,
            Value::Closure(r) => r.gen,
            Value::PartialApplication(r) => r.gen,
            Value::Userdata(r) => r.gen,
            Value::Thread(r) => r.gen,
        }
    }
}

/// A tagged aggregate: a small tag selecting the shape, plus an ordered
/// sequence of field values whose length is fixed at construction.
pub struct DataStruct {
    pub tag: VmTag,
    pub fields: Vec<Value>,
}

/// A closure: a reference to compiled-function metadata plus the captured
/// upvalues, fixed in length at construction.
pub struct ClosureData {
    /// Reference to the heap-allocated `BytecodeFunction` this closure
    /// instantiates.
    pub function: GcRef,
    pub upvars: Vec<Value>,
}

/// Compiled-function metadata, immutable after construction and shared by
/// every closure instantiated from it.
pub struct BytecodeFunction {
    pub name: Symbol,
    pub args: VmIndex,
    pub instructions: Vec<Instruction>,
    /// References to heap-allocated `BytecodeFunction` objects of nested
    /// functions.
    pub inner_functions: Vec<GcRef>,
    pub strings: Vec<InternedStr>,
    pub globals: Vec<Value>,
}

/// A callable: either a closure reference or a native-function reference.
#[derive(Clone, Copy, Debug)]
pub enum Callable {
    Closure(GcRef),
    Extern(GcRef),
}

/// A partial application: a callable bound with fewer than its full argument
/// count; the supplied arguments are kept in call order.
pub struct PartialApplicationData {
    pub function: Callable,
    pub arguments: Vec<Value>,
}

/// A native-function wrapper: an identifier, a declared arity, and an opaque
/// callback. The callback itself cannot be represented or invoked by this
/// core; it is carried as an identity-bearing token, and the wrapper is never
/// structurally equal to another.
pub struct ExternFunction {
    pub id: Symbol,
    pub args: VmIndex,
    /// An identity-bearing token standing for the boxed native callback.
    pub function: u64,
}

impl PartialEq for DataStruct {
    /// Structural equality: equal tag and element-wise equal fields
    /// (heap-variant fields compare by reference identity).
    fn eq(&self, other: &DataStruct) -> (r: bool) {
        if self.tag != other.tag {
            return false;
        }
        if self.fields.len() != other.fields.len() {
            return false;
        }
        let n = self.fields.len();
        for i in 0..n
            invariant
                n == self.fields@.len(),
                n == other.fields@.len(),
                self.tag == other.tag,
                forall|j: int| 0 <= j < i ==> self.fields@[j] == other.fields@[j],
        {
            if self.fields[i] != other.fields[i] {
                return false;
            }
        }
        proof {
            assert(self.fields@ =~= other.fields@);
        }
        true
    }
}

impl vstd::std_specs::cmp::PartialEqSpecImpl for DataStruct {
    open spec fn obeys_eq_spec() -> bool {
        true
    }

    open spec fn eq_spec(&self, other: &DataStruct) -> bool {
        self.tag == other.tag && self.fields@ == other.fields@
    }
}

impl PartialEq for ClosureData {
    /// Two closures are never structurally equal; only reference identity
    /// distinguishes them.
    fn eq(&self, _other: &ClosureData) -> (r: bool) {
        false
    }
}

impl vstd::std_specs::cmp::PartialEqSpecImpl for ClosureData {
    open spec fn obeys_eq_spec() -> bool {
        true
    }

    open spec fn eq_spec(&self, _other: &ClosureData) -> bool {
        false
    }
}

impl PartialEq for PartialApplicationData {
    /// Partial applications are never structurally equal.
    fn eq(&self, _other: &PartialApplicationData) -> (r: bool) {
        false
    }
}

impl vstd::std_specs::cmp::PartialEqSpecImpl for PartialApplicationData {
    open spec fn obeys_eq_spec() -> bool {
        true
    }

    open spec fn eq_spec(&self, _other: &PartialApplicationData) -> bool {
        false
    }
}

impl PartialEq for Callable {
    /// Callables are never equal; completion of a call must not depend on
    /// comparing them.
    fn eq(&self, _other: &Callable) -> (r: bool) {
        false
    }
}

impl vstd::std_specs::cmp::PartialEqSpecImpl for Callable {
    open spec fn obeys_eq_spec() -> bool {
        true
    }

    open spec fn eq_spec(&self, _other: &Callable) -> bool {
        false
    }
}

impl PartialEq for ExternFunction {
    /// Native-function wrappers are never structurally equal; only the
    /// reference identity of the wrapper is observable.
    fn eq(&self, _other: &ExternFunction) -> (r: bool) {
        false
    }
}

impl vstd::std_specs::cmp::PartialEqSpecImpl for ExternFunction {
    open spec fn obeys_eq_spec() -> bool {
        true
    }

    open spec fn eq_spec(&self, _other: &ExternFunction) -> bool {
        false
    }
}

} // verus!
