//! The interning store. Every entity is appended once and never changed.
//! Entities are hash-consed: interning a value equal to one already held
//! returns the existing handle, so equal values share one handle.
use vstd::prelude::*;

use crate::cilnode::{node_eq, root_eq, same_node, same_root, CILNode, CILRoot, Const, PtrCastRes};
use crate::tpe::{
    ClassIdx, FieldIdx, Int, MethodIdx, NodeIdx, RootIdx, SigIdx, StaticFieldIdx, StrIdx, Type,
    TypeIdx,
};
use crate::cilnode::{BinOp, MethodKind};

verus! {

/// Largest number of entries of one kind: a handle is a `u32`.
pub const MAX_ENTRIES: usize = 0xffff_fff0;

/// A function signature: ordered inputs and one output.
#[derive(Clone, Debug)]
pub struct FnSig {
    pub inputs: Vec<Type>,
    pub output: Type,
}

impl FnSig {
    /// The input types.
    pub fn inputs(&self) -> (r: &[Type])
        ensures
            r@ == self.inputs@,
    {
        self.inputs.as_slice()
    }

    /// The output type.
    pub fn output(&self) -> (r: &Type)
        ensures
            *r == self.output,
    {
        &self.output
    }
}

/// Structural equality of signatures.
pub open spec fn same_sig(a: FnSig, b: FnSig) -> bool {
    a.inputs@ == b.inputs@ && a.output == b.output
}

/// A nominal class identity, tagged value-type or reference-type.
#[derive(Clone, Copy, Debug, PartialEq, Eq, Hash, Structural)]
pub struct ClassRef {
    pub name: StrIdx,
    pub assembly: Option<StrIdx>,
    pub is_valuetype: bool,
}

impl ClassRef {
    /// Is this a value-type class?
    pub fn is_valuetype(&self) -> (r: bool)
        ensures
            r == self.is_valuetype,
    {
        self.is_valuetype
    }
}

/// The definition of a class: its fields as (type, name, offset).
#[derive(Clone, Debug)]
pub struct ClassDef {
    pub cref: ClassIdx,
    pub fields: Vec<(Type, StrIdx, Option<u32>)>,
}

/// An instance field: owner class, name and declared type.
#[derive(Clone, Copy, Debug, PartialEq, Eq, Hash, Structural)]
pub struct FieldDesc {
    pub owner: ClassIdx,
    pub name: StrIdx,
    pub tpe: Type,
}

/// A static field: owner class, name and declared type.
#[derive(Clone, Copy, Debug, PartialEq, Eq, Hash, Structural)]
pub struct StaticFieldDesc {
    pub owner: ClassIdx,
    pub name: StrIdx,
    pub tpe: Type,
}

/// A method: owner class, name, signature and call kind.
#[derive(Clone, Copy, Debug, PartialEq, Eq, Hash, Structural)]
pub struct MethodRef {
    pub class: ClassIdx,
    pub name: StrIdx,
    pub sig: SigIdx,
    pub kind: MethodKind,
}

/// A local variable slot: optional name and declared type.
pub type LocalDef = (Option<StrIdx>, TypeIdx);

/// The contents of an [`Assembly`].
pub struct AsmView {
    pub types: Seq<Type>,
    pub sigs: Seq<FnSig>,
    pub strings: Seq<Seq<char>>,
    pub class_refs: Seq<ClassRef>,
    pub class_defs: Seq<ClassDef>,
    pub fields: Seq<FieldDesc>,
    pub static_fields: Seq<StaticFieldDesc>,
    pub methods: Seq<MethodRef>,
    pub nodes: Seq<CILNode>,
    pub roots: Seq<CILRoot>,
}

/// Does `d` declare a field of type `tpe` named `name`?
pub open spec fn has_field(d: ClassDef, tpe: Type, name: StrIdx) -> bool {
    exists|k: int| 0 <= k < d.fields@.len() && d.fields@[k].0 == tpe && d.fields@[k].1 == name
}

/// The class that `GetException` yields: `System.Exception`.
pub open spec fn exception_class() -> ClassIdx {
    ClassIdx(0)
}

/// The class that a type token yields: `System.RuntimeTypeHandle`.
pub open spec fn type_handle_class() -> ClassIdx {
    ClassIdx(1)
}

impl AsmView {
    pub open spec fn type_ok(self, t: Type) -> bool {
        match t {
            Type::Ptr(h) | Type::Ref(h) => h.0 < self.types.len(),
            Type::ClassRef(c) => c.0 < self.class_refs.len(),
            Type::PlatformArray { elem, .. } => elem.0 < self.types.len(),
            Type::FnPtr(s) => s.0 < self.sigs.len(),
            _ => true,
        }
    }

    /// `t` is valid here and has a handle.
    pub open spec fn interned(self, t: Type) -> bool {
        self.type_ok(t) && self.types.contains(t)
    }

    pub open spec fn sig_ok(self, s: FnSig) -> bool {
        &&& forall|i: int| 0 <= i < s.inputs@.len() ==> #[trigger] self.interned(s.inputs@[i])
        &&& self.type_ok(s.output)
    }

    pub open spec fn class_ref_ok(self, c: ClassRef) -> bool {
        &&& c.name.0 < self.strings.len()
        &&& (c.assembly matches Some(a) ==> a.0 < self.strings.len())
    }

    pub open spec fn class_def_ok(self, d: ClassDef) -> bool {
        &&& d.cref.0 < self.class_refs.len()
        &&& forall|i: int|
            0 <= i < d.fields@.len() ==> #[trigger] self.type_ok(d.fields@[i].0) && d.fields@[
                i
            ].1.0 < self.strings.len()
    }

    pub open spec fn field_ok(self, f: FieldDesc) -> bool {
        f.owner.0 < self.class_refs.len() && f.name.0 < self.strings.len() && self.interned(f.tpe)
    }

    pub open spec fn static_field_ok(self, f: StaticFieldDesc) -> bool {
        f.owner.0 < self.class_refs.len() && f.name.0 < self.strings.len() && self.interned(f.tpe)
    }

    pub open spec fn method_ok(self, m: MethodRef) -> bool {
        m.class.0 < self.class_refs.len() && m.name.0 < self.strings.len() && m.sig.0
            < self.sigs.len()
    }

    pub open spec fn const_ok(self, c: Const) -> bool {
        match c {
            Const::PlatformString(s) => s.0 < self.strings.len(),
            Const::Null(c) => c.0 < self.class_refs.len(),
            _ => true,
        }
    }

    pub open spec fn cast_res_ok(self, r: PtrCastRes) -> bool {
        match r {
            PtrCastRes::Ptr(t) => t.0 < self.types.len(),
            PtrCastRes::FnPtr(s) => s.0 < self.sigs.len(),
            _ => true,
        }
    }

    /// The handles that `n` holds are valid, and its operands lie below `bound`.
    pub open spec fn node_ok(self, n: CILNode, bound: nat) -> bool {
        &&& forall|j: int| 0 <= j < n.children().len() ==> (#[trigger] n.children()[j]).0 < bound
        &&& match n {
            CILNode::Const(c) => self.const_ok(c),
            CILNode::Call(m, _, _) | CILNode::LdFtn(m) => m.0 < self.methods.len(),
            CILNode::CallI(_, s, _) => s.0 < self.sigs.len(),
            CILNode::PtrCast(_, r) => self.cast_res_ok(r),
            CILNode::LdFieldAddress { field, .. } | CILNode::LdField { field, .. } => field.0
                < self.fields.len(),
            CILNode::LdInd { tpe, .. } | CILNode::LocAllocAlgined { tpe, .. }
            | CILNode::UnboxAny { tpe, .. } => tpe.0 < self.types.len(),
            CILNode::SizeOf(t) | CILNode::IsInst(_, t) | CILNode::CheckedCast(_, t)
            | CILNode::LdTypeToken(t) => t.0 < self.types.len(),
            CILNode::LdStaticField(f) | CILNode::LdStaticFieldAddress(f) => f.0
                < self.static_fields.len(),
            _ => true,
        }
    }

    /// The handles that `r` holds are valid.
    pub open spec fn root_ok(self, r: CILRoot) -> bool {
        &&& forall|j: int|
            0 <= j < r.children().len() ==> (#[trigger] r.children()[j]).0 < self.nodes.len()
        &&& match r {
            CILRoot::SetField(f, _, _) => f.0 < self.fields.len(),
            CILRoot::Call(m, _, _) => m.0 < self.methods.len(),
            CILRoot::StInd(_, _, t, _) => self.type_ok(t),
            CILRoot::CallI(_, s, _) => s.0 < self.sigs.len(),
            CILRoot::SetStaticField { field, .. } => field.0 < self.static_fields.len(),
            CILRoot::Unreachable(s) => s.0 < self.strings.len(),
            _ => true,
        }
    }

    pub open spec fn within_limits(self) -> bool {
        &&& self.types.len() <= MAX_ENTRIES
        &&& self.sigs.len() <= MAX_ENTRIES
        &&& self.strings.len() <= MAX_ENTRIES
        &&& self.class_refs.len() <= MAX_ENTRIES
        &&& self.class_defs.len() <= MAX_ENTRIES
        &&& self.fields.len() <= MAX_ENTRIES
        &&& self.static_fields.len() <= MAX_ENTRIES
        &&& self.methods.len() <= MAX_ENTRIES
        &&& self.nodes.len() <= MAX_ENTRIES
        &&& self.roots.len() <= MAX_ENTRIES
    }

    /// Well-formedness: every handle is valid, types are unique, each class has
    /// at most one definition, every node reads only earlier nodes, and the two
    /// well-known classes and the byte type are present.
    pub open spec fn wf(self) -> bool {
        &&& self.within_limits()
        &&& forall|i: int| 0 <= i < self.types.len() ==> #[trigger] self.type_ok(self.types[i])
        &&& forall|i: int, j: int|
            0 <= i < self.types.len() && 0 <= j < self.types.len() && i != j ==> self.types[i]
                != self.types[j]
        &&& forall|i: int| 0 <= i < self.sigs.len() ==> #[trigger] self.sig_ok(self.sigs[i])
        &&& forall|i: int|
            0 <= i < self.class_refs.len() ==> #[trigger] self.class_ref_ok(self.class_refs[i])
        &&& forall|i: int|
            0 <= i < self.class_defs.len() ==> #[trigger] self.class_def_ok(self.class_defs[i])
        &&& forall|i: int, j: int|
            0 <= i < self.class_defs.len() && 0 <= j < self.class_defs.len() && i != j
                ==> self.class_defs[i].cref != self.class_defs[j].cref
        &&& forall|i: int| 0 <= i < self.fields.len() ==> #[trigger] self.field_ok(self.fields[i])
        &&& forall|i: int|
            0 <= i < self.static_fields.len() ==> #[trigger] self.static_field_ok(
                self.static_fields[i],
            )
        &&& forall|i: int| 0 <= i < self.methods.len() ==> #[trigger] self.method_ok(self.methods[i])
        &&& forall|i: int| 0 <= i < self.nodes.len() ==> #[trigger] self.node_ok(self.nodes[i], i as nat)
        &&& forall|i: int| 0 <= i < self.roots.len() ==> #[trigger] self.root_ok(self.roots[i])
        &&& self.types.contains(Type::Int(Int::U8))
        &&& self.well_known_classes()
    }

    /// Handle 0 is the reference class `System.Exception`, handle 1 the value
    /// class `System.RuntimeTypeHandle`.
    pub open spec fn well_known_classes(self) -> bool {
        &&& self.class_refs.len() >= 2
        &&& self.class_refs[0].name.0 < self.strings.len()
        &&& self.class_refs[1].name.0 < self.strings.len()
        &&& self.strings[self.class_refs[0].name.0 as int] == "System.Exception"@
        &&& !self.class_refs[0].is_valuetype
        &&& self.strings[self.class_refs[1].name.0 as int] == "System.RuntimeTypeHandle"@
        &&& self.class_refs[1].is_valuetype
    }

    /// The handle of an interned type (unique, as types are never duplicated).
    pub open spec fn handle_of(self, t: Type) -> TypeIdx {
        TypeIdx((choose|i: int| 0 <= i < self.types.len() && self.types[i] == t) as u32)
    }

    /// The definition of class `c`, if the store has one.
    pub open spec fn def_of(self, c: ClassIdx) -> Option<int> {
        if exists|d: int| 0 <= d < self.class_defs.len() && self.class_defs[d].cref == c {
            Some(choose|d: int| 0 <= d < self.class_defs.len() && self.class_defs[d].cref == c)
        } else {
            None
        }
    }

    /// `self` is `old` with entries appended, and nothing changed.
    pub open spec fn extends(self, old: AsmView) -> bool {
        &&& old.types.is_prefix_of(self.types)
        &&& old.sigs.is_prefix_of(self.sigs)
        &&& old.strings.is_prefix_of(self.strings)
        &&& old.class_refs.is_prefix_of(self.class_refs)
        &&& old.class_defs.is_prefix_of(self.class_defs)
        &&& old.fields.is_prefix_of(self.fields)
        &&& old.static_fields.is_prefix_of(self.static_fields)
        &&& old.methods.is_prefix_of(self.methods)
        &&& old.nodes.is_prefix_of(self.nodes)
        &&& old.roots.is_prefix_of(self.roots)
    }
}

/// The interning store that owns every entity of a compilation unit.
pub struct Assembly {
    types: Vec<Type>,
    sigs: Vec<FnSig>,
    strings: Vec<String>,
    class_refs: Vec<ClassRef>,
    class_defs: Vec<ClassDef>,
    fields: Vec<FieldDesc>,
    static_fields: Vec<StaticFieldDesc>,
    methods: Vec<MethodRef>,
    nodes: Vec<CILNode>,
    roots: Vec<CILRoot>,
}

impl View for Assembly {
    type V = AsmView;

    closed spec fn view(&self) -> AsmView {
        AsmView {
            types: self.types@,
            sigs: self.sigs@,
            strings: self.strings@.map_values(|s: String| s@),
            class_refs: self.class_refs@,
            class_defs: self.class_defs@,
            fields: self.fields@,
            static_fields: self.static_fields@,
            methods: self.methods@,
            nodes: self.nodes@,
            roots: self.roots@,
        }
    }
}


impl AsmView {
    pub open spec fn with_types(self, types: Seq<Type>) -> AsmView {
        AsmView { types, ..self }
    }

    /// `t` appended to the types unless it is there already.
    pub open spec fn types_with(self, t: Type) -> Seq<Type> {
        if self.types.contains(t) {
            self.types
        } else {
            self.types.push(t)
        }
    }
}

/// Appending entries keeps what was valid valid, and what was interned interned.
proof fn lemma_grow(v: AsmView, w: AsmView)
    requires
        v.wf(),
        w.extends(v),
    ensures
        forall|t: Type| v.type_ok(t) ==> #[trigger] w.type_ok(t),
        forall|t: Type| v.interned(t) ==> #[trigger] w.interned(t),
        forall|i: int| 0 <= i < v.types.len() ==> #[trigger] w.type_ok(w.types[i]),
        forall|i: int| 0 <= i < v.sigs.len() ==> #[trigger] w.sig_ok(w.sigs[i]),
        forall|i: int| 0 <= i < v.class_refs.len() ==> #[trigger] w.class_ref_ok(w.class_refs[i]),
        forall|i: int| 0 <= i < v.class_defs.len() ==> #[trigger] w.class_def_ok(w.class_defs[i]),
        forall|i: int| 0 <= i < v.fields.len() ==> #[trigger] w.field_ok(w.fields[i]),
        forall|i: int|
            0 <= i < v.static_fields.len() ==> #[trigger] w.static_field_ok(w.static_fields[i]),
        forall|i: int| 0 <= i < v.methods.len() ==> #[trigger] w.method_ok(w.methods[i]),
        forall|i: int| 0 <= i < v.nodes.len() ==> #[trigger] w.node_ok(w.nodes[i], i as nat),
        forall|i: int| 0 <= i < v.roots.len() ==> #[trigger] w.root_ok(w.roots[i]),
        w.types.contains(Type::Int(Int::U8)),
        w.well_known_classes(),
{
    assert(w.class_refs[0] == v.class_refs[0]);
    assert(w.class_refs[1] == v.class_refs[1]);
    assert(w.strings[v.class_refs[0].name.0 as int] == v.strings[v.class_refs[0].name.0 as int]);
    assert(w.strings[v.class_refs[1].name.0 as int] == v.strings[v.class_refs[1].name.0 as int]);
    assert forall|t: Type| v.interned(t) implies #[trigger] w.interned(t) by {
        let j = choose|j: int| 0 <= j < v.types.len() && v.types[j] == t;
        assert(w.types[j] == t);
    }
    assert forall|i: int| 0 <= i < v.types.len() implies #[trigger] w.type_ok(w.types[i]) by {
        assert(v.type_ok(v.types[i]));
        assert(w.types[i] == v.types[i]);
    }
    assert forall|i: int| 0 <= i < v.sigs.len() implies #[trigger] w.sig_ok(w.sigs[i]) by {
        assert(v.sig_ok(v.sigs[i]));
        assert(w.sigs[i] == v.sigs[i]);
        assert forall|k: int| 0 <= k < w.sigs[i].inputs@.len() implies #[trigger] w.interned(
            w.sigs[i].inputs@[k],
        ) by {
            assert(v.interned(v.sigs[i].inputs@[k]));
        }
    }
    assert forall|i: int| 0 <= i < v.class_refs.len() implies #[trigger] w.class_ref_ok(
        w.class_refs[i],
    ) by {
        assert(v.class_ref_ok(v.class_refs[i]));
        assert(w.class_refs[i] == v.class_refs[i]);
    }
    assert forall|i: int| 0 <= i < v.class_defs.len() implies #[trigger] w.class_def_ok(
        w.class_defs[i],
    ) by {
        let d = v.class_defs[i];
        assert(v.class_def_ok(d));
        assert(w.class_defs[i] == d);
        assert forall|k: int| 0 <= k < d.fields@.len() implies #[trigger] w.type_ok(
            d.fields@[k].0,
        ) && d.fields@[k].1.0 < w.strings.len() by {
            assert(v.type_ok(d.fields@[k].0));
        }
    }
    assert forall|i: int| 0 <= i < v.fields.len() implies #[trigger] w.field_ok(w.fields[i]) by {
        assert(v.field_ok(v.fields[i]));
        assert(w.fields[i] == v.fields[i]);
    }
    assert forall|i: int| 0 <= i < v.static_fields.len() implies #[trigger] w.static_field_ok(
        w.static_fields[i],
    ) by {
        assert(v.static_field_ok(v.static_fields[i]));
        assert(w.static_fields[i] == v.static_fields[i]);
    }
    assert forall|i: int| 0 <= i < v.methods.len() implies #[trigger] w.method_ok(w.methods[i]) by {
        assert(v.method_ok(v.methods[i]));
        assert(w.methods[i] == v.methods[i]);
    }
    assert forall|i: int| 0 <= i < v.nodes.len() implies #[trigger] w.node_ok(
        w.nodes[i],
        i as nat,
    ) by {
        assert(v.node_ok(v.nodes[i], i as nat));
        assert(w.nodes[i] == v.nodes[i]);
    }
    assert forall|i: int| 0 <= i < v.roots.len() implies #[trigger] w.root_ok(w.roots[i]) by {
        assert(v.root_ok(v.roots[i]));
        assert(w.roots[i] == v.roots[i]);
    }
    assert(w.interned(Type::Int(Int::U8)));
}

proof fn lemma_extends_trans(a: AsmView, b: AsmView, c: AsmView)
    requires
        b.extends(a),
        c.extends(b),
    ensures
        c.extends(a),
{
}

proof fn lemma_same_node_refl(n: CILNode)
    ensures
        same_node(n, n),
{
    match n {
        CILNode::Call(_, a, _) => assert(a@ == a@),
        _ => {},
    }
}

proof fn lemma_same_root_refl(r: CILRoot)
    ensures
        same_root(r, r),
{
}

/// Interning a type keeps the store well formed.
proof fn lemma_types_with_wf(v: AsmView, t: Type)
    requires
        v.wf(),
        v.type_ok(t),
        v.types.len() < MAX_ENTRIES,
    ensures
        v.with_types(v.types_with(t)).wf(),
        v.with_types(v.types_with(t)).extends(v),
        v.with_types(v.types_with(t)).interned(t),
{
    let w = v.with_types(v.types_with(t));
    if !v.types.contains(t) {
        assert(w.types.last() == t);
        assert(w.types.contains(t));
        lemma_grow(v, w);
        assert forall|i: int, j: int|
            0 <= i < w.types.len() && 0 <= j < w.types.len() && i != j implies w.types[i]
                != w.types[j] by {
            if i == v.types.len() {
                assert(!(v.types[j] == t));
            } else if j == v.types.len() {
                assert(!(v.types[i] == t));
            }
        }
        assert(w.type_ok(w.types[v.types.len() as int]));
    } else {
        assert(w =~= v);
    }
}

impl Default for Assembly {
    /// An empty store holding only the well-known classes and the byte type.
    fn default() -> (r: Self)
        ensures
            r@.wf(),
            r@.nodes.len() == 0,
            r@.roots.len() == 0,
            r@.sigs.len() == 0,
            r@.types == seq![Type::Int(Int::U8)],
    {
        let mut strings: Vec<String> = Vec::new();
        strings.push("System.Exception".to_owned());
        strings.push("System.RuntimeTypeHandle".to_owned());
        strings.push("System.Runtime".to_owned());
        let mut class_refs: Vec<ClassRef> = Vec::new();
        class_refs.push(ClassRef { name: StrIdx(0), assembly: Some(StrIdx(2)), is_valuetype: false });
        class_refs.push(ClassRef { name: StrIdx(1), assembly: Some(StrIdx(2)), is_valuetype: true });
        let mut types: Vec<Type> = Vec::new();
        types.push(Type::Int(Int::U8));
        let r = Assembly {
            types,
            sigs: Vec::new(),
            strings,
            class_refs,
            class_defs: Vec::new(),
            fields: Vec::new(),
            static_fields: Vec::new(),
            methods: Vec::new(),
            nodes: Vec::new(),
            roots: Vec::new(),
        };
        assert(r@.types[0] == Type::Int(Int::U8));
        proof {
            reveal_strlit("System.Exception");
            reveal_strlit("System.RuntimeTypeHandle");
        }
        assert(r@.strings[0] == "System.Exception"@);
        assert(r@.strings[1] == "System.RuntimeTypeHandle"@);
        assert(r@.class_ref_ok(r@.class_refs[0]));
        assert(r@.class_ref_ok(r@.class_refs[1]));
        r
    }
}

impl Assembly {
    /// The type behind handle `h`.
    pub fn get_type(&self, h: TypeIdx) -> (r: Type)
        requires
            h.0 < self@.types.len(),
        ensures
            r == self@.types[h.0 as int],
    {
        self.types[h.0 as usize]
    }

    /// The signature behind handle `h`.
    pub fn get_sig(&self, h: SigIdx) -> (r: &FnSig)
        requires
            h.0 < self@.sigs.len(),
        ensures
            *r == self@.sigs[h.0 as int],
    {
        &self.sigs[h.0 as usize]
    }

    /// The string behind handle `h`.
    pub fn get_string(&self, h: StrIdx) -> (r: &String)
        requires
            h.0 < self@.strings.len(),
        ensures
            r@ == self@.strings[h.0 as int],
    {
        &self.strings[h.0 as usize]
    }

    /// The class reference behind handle `h`.
    pub fn class_ref(&self, h: ClassIdx) -> (r: ClassRef)
        requires
            h.0 < self@.class_refs.len(),
        ensures
            r == self@.class_refs[h.0 as int],
    {
        self.class_refs[h.0 as usize]
    }

    /// The class definition at position `d`.
    pub fn class_def_at(&self, d: usize) -> (r: &ClassDef)
        requires
            d < self@.class_defs.len(),
        ensures
            *r == self@.class_defs[d as int],
    {
        &self.class_defs[d]
    }

    /// The field behind handle `h`.
    pub fn get_field(&self, h: FieldIdx) -> (r: FieldDesc)
        requires
            h.0 < self@.fields.len(),
        ensures
            r == self@.fields[h.0 as int],
    {
        self.fields[h.0 as usize]
    }

    /// The static field behind handle `h`.
    pub fn get_static_field(&self, h: StaticFieldIdx) -> (r: StaticFieldDesc)
        requires
            h.0 < self@.static_fields.len(),
        ensures
            r == self@.static_fields[h.0 as int],
    {
        self.static_fields[h.0 as usize]
    }

    /// The method reference behind handle `h`.
    pub fn get_method(&self, h: MethodIdx) -> (r: MethodRef)
        requires
            h.0 < self@.methods.len(),
        ensures
            r == self@.methods[h.0 as int],
    {
        self.methods[h.0 as usize]
    }

    /// The node behind handle `h`.
    pub fn get_node(&self, h: NodeIdx) -> (r: &CILNode)
        requires
            h.0 < self@.nodes.len(),
        ensures
            *r == self@.nodes[h.0 as int],
    {
        &self.nodes[h.0 as usize]
    }

    /// The statement behind handle `h`.
    pub fn get_root(&self, h: RootIdx) -> (r: &CILRoot)
        requires
            h.0 < self@.roots.len(),
        ensures
            *r == self@.roots[h.0 as int],
    {
        &self.roots[h.0 as usize]
    }

    /// Number of interned types.
    pub fn type_count(&self) -> (r: usize)
        ensures
            r == self@.types.len(),
    {
        self.types.len()
    }

    /// Number of interned signatures.
    pub fn sig_count(&self) -> (r: usize)
        ensures
            r == self@.sigs.len(),
    {
        self.sigs.len()
    }

    /// Number of statements.
    pub fn root_count(&self) -> (r: usize)
        ensures
            r == self@.roots.len(),
    {
        self.roots.len()
    }

    /// Number of interned nodes.
    pub fn node_count(&self) -> (r: usize)
        ensures
            r == self@.nodes.len(),
    {
        self.nodes.len()
    }

    /// Looks up the handle of `t`.
    pub fn find_type(&self, t: Type) -> (r: Option<TypeIdx>)
        requires
            self@.wf(),
        ensures
            match r {
                Some(h) => h.0 < self@.types.len() && self@.types[h.0 as int] == t && h
                    == self@.handle_of(t),
                None => !self@.types.contains(t),
            },
    {
        let mut i: usize = 0;
        while i < self.types.len()
            invariant
                self@.wf(),
                i <= self.types@.len(),
                self@.types == self.types@,
                forall|j: int| 0 <= j < i ==> self.types@[j] != t,
            decreases self.types@.len() - i,
        {
            if self.types[i] == t {
                let h = TypeIdx(i as u32);
                proof {
                    assert(self@.types[i as int] == t);
                    let c = choose|k: int| 0 <= k < self@.types.len() && self@.types[k] == t;
                    assert(c == i);
                }
                return Some(h);
            }
            i += 1;
        }
        None
    }

    /// The handle of a type that the store holds.
    pub fn type_handle(&self, t: Type) -> (r: TypeIdx)
        requires
            self@.wf(),
            self@.interned(t),
        ensures
            r == self@.handle_of(t),
            r.0 < self@.types.len(),
            self@.types[r.0 as int] == t,
    {
        match self.find_type(t) {
            Some(h) => h,
            None => {
                assert(false);
                TypeIdx(0)
            },
        }
    }

    /// Interns `t`, returning its handle.
    pub fn alloc_type(&mut self, t: Type) -> (r: TypeIdx)
        requires
            old(self)@.wf(),
            old(self)@.type_ok(t),
            old(self)@.types.len() < MAX_ENTRIES,
        ensures
            final(self)@ == old(self)@.with_types(old(self)@.types_with(t)),
            final(self)@.wf(),
            final(self)@.extends(old(self)@),
            final(self)@.interned(t),
            r == final(self)@.handle_of(t),
            final(self)@.types[r.0 as int] == t,
    {
        proof {
            lemma_types_with_wf(self@, t);
        }
        match self.find_type(t) {
            Some(h) => h,
            None => {
                let h = TypeIdx(self.types.len() as u32);
                self.types.push(t);
                proof {
                    assert(self@.types[h.0 as int] == t);
                    let c = choose|k: int| 0 <= k < self@.types.len() && self@.types[k] == t;
                    assert(c == h.0);
                }
                h
            },
        }
    }
}

impl Assembly {
    /// Interns a string.
    pub fn alloc_string(&mut self, st: String) -> (r: StrIdx)
        requires
            old(self)@.wf(),
            old(self)@.strings.len() < MAX_ENTRIES,
        ensures
            final(self)@.wf(),
            final(self)@.extends(old(self)@),
            (final(self)@ == AsmView {
                strings: final(self)@.strings,
                ..old(self)@
            }),
            r.0 < final(self)@.strings.len(),
            final(self)@.strings[r.0 as int] == st@,
    {
        let ghost v = self@;
        let mut i: usize = 0;
        while i < self.strings.len()
            invariant
                self@ == v,
                v.wf(),
                self.strings@.len() == v.strings.len(),
                i <= self.strings@.len(),
            decreases self.strings@.len() - i,
        {
            if self.strings[i] == st {
                proof {
                    lemma_grow(v, v);
                }
                return StrIdx(i as u32);
            }
            i += 1;
        }
        let h = StrIdx(self.strings.len() as u32);
        self.strings.push(st);
        proof {
            assert(self@.strings =~= v.strings.push(st@));
            lemma_grow(v, self@);
        }
        h
    }

    /// Interns a class reference.
    pub fn alloc_class_ref(&mut self, c: ClassRef) -> (r: ClassIdx)
        requires
            old(self)@.wf(),
            old(self)@.class_ref_ok(c),
            old(self)@.class_refs.len() < MAX_ENTRIES,
        ensures
            final(self)@.wf(),
            final(self)@.extends(old(self)@),
            (final(self)@ == AsmView {
                class_refs: final(self)@.class_refs,
                ..old(self)@
            }),
            r.0 < final(self)@.class_refs.len(),
            final(self)@.class_refs[r.0 as int] == c,
    {
        let ghost v = self@;
        let mut i: usize = 0;
        while i < self.class_refs.len()
            invariant
                self@ == v,
                v.wf(),
                self.class_refs@.len() == v.class_refs.len(),
                i <= self.class_refs@.len(),
            decreases self.class_refs@.len() - i,
        {
            if self.class_refs[i] == c {
                proof {
                    lemma_grow(v, v);
                }
                return ClassIdx(i as u32);
            }
            i += 1;
        }
        let h = ClassIdx(self.class_refs.len() as u32);
        self.class_refs.push(c);
        proof {
            lemma_grow(v, self@);
            assert(self@.class_ref_ok(self@.class_refs[h.0 as int]));
        }
        h
    }

    /// The definition of class `c`, if the store has one.
    pub fn class_ref_to_def(&self, c: ClassIdx) -> (r: Option<usize>)
        requires
            self@.wf(),
        ensures
            r == (match self@.def_of(c) {
                Some(d) => Some(d as usize),
                None => None,
            }),
            r matches Some(d) ==> d < self@.class_defs.len() && self@.class_defs[d as int].cref
                == c,
    {
        let mut i: usize = 0;
        while i < self.class_defs.len()
            invariant
                self@.wf(),
                i <= self.class_defs@.len(),
                self@.class_defs == self.class_defs@,
                forall|j: int| 0 <= j < i ==> self.class_defs@[j].cref != c,
            decreases self.class_defs@.len() - i,
        {
            if self.class_defs[i].cref == c {
                proof {
                    let d = choose|d: int|
                        0 <= d < self@.class_defs.len() && self@.class_defs[d].cref == c;
                    assert(d == i);
                }
                return Some(i);
            }
            i += 1;
        }
        None
    }

    /// Adds the definition of a class that has none yet. Returns `None`, and
    /// leaves the store as it is, when the class is defined already.
    pub fn class_def(&mut self, def: ClassDef) -> (r: Option<usize>)
        requires
            old(self)@.wf(),
            old(self)@.class_def_ok(def),
            old(self)@.class_defs.len() < MAX_ENTRIES,
        ensures
            final(self)@.wf(),
            final(self)@.extends(old(self)@),
            r is None <==> old(self)@.def_of(def.cref) is Some,
            r is None ==> final(self)@ == old(self)@,
            r matches Some(d) ==> (final(self)@ == AsmView {
                class_defs: old(self)@.class_defs.push(def),
                ..old(self)@
            }) && d == old(self)@.class_defs.len(),
    {
        match self.class_ref_to_def(def.cref) {
            Some(_) => None,
            None => {
                let ghost v = self@;
                let d = self.class_defs.len();
                self.class_defs.push(def);
                proof {
                    lemma_grow(v, self@);
                    assert forall|k: int| 0 <= k < def.fields@.len() implies #[trigger] self@.type_ok(
                        def.fields@[k].0,
                    ) && def.fields@[k].1.0 < self@.strings.len() by {
                        assert(v.type_ok(def.fields@[k].0));
                    }
                    assert(self@.class_def_ok(self@.class_defs[d as int]));
                    assert forall|i: int, j: int|
                        0 <= i < self@.class_defs.len() && 0 <= j < self@.class_defs.len() && i
                            != j implies self@.class_defs[i].cref != self@.class_defs[j].cref by {
                        if i == d {
                            assert(!(0 <= j < v.class_defs.len() && v.class_defs[j].cref
                                == def.cref));
                        } else if j == d {
                            assert(!(0 <= i < v.class_defs.len() && v.class_defs[i].cref
                                == def.cref));
                        }
                    }
                    assert(self@ =~= (AsmView { class_defs: v.class_defs.push(def), ..v }));
                }
                Some(d)
            },
        }
    }

    /// Does class definition `d` declare a field of type `tpe` named `name`?
    pub fn def_has_field(&self, d: usize, tpe: Type, name: StrIdx) -> (r: bool)
        requires
            d < self@.class_defs.len(),
        ensures
            r == has_field(self@.class_defs[d as int], tpe, name),
    {
        let fields = &self.class_defs[d].fields;
        let mut i: usize = 0;
        while i < fields.len()
            invariant
                i <= fields@.len(),
                *fields == self@.class_defs[d as int].fields,
                forall|j: int| 0 <= j < i ==> !(fields@[j].0 == tpe && fields@[j].1 == name),
            decreases fields@.len() - i,
        {
            if fields[i].0 == tpe && fields[i].1 == name {
                return true;
            }
            i += 1;
        }
        false
    }

    /// Interns a field descriptor, and its type.
    pub fn alloc_field(&mut self, f: FieldDesc) -> (r: FieldIdx)
        requires
            old(self)@.wf(),
            f.owner.0 < old(self)@.class_refs.len(),
            f.name.0 < old(self)@.strings.len(),
            old(self)@.type_ok(f.tpe),
            old(self)@.types.len() < MAX_ENTRIES,
            old(self)@.fields.len() < MAX_ENTRIES,
        ensures
            final(self)@.wf(),
            final(self)@.extends(old(self)@),
            r.0 < final(self)@.fields.len(),
            final(self)@.fields[r.0 as int] == f,
            final(self)@.nodes == old(self)@.nodes,
            final(self)@.roots == old(self)@.roots,
    {
        let ghost v0 = self@;
        self.alloc_type(f.tpe);
        let ghost v = self@;
        let mut i: usize = 0;
        while i < self.fields.len()
            invariant
                self@ == v,
                v.wf(),
                v.extends(v0),
                v0 == old(self)@,
                v.nodes == v0.nodes,
                v.roots == v0.roots,
                self.fields@.len() == v.fields.len(),
                i <= self.fields@.len(),
            decreases self.fields@.len() - i,
        {
            if self.fields[i] == f {
                proof {
                    lemma_extends_trans(v0, v, v);
                }
                return FieldIdx(i as u32);
            }
            i += 1;
        }
        let h = FieldIdx(self.fields.len() as u32);
        self.fields.push(f);
        proof {
            lemma_grow(v, self@);
            lemma_extends_trans(v0, v, self@);
            assert(self@.field_ok(self@.fields[h.0 as int]));
        }
        h
    }

    /// Interns a static field descriptor, and its type.
    pub fn alloc_static_field(&mut self, f: StaticFieldDesc) -> (r: StaticFieldIdx)
        requires
            old(self)@.wf(),
            f.owner.0 < old(self)@.class_refs.len(),
            f.name.0 < old(self)@.strings.len(),
            old(self)@.type_ok(f.tpe),
            old(self)@.types.len() < MAX_ENTRIES,
            old(self)@.static_fields.len() < MAX_ENTRIES,
        ensures
            final(self)@.wf(),
            final(self)@.extends(old(self)@),
            r.0 < final(self)@.static_fields.len(),
            final(self)@.static_fields[r.0 as int] == f,
            final(self)@.nodes == old(self)@.nodes,
            final(self)@.roots == old(self)@.roots,
    {
        let ghost v0 = self@;
        self.alloc_type(f.tpe);
        let ghost v = self@;
        let mut i: usize = 0;
        while i < self.static_fields.len()
            invariant
                self@ == v,
                v.wf(),
                v.extends(v0),
                v0 == old(self)@,
                v.nodes == v0.nodes,
                v.roots == v0.roots,
                self.static_fields@.len() == v.static_fields.len(),
                i <= self.static_fields@.len(),
            decreases self.static_fields@.len() - i,
        {
            if self.static_fields[i] == f {
                proof {
                    lemma_extends_trans(v0, v, v);
                }
                return StaticFieldIdx(i as u32);
            }
            i += 1;
        }
        let h = StaticFieldIdx(self.static_fields.len() as u32);
        self.static_fields.push(f);
        proof {
            lemma_grow(v, self@);
            lemma_extends_trans(v0, v, self@);
            assert(self@.static_field_ok(self@.static_fields[h.0 as int]));
        }
        h
    }

    /// Interns a method reference.
    pub fn alloc_methodref(&mut self, m: MethodRef) -> (r: MethodIdx)
        requires
            old(self)@.wf(),
            old(self)@.method_ok(m),
            old(self)@.methods.len() < MAX_ENTRIES,
        ensures
            final(self)@.wf(),
            final(self)@.extends(old(self)@),
            (final(self)@ == AsmView {
                methods: final(self)@.methods,
                ..old(self)@
            }),
            r.0 < final(self)@.methods.len(),
            final(self)@.methods[r.0 as int] == m,
    {
        let ghost v = self@;
        let mut i: usize = 0;
        while i < self.methods.len()
            invariant
                self@ == v,
                v.wf(),
                self.methods@.len() == v.methods.len(),
                i <= self.methods@.len(),
            decreases self.methods@.len() - i,
        {
            if self.methods[i] == m {
                return MethodIdx(i as u32);
            }
            i += 1;
        }
        let h = MethodIdx(self.methods.len() as u32);
        self.methods.push(m);
        proof {
            lemma_grow(v, self@);
            assert(self@.method_ok(self@.methods[h.0 as int]));
        }
        h
    }

    /// Interns an expression node whose operands are already in the store.
    pub fn alloc_node(&mut self, n: CILNode) -> (r: NodeIdx)
        requires
            old(self)@.wf(),
            old(self)@.node_ok(n, old(self)@.nodes.len()),
            old(self)@.nodes.len() < MAX_ENTRIES,
        ensures
            final(self)@.wf(),
            final(self)@.extends(old(self)@),
            r.0 < final(self)@.nodes.len(),
            same_node(final(self)@.nodes[r.0 as int], n),
            (exists|i: int| 0 <= i < old(self)@.nodes.len() && same_node(old(self)@.nodes[i], n))
                ==> final(self)@ == old(self)@,
            !(exists|i: int| 0 <= i < old(self)@.nodes.len() && same_node(old(self)@.nodes[i], n))
                ==> (final(self)@ == AsmView { nodes: old(self)@.nodes.push(n), ..old(self)@ })
                && r.0 == old(self)@.nodes.len(),
    {
        let ghost v = self@;
        let mut i: usize = 0;
        while i < self.nodes.len()
            invariant
                self@ == v,
                v.wf(),
                i <= self.nodes@.len(),
                self.nodes@ == v.nodes,
                forall|j: int| 0 <= j < i ==> !same_node(v.nodes[j], n),
            decreases self.nodes@.len() - i,
        {
            if node_eq(&self.nodes[i], &n) {
                proof {
                    lemma_grow(v, v);
                }
                return NodeIdx(i as u32);
            }
            i += 1;
        }
        let h = NodeIdx(self.nodes.len() as u32);
        self.nodes.push(n);
        proof {
            lemma_grow(v, self@);
            assert(self@.node_ok(self@.nodes[h.0 as int], h.0 as nat));
            assert(self@ =~= (AsmView { nodes: v.nodes.push(n), ..v }));
            lemma_same_node_refl(n);
        }
        h
    }

    /// Interns a statement whose operands are already in the store.
    pub fn alloc_root(&mut self, root: CILRoot) -> (r: RootIdx)
        requires
            old(self)@.wf(),
            old(self)@.root_ok(root),
            old(self)@.roots.len() < MAX_ENTRIES,
        ensures
            final(self)@.wf(),
            final(self)@.extends(old(self)@),
            r.0 < final(self)@.roots.len(),
            same_root(final(self)@.roots[r.0 as int], root),
            (exists|i: int| 0 <= i < old(self)@.roots.len() && same_root(old(self)@.roots[i], root))
                ==> final(self)@ == old(self)@,
            !(exists|i: int| 0 <= i < old(self)@.roots.len() && same_root(old(self)@.roots[i], root))
                ==> (final(self)@ == AsmView { roots: old(self)@.roots.push(root), ..old(self)@ })
                && r.0 == old(self)@.roots.len(),
    {
        let ghost v = self@;
        let mut i: usize = 0;
        while i < self.roots.len()
            invariant
                self@ == v,
                v.wf(),
                i <= self.roots@.len(),
                self.roots@ == v.roots,
                forall|j: int| 0 <= j < i ==> !same_root(v.roots[j], root),
            decreases self.roots@.len() - i,
        {
            if root_eq(&self.roots[i], &root) {
                proof {
                    lemma_grow(v, v);
                }
                return RootIdx(i as u32);
            }
            i += 1;
        }
        let h = RootIdx(self.roots.len() as u32);
        self.roots.push(root);
        proof {
            lemma_grow(v, self@);
            assert(self@.root_ok(self@.roots[h.0 as int]));
            assert(self@ =~= (AsmView { roots: v.roots.push(root), ..v }));
            lemma_same_root_refl(root);
        }
        h
    }
}


impl Assembly {
    /// Interns a signature, and each of its input types.
    pub fn sig(&mut self, inputs: Vec<Type>, output: Type) -> (r: SigIdx)
        requires
            old(self)@.wf(),
            forall|i: int| 0 <= i < inputs@.len() ==> old(self)@.type_ok(#[trigger] inputs@[i]),
            old(self)@.type_ok(output),
            old(self)@.types.len() + inputs@.len() < MAX_ENTRIES,
            old(self)@.sigs.len() < MAX_ENTRIES,
        ensures
            final(self)@.wf(),
            final(self)@.extends(old(self)@),
            final(self)@.nodes == old(self)@.nodes,
            final(self)@.roots == old(self)@.roots,
            r.0 < final(self)@.sigs.len(),
            final(self)@.sigs[r.0 as int].inputs@ == inputs@,
            forall|i: int|
                0 <= i < inputs@.len() ==> #[trigger] final(self)@.interned(inputs@[i]),
            final(self)@.sigs[r.0 as int].output == output,
    {
        let ghost v0 = self@;
        let mut i: usize = 0;
        while i < inputs.len()
            invariant
                v0 == old(self)@,
                v0.types.len() + inputs@.len() < MAX_ENTRIES,
                v0.sigs.len() < MAX_ENTRIES,
                self@.wf(),
                self@.extends(v0),
                self@.nodes == v0.nodes,
                self@.roots == v0.roots,
                self@.sigs == v0.sigs,
                i <= inputs@.len(),
                self@.types.len() <= v0.types.len() + i,
                forall|j: int| 0 <= j < inputs@.len() ==> self@.type_ok(#[trigger] inputs@[j]),
                forall|j: int| 0 <= j < i ==> self@.interned(#[trigger] inputs@[j]),
                self@.type_ok(output),
            decreases inputs@.len() - i,
        {
            let ghost before = self@;
            self.alloc_type(inputs[i]);
            proof {
                lemma_grow(before, self@);
                lemma_extends_trans(v0, before, self@);
            }
            i += 1;
        }
        let ghost ins = inputs@;
        let candidate = FnSig { inputs, output };
        let ghost v = self@;
        let mut k: usize = 0;
        while k < self.sigs.len()
            invariant
                self@ == v,
                v.wf(),
                v.extends(v0),
                v0 == old(self)@,
                v.nodes == v0.nodes,
                v.roots == v0.roots,
                self.sigs@.len() == v.sigs.len(),
                v0.sigs.len() < MAX_ENTRIES,
                candidate.inputs@ == ins,
                ins == inputs@,
                candidate.output == output,
                forall|j: int| 0 <= j < ins.len() ==> v.interned(#[trigger] ins[j]),
                v.type_ok(output),
                k <= self.sigs@.len(),
            decreases self.sigs@.len() - k,
        {
            if crate::node_check::sig_eq(&self.sigs[k], &candidate) {
                return SigIdx(k as u32);
            }
            k += 1;
        }
        let h = SigIdx(self.sigs.len() as u32);
        self.sigs.push(candidate);
        proof {
            lemma_grow(v, self@);
            lemma_extends_trans(v0, v, self@);
            assert(self@.sig_ok(self@.sigs[h.0 as int]));
        }
        h
    }

    /// A raw pointer to `t`, interning `t`.
    pub fn nptr(&mut self, t: Type) -> (r: Type)
        requires
            old(self)@.wf(),
            old(self)@.type_ok(t),
            old(self)@.types.len() < MAX_ENTRIES,
        ensures
            final(self)@ == old(self)@.with_types(old(self)@.types_with(t)),
            final(self)@.wf(),
            final(self)@.extends(old(self)@),
            r == Type::Ptr(final(self)@.handle_of(t)),
            final(self)@.type_ok(r),
    {
        Type::Ptr(self.alloc_type(t))
    }

    /// A managed reference to `t`, interning `t`.
    pub fn nref(&mut self, t: Type) -> (r: Type)
        requires
            old(self)@.wf(),
            old(self)@.type_ok(t),
            old(self)@.types.len() < MAX_ENTRIES,
        ensures
            final(self)@ == old(self)@.with_types(old(self)@.types_with(t)),
            final(self)@.wf(),
            final(self)@.extends(old(self)@),
            r == Type::Ref(final(self)@.handle_of(t)),
            final(self)@.type_ok(r),
    {
        Type::Ref(self.alloc_type(t))
    }

    /// Interns `lhs`, `rhs` and the node `lhs op rhs`, returning the latter.
    pub fn biop(&mut self, lhs: CILNode, rhs: CILNode, op: BinOp) -> (r: NodeIdx)
        requires
            old(self)@.wf(),
            old(self)@.node_ok(lhs, old(self)@.nodes.len()),
            old(self)@.node_ok(rhs, old(self)@.nodes.len()),
            old(self)@.nodes.len() + 3 <= MAX_ENTRIES,
        ensures
            final(self)@.wf(),
            final(self)@.extends(old(self)@),
            r.0 < final(self)@.nodes.len(),
            final(self)@.nodes[r.0 as int] matches CILNode::BinOp(a, b, o) && o == op && a.0
                < final(self)@.nodes.len() && b.0 < final(self)@.nodes.len() && same_node(
                final(self)@.nodes[a.0 as int],
                lhs,
            ) && same_node(final(self)@.nodes[b.0 as int], rhs),
    {
        let a = self.alloc_node(lhs);
        proof {
            assert forall|j: int| 0 <= j < rhs.children().len() implies (
            #[trigger] rhs.children()[j]).0 < self@.nodes.len() by {
                assert(old(self)@.node_ok(rhs, old(self)@.nodes.len()));
            }
        }
        let ghost va = self@;
        let b = self.alloc_node(rhs);
        let ghost vb = self@;
        let n = CILNode::BinOp(a, b, op);
        proof {
            assert(n.children() == seq![a, b]);
            lemma_extends_trans(old(self)@, va, vb);
        }
        let r = self.alloc_node(n);
        proof {
            lemma_extends_trans(old(self)@, vb, self@);
            assert(vb.nodes.is_prefix_of(self@.nodes));
            assert(va.nodes.is_prefix_of(vb.nodes));
            assert(self@.nodes[a.0 as int] == va.nodes[a.0 as int]);
            assert(self@.nodes[b.0 as int] == vb.nodes[b.0 as int]);
        }
        r
    }
}

} // verus!
