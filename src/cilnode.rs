//! Expression nodes and statements of the IR.
use vstd::prelude::*;

use crate::tpe::{
    ClassIdx, FieldIdx, Float, Int, MethodIdx, NodeIdx, SigIdx, StaticFieldIdx, StrIdx, Type,
    TypeIdx,
};

verus! {

/// A constant. Floating-point constants are kept as their IEEE bit patterns.
#[derive(Clone, Copy, Debug, PartialEq, Eq, Hash, Structural)]
pub enum Const {
    I8(i8),
    I16(i16),
    I32(i32),
    I64(i64),
    I128(i128),
    ISize(isize),
    U8(u8),
    U16(u16),
    U32(u32),
    U64(u64),
    U128(u128),
    USize(usize),
    PlatformString(StrIdx),
    Bool(bool),
    F32(u32),
    F64(u64),
    /// A null reference of the given class.
    Null(ClassIdx),
}

impl Const {
    pub open spec fn spec_get_type(self) -> Type {
        match self {
            Const::I8(_) => Type::Int(Int::I8),
            Const::I16(_) => Type::Int(Int::I16),
            Const::I32(_) => Type::Int(Int::I32),
            Const::I64(_) => Type::Int(Int::I64),
            Const::I128(_) => Type::Int(Int::I128),
            Const::ISize(_) => Type::Int(Int::ISize),
            Const::U8(_) => Type::Int(Int::U8),
            Const::U16(_) => Type::Int(Int::U16),
            Const::U32(_) => Type::Int(Int::U32),
            Const::U64(_) => Type::Int(Int::U64),
            Const::U128(_) => Type::Int(Int::U128),
            Const::USize(_) => Type::Int(Int::USize),
            Const::PlatformString(_) => Type::PlatformString,
            Const::Bool(_) => Type::Bool,
            Const::F32(_) => Type::Float(Float::F32),
            Const::F64(_) => Type::Float(Float::F64),
            Const::Null(c) => Type::ClassRef(c),
        }
    }

    /// The type of this constant.
    #[verifier::when_used_as_spec(spec_get_type)]
    pub fn get_type(self) -> (r: Type)
        ensures
            r == self.spec_get_type(),
    {
        match self {
            Const::I8(_) => Type::Int(Int::I8),
            Const::I16(_) => Type::Int(Int::I16),
            Const::I32(_) => Type::Int(Int::I32),
            Const::I64(_) => Type::Int(Int::I64),
            Const::I128(_) => Type::Int(Int::I128),
            Const::ISize(_) => Type::Int(Int::ISize),
            Const::U8(_) => Type::Int(Int::U8),
            Const::U16(_) => Type::Int(Int::U16),
            Const::U32(_) => Type::Int(Int::U32),
            Const::U64(_) => Type::Int(Int::U64),
            Const::U128(_) => Type::Int(Int::U128),
            Const::USize(_) => Type::Int(Int::USize),
            Const::PlatformString(_) => Type::PlatformString,
            Const::Bool(_) => Type::Bool,
            Const::F32(_) => Type::Float(Float::F32),
            Const::F64(_) => Type::Float(Float::F64),
            Const::Null(c) => Type::ClassRef(c),
        }
    }
}

/// Binary operators.
#[derive(Clone, Copy, Debug, PartialEq, Eq, Hash, Structural)]
pub enum BinOp {
    Add,
    Eq,
    Sub,
    Mul,
    LtUn,
    Lt,
    GtUn,
    Gt,
    Or,
    XOr,
    And,
    Rem,
    RemUn,
    Shl,
    Shr,
    ShrUn,
    DivUn,
    Div,
}

/// Unary operators.
#[derive(Clone, Copy, Debug, PartialEq, Eq, Hash, Structural)]
pub enum UnOp {
    Not,
    Neg,
}

/// How an integer cast fills the upper bits.
#[derive(Clone, Copy, Debug, PartialEq, Eq, Hash, Structural)]
pub enum ExtendKind {
    ZeroExtend,
    SignExtend,
}

/// The declared result of a raw pointer cast.
#[derive(Clone, Copy, Debug, PartialEq, Eq, Hash, Structural)]
pub enum PtrCastRes {
    Ptr(TypeIdx),
    FnPtr(SigIdx),
    USize,
    ISize,
}

impl PtrCastRes {
    pub open spec fn spec_as_type(self) -> Type {
        match self {
            PtrCastRes::Ptr(t) => Type::Ptr(t),
            PtrCastRes::FnPtr(s) => Type::FnPtr(s),
            PtrCastRes::USize => Type::Int(Int::USize),
            PtrCastRes::ISize => Type::Int(Int::ISize),
        }
    }

    /// The type that the cast produces.
    #[verifier::when_used_as_spec(spec_as_type)]
    pub fn as_type(self) -> (r: Type)
        ensures
            r == self.spec_as_type(),
    {
        match self {
            PtrCastRes::Ptr(t) => Type::Ptr(t),
            PtrCastRes::FnPtr(s) => Type::FnPtr(s),
            PtrCastRes::USize => Type::Int(Int::USize),
            PtrCastRes::ISize => Type::Int(Int::ISize),
        }
    }
}

/// How a method is invoked.
#[derive(Clone, Copy, Debug, PartialEq, Eq, Hash, Structural)]
pub enum MethodKind {
    Static,
    Instance,
    Virtual,
    Constructor,
}

/// Flavour of an ordered comparison in a branch.
#[derive(Clone, Copy, Debug, PartialEq, Eq, Hash, Structural)]
pub enum CmpKind {
    Ordered,
    Unordered,
    Signed,
    Unsigned,
}

/// An expression. Operands are handles of earlier nodes in the store.
#[derive(Clone, Debug)]
pub enum CILNode {
    Const(Const),
    BinOp(NodeIdx, NodeIdx, BinOp),
    UnOp(NodeIdx, UnOp),
    LdLoc(u32),
    LdLocA(u32),
    LdArg(u32),
    LdArgA(u32),
    /// Direct call: callee, arguments, purity flag.
    Call(MethodIdx, Vec<NodeIdx>, bool),
    /// Indirect call: function pointer, signature, arguments.
    CallI(NodeIdx, SigIdx, Vec<NodeIdx>),
    IntCast { input: NodeIdx, target: Int, extend: ExtendKind },
    FloatCast { input: NodeIdx, target: Float, is_signed: bool },
    RefToPtr(NodeIdx),
    PtrCast(NodeIdx, PtrCastRes),
    LdFieldAddress { addr: NodeIdx, field: FieldIdx },
    LdField { addr: NodeIdx, field: FieldIdx },
    LdInd { addr: NodeIdx, tpe: TypeIdx, volatile: bool },
    SizeOf(TypeIdx),
    GetException,
    IsInst(NodeIdx, TypeIdx),
    CheckedCast(NodeIdx, TypeIdx),
    LocAlloc { size: NodeIdx },
    LdStaticField(StaticFieldIdx),
    LdStaticFieldAddress(StaticFieldIdx),
    LdFtn(MethodIdx),
    LdTypeToken(TypeIdx),
    LdLen(NodeIdx),
    LocAllocAlgined { tpe: TypeIdx, align: u64 },
    LdElelemRef { array: NodeIdx, index: NodeIdx },
    UnboxAny { object: NodeIdx, tpe: TypeIdx },
}

/// The condition of a conditional branch.
#[derive(Clone, Copy, Debug, PartialEq, Eq, Hash, Structural)]
pub enum BranchCond {
    True(NodeIdx),
    False(NodeIdx),
    Eq(NodeIdx, NodeIdx),
    Ne(NodeIdx, NodeIdx),
    Lt(NodeIdx, NodeIdx, CmpKind),
    Gt(NodeIdx, NodeIdx, CmpKind),
    Le(NodeIdx, NodeIdx, CmpKind),
    Ge(NodeIdx, NodeIdx, CmpKind),
}

/// A statement.
#[derive(Clone, Debug)]
pub enum CILRoot {
    StLoc(u32, NodeIdx),
    StArg(u32, NodeIdx),
    Ret(NodeIdx),
    Pop(NodeIdx),
    Throw(NodeIdx),
    VoidRet,
    Break,
    Nop,
    /// Target block, sub-target, and the condition (`None`: unconditional).
    Branch(u32, u32, Option<BranchCond>),
    /// Field, base address, value.
    SetField(FieldIdx, NodeIdx, NodeIdx),
    /// Callee, arguments, purity flag.
    Call(MethodIdx, Vec<NodeIdx>, bool),
    /// Address, value, declared type, volatility.
    StInd(NodeIdx, NodeIdx, Type, bool),
    /// Function pointer, signature, arguments.
    CallI(NodeIdx, SigIdx, Vec<NodeIdx>),
    InitBlk(NodeIdx, NodeIdx, NodeIdx),
    CpBlk(NodeIdx, NodeIdx, NodeIdx),
    SetStaticField { field: StaticFieldIdx, val: NodeIdx },
    ReThrow,
    Unreachable(StrIdx),
}

/// The nodes a branch condition reads, left to right.
pub open spec fn cond_nodes(c: BranchCond) -> Seq<NodeIdx> {
    match c {
        BranchCond::True(a) | BranchCond::False(a) => seq![a],
        BranchCond::Eq(a, b) | BranchCond::Ne(a, b) => seq![a, b],
        BranchCond::Lt(a, b, _) | BranchCond::Gt(a, b, _) | BranchCond::Le(a, b, _)
        | BranchCond::Ge(a, b, _) => seq![a, b],
    }
}

impl CILNode {
    /// The direct operands of this node, left to right.
    pub open spec fn children(self) -> Seq<NodeIdx> {
        match self {
            CILNode::BinOp(a, b, _) => seq![a, b],
            CILNode::UnOp(a, _) => seq![a],
            CILNode::Call(_, args, _) => args@,
            CILNode::CallI(f, _, args) => seq![f] + args@,
            CILNode::IntCast { input, .. } => seq![input],
            CILNode::FloatCast { input, .. } => seq![input],
            CILNode::RefToPtr(a) => seq![a],
            CILNode::PtrCast(a, _) => seq![a],
            CILNode::LdFieldAddress { addr, .. } => seq![addr],
            CILNode::LdField { addr, .. } => seq![addr],
            CILNode::LdInd { addr, .. } => seq![addr],
            CILNode::IsInst(a, _) => seq![a],
            CILNode::CheckedCast(a, _) => seq![a],
            CILNode::LocAlloc { size } => seq![size],
            CILNode::LdLen(a) => seq![a],
            CILNode::LdElelemRef { array, index } => seq![array, index],
            CILNode::UnboxAny { object, .. } => seq![object],
            _ => Seq::empty(),
        }
    }

    /// Returns the direct operands of this node, left to right.
    pub fn child_nodes(&self) -> (r: Vec<NodeIdx>)
        ensures
            r@ == self.children(),
    {
        match self {
            CILNode::BinOp(a, b, _) => vec![*a, *b],
            CILNode::UnOp(a, _) => vec![*a],
            CILNode::Call(_, args, _) => args.clone(),
            CILNode::CallI(f, _, args) => {
                let mut r = vec![*f];
                let mut i: usize = 0;
                while i < args.len()
                    invariant
                        i <= args@.len(),
                        r@ == seq![*f] + args@.subrange(0, i as int),
                    decreases args@.len() - i,
                {
                    r.push(args[i]);
                    i += 1;
                    assert(r@ =~= seq![*f] + args@.subrange(0, i as int));
                }
                assert(args@.subrange(0, args@.len() as int) =~= args@);
                r
            },
            CILNode::IntCast { input, .. } => vec![*input],
            CILNode::FloatCast { input, .. } => vec![*input],
            CILNode::RefToPtr(a) => vec![*a],
            CILNode::PtrCast(a, _) => vec![*a],
            CILNode::LdFieldAddress { addr, .. } => vec![*addr],
            CILNode::LdField { addr, .. } => vec![*addr],
            CILNode::LdInd { addr, .. } => vec![*addr],
            CILNode::IsInst(a, _) => vec![*a],
            CILNode::CheckedCast(a, _) => vec![*a],
            CILNode::LocAlloc { size } => vec![*size],
            CILNode::LdLen(a) => vec![*a],
            CILNode::LdElelemRef { array, index } => vec![*array, *index],
            CILNode::UnboxAny { object, .. } => vec![*object],
            _ => Vec::new(),
        }
    }
}

impl CILRoot {
    /// The nodes this statement reads, left to right.
    pub open spec fn children(self) -> Seq<NodeIdx> {
        match self {
            CILRoot::StLoc(_, a) | CILRoot::StArg(_, a) | CILRoot::Ret(a) | CILRoot::Pop(a)
            | CILRoot::Throw(a) => seq![a],
            CILRoot::Branch(_, _, Some(c)) => cond_nodes(c),
            CILRoot::SetField(_, addr, val) => seq![addr, val],
            CILRoot::Call(_, args, _) => args@,
            CILRoot::StInd(addr, val, _, _) => seq![addr, val],
            CILRoot::CallI(f, _, args) => seq![f] + args@,
            CILRoot::InitBlk(a, b, c) | CILRoot::CpBlk(a, b, c) => seq![a, b, c],
            CILRoot::SetStaticField { val, .. } => seq![val],
            _ => Seq::empty(),
        }
    }

    /// Returns the nodes this statement reads, left to right.
    pub fn nodes(&self) -> (r: Vec<NodeIdx>)
        ensures
            r@ == self.children(),
    {
        match self {
            CILRoot::StLoc(_, a) | CILRoot::StArg(_, a) | CILRoot::Ret(a) | CILRoot::Pop(a)
            | CILRoot::Throw(a) => vec![*a],
            CILRoot::Branch(_, _, Some(c)) => match c {
                BranchCond::True(a) | BranchCond::False(a) => vec![*a],
                BranchCond::Eq(a, b) | BranchCond::Ne(a, b) => vec![*a, *b],
                BranchCond::Lt(a, b, _) | BranchCond::Gt(a, b, _) | BranchCond::Le(a, b, _)
                | BranchCond::Ge(a, b, _) => vec![*a, *b],
            },
            CILRoot::SetField(_, addr, val) => vec![*addr, *val],
            CILRoot::Call(_, args, _) => args.clone(),
            CILRoot::StInd(addr, val, _, _) => vec![*addr, *val],
            CILRoot::CallI(f, _, args) => {
                let mut r = vec![*f];
                let mut i: usize = 0;
                while i < args.len()
                    invariant
                        i <= args@.len(),
                        r@ == seq![*f] + args@.subrange(0, i as int),
                    decreases args@.len() - i,
                {
                    r.push(args[i]);
                    i += 1;
                    assert(r@ =~= seq![*f] + args@.subrange(0, i as int));
                }
                assert(args@.subrange(0, args@.len() as int) =~= args@);
                r
            },
            CILRoot::InitBlk(a, b, c) | CILRoot::CpBlk(a, b, c) => vec![*a, *b, *c],
            CILRoot::SetStaticField { val, .. } => vec![*val],
            _ => Vec::new(),
        }
    }
}

/// Structural equality of nodes (operand lists compared element by element).
pub open spec fn same_node(a: CILNode, b: CILNode) -> bool {
    match (a, b) {
        (CILNode::Call(m1, a1, p1), CILNode::Call(m2, a2, p2)) => m1 == m2 && a1@ == a2@ && p1
            == p2,
        (CILNode::CallI(f1, s1, a1), CILNode::CallI(f2, s2, a2)) => f1 == f2 && s1 == s2 && a1@
            == a2@,
        (CILNode::Call(..), _) | (CILNode::CallI(..), _) | (_, CILNode::Call(..)) | (
            _,
            CILNode::CallI(..),
        ) => false,
        _ => a == b,
    }
}

fn same_handles(a: &Vec<NodeIdx>, b: &Vec<NodeIdx>) -> (r: bool)
    ensures
        r == (a@ == b@),
{
    if a.len() != b.len() {
        return false;
    }
    let mut i: usize = 0;
    while i < a.len()
        invariant
            a@.len() == b@.len(),
            i <= a@.len(),
            forall|j: int| 0 <= j < i ==> a@[j] == b@[j],
        decreases a@.len() - i,
    {
        if a[i] != b[i] {
            return false;
        }
        i += 1;
    }
    assert(a@ =~= b@);
    true
}

/// Compares two nodes structurally.
pub fn node_eq(a: &CILNode, b: &CILNode) -> (r: bool)
    ensures
        r == same_node(*a, *b),
{
    match (a, b) {
        (CILNode::Call(m1, a1, p1), CILNode::Call(m2, a2, p2)) => *m1 == *m2 && *p1 == *p2
            && same_handles(a1, a2),
        (CILNode::CallI(f1, s1, a1), CILNode::CallI(f2, s2, a2)) => *f1 == *f2 && *s1 == *s2
            && same_handles(a1, a2),
        (CILNode::Const(x), CILNode::Const(y)) => *x == *y,
        (CILNode::BinOp(a1, b1, o1), CILNode::BinOp(a2, b2, o2)) => *a1 == *a2 && *b1 == *b2 && *o1 == *o2,
        (CILNode::UnOp(a1, o1), CILNode::UnOp(a2, o2)) => *a1 == *a2 && *o1 == *o2,
        (CILNode::LdLoc(x), CILNode::LdLoc(y)) => *x == *y,
        (CILNode::LdLocA(x), CILNode::LdLocA(y)) => *x == *y,
        (CILNode::LdArg(x), CILNode::LdArg(y)) => *x == *y,
        (CILNode::LdArgA(x), CILNode::LdArgA(y)) => *x == *y,
        (CILNode::IntCast { input: i1, target: t1, extend: e1 }, CILNode::IntCast { input: i2, target: t2, extend: e2 }) => *i1 == *i2 && *t1 == *t2 && *e1 == *e2,
        (CILNode::FloatCast { input: i1, target: t1, is_signed: s1 }, CILNode::FloatCast { input: i2, target: t2, is_signed: s2 }) => *i1 == *i2 && *t1 == *t2 && *s1 == *s2,
        (CILNode::RefToPtr(x), CILNode::RefToPtr(y)) => *x == *y,
        (CILNode::PtrCast(a1, r1), CILNode::PtrCast(a2, r2)) => *a1 == *a2 && *r1 == *r2,
        (CILNode::LdFieldAddress { addr: a1, field: f1 }, CILNode::LdFieldAddress { addr: a2, field: f2 }) => *a1 == *a2 && *f1 == *f2,
        (CILNode::LdField { addr: a1, field: f1 }, CILNode::LdField { addr: a2, field: f2 }) => *a1 == *a2 && *f1 == *f2,
        (CILNode::LdInd { addr: a1, tpe: t1, volatile: v1 }, CILNode::LdInd { addr: a2, tpe: t2, volatile: v2 }) => *a1 == *a2 && *t1 == *t2 && *v1 == *v2,
        (CILNode::SizeOf(x), CILNode::SizeOf(y)) => *x == *y,
        (CILNode::GetException, CILNode::GetException) => true,
        (CILNode::IsInst(a1, t1), CILNode::IsInst(a2, t2)) => *a1 == *a2 && *t1 == *t2,
        (CILNode::CheckedCast(a1, t1), CILNode::CheckedCast(a2, t2)) => *a1 == *a2 && *t1 == *t2,
        (CILNode::LocAlloc { size: x }, CILNode::LocAlloc { size: y }) => *x == *y,
        (CILNode::LdStaticField(x), CILNode::LdStaticField(y)) => *x == *y,
        (CILNode::LdStaticFieldAddress(x), CILNode::LdStaticFieldAddress(y)) => *x == *y,
        (CILNode::LdFtn(x), CILNode::LdFtn(y)) => *x == *y,
        (CILNode::LdTypeToken(x), CILNode::LdTypeToken(y)) => *x == *y,
        (CILNode::LdLen(x), CILNode::LdLen(y)) => *x == *y,
        (CILNode::LocAllocAlgined { tpe: t1, align: l1 }, CILNode::LocAllocAlgined { tpe: t2, align: l2 }) => *t1 == *t2 && *l1 == *l2,
        (CILNode::LdElelemRef { array: a1, index: i1 }, CILNode::LdElelemRef { array: a2, index: i2 }) => *a1 == *a2 && *i1 == *i2,
        (CILNode::UnboxAny { object: o1, tpe: t1 }, CILNode::UnboxAny { object: o2, tpe: t2 }) => *o1 == *o2 && *t1 == *t2,
        _ => false,
    }
}

/// Structural equality of statements (operand lists compared element by element).
pub open spec fn same_root(a: CILRoot, b: CILRoot) -> bool {
    match (a, b) {
        (CILRoot::Call(m1, a1, p1), CILRoot::Call(m2, a2, p2)) => m1 == m2 && a1@ == a2@ && p1
            == p2,
        (CILRoot::CallI(f1, s1, a1), CILRoot::CallI(f2, s2, a2)) => f1 == f2 && s1 == s2 && a1@
            == a2@,
        (CILRoot::Call(..), _) | (CILRoot::CallI(..), _) | (_, CILRoot::Call(..)) | (
            _,
            CILRoot::CallI(..),
        ) => false,
        _ => a == b,
    }
}

/// Compares two statements structurally.
pub fn root_eq(a: &CILRoot, b: &CILRoot) -> (r: bool)
    ensures
        r == same_root(*a, *b),
{
    match (a, b) {
        (CILRoot::Call(m1, a1, p1), CILRoot::Call(m2, a2, p2)) => *m1 == *m2 && *p1 == *p2
            && same_handles(a1, a2),
        (CILRoot::CallI(f1, s1, a1), CILRoot::CallI(f2, s2, a2)) => *f1 == *f2 && *s1 == *s2
            && same_handles(a1, a2),
        (CILRoot::StLoc(l1, a1), CILRoot::StLoc(l2, a2)) => *l1 == *l2 && *a1 == *a2,
        (CILRoot::StArg(l1, a1), CILRoot::StArg(l2, a2)) => *l1 == *l2 && *a1 == *a2,
        (CILRoot::Ret(a1), CILRoot::Ret(a2)) => *a1 == *a2,
        (CILRoot::Pop(a1), CILRoot::Pop(a2)) => *a1 == *a2,
        (CILRoot::Throw(a1), CILRoot::Throw(a2)) => *a1 == *a2,
        (CILRoot::VoidRet, CILRoot::VoidRet) => true,
        (CILRoot::Break, CILRoot::Break) => true,
        (CILRoot::Nop, CILRoot::Nop) => true,
        (CILRoot::Branch(t1, s1, c1), CILRoot::Branch(t2, s2, c2)) => *t1 == *t2 && *s1 == *s2
            && *c1 == *c2,
        (CILRoot::SetField(f1, a1, v1), CILRoot::SetField(f2, a2, v2)) => *f1 == *f2 && *a1
            == *a2 && *v1 == *v2,
        (CILRoot::StInd(a1, v1, t1, o1), CILRoot::StInd(a2, v2, t2, o2)) => *a1 == *a2 && *v1
            == *v2 && *t1 == *t2 && *o1 == *o2,
        (CILRoot::InitBlk(a1, b1, c1), CILRoot::InitBlk(a2, b2, c2)) => *a1 == *a2 && *b1 == *b2
            && *c1 == *c2,
        (CILRoot::CpBlk(a1, b1, c1), CILRoot::CpBlk(a2, b2, c2)) => *a1 == *a2 && *b1 == *b2
            && *c1 == *c2,
        (
            CILRoot::SetStaticField { field: f1, val: v1 },
            CILRoot::SetStaticField { field: f2, val: v2 },
        ) => *f1 == *f2 && *v1 == *v2,
        (CILRoot::ReThrow, CILRoot::ReThrow) => true,
        (CILRoot::Unreachable(x), CILRoot::Unreachable(y)) => *x == *y,
        _ => false,
    }
}

} // verus!
