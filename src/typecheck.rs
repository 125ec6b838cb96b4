//! Typing rules: assignability, operator tables, and the node and statement
//! checkers.
use vstd::prelude::*;

use crate::assembly::{AsmView, Assembly, ClassRef, FieldDesc};
use crate::cilnode::{BinOp, PtrCastRes, UnOp};
use crate::tpe::{ClassIdx, FieldIdx, Float, Int, SigIdx, StrIdx, Type};

verus! {

/// Why a piece of IR is not well typed.
#[derive(Clone, Copy, Debug, PartialEq, Eq, Structural)]
pub enum TypeCheckError {
    /// A binary operator was applied to operands it does not accept.
    WrongBinopArgs { lhs: Type, rhs: Type, op: BinOp },
    /// A reference-to-pointer cast of something that is no reference or pointer.
    RefToPtrArgNotRef { arg: Type },
    /// A raw pointer cast of an operand that cannot be cast.
    InvalidPtrCast { expected: PtrCastRes, got: Type },
    /// An operation that needs a pointer got another type.
    TypeNotPtr { tpe: Type },
    /// A load through a pointer whose pointee does not fit the declared type.
    DerfWrongPtr { expected: Type, got: Type },
    /// A direct call with the wrong number of arguments.
    CallArgcWrong { expected: usize, got: usize, mname: StrIdx },
    /// A direct call with an argument of the wrong type.
    CallArgTypeWrong { got: Type, expected: Type, idx: usize, mname: StrIdx },
    /// An integer cast of a value that cannot be converted.
    IntCastInvalidInput { got: Type, target: Int },
    /// A field access on a type that has no fields.
    FieldAccessInvalidType { tpe: Type, field: FieldDesc },
    /// A field access through a base of another class than the field's owner.
    FieldOwnerMismatch { owner: ClassIdx, expected_owner: ClassIdx, field: FieldDesc },
    /// Unboxing a value-type instance.
    ExpectedClassGotValuetype { cref: ClassRef },
    /// Unboxing something that is no object.
    TypeNotClass { object: Type },
    /// A float cast of a value that cannot be converted.
    FloatCastInvalidInput { got: Type, target: Float },
    /// A unary operator applied to an operand it does not accept.
    WrongUnOpArgs { tpe: Type, op: UnOp },
    /// An indirect call with the wrong number of arguments.
    IndirectCallArgcWrong { expected: usize, got: usize },
    /// An indirect call with an argument of the wrong type.
    IndirectCallArgTypeWrong { got: Type, expected: Type, idx: usize },
    /// The length of something that is no array.
    LdLenArgNotArray { got: Type },
    /// An array operation on an array of more than one dimension.
    LdLenArrNot1D { got: Type },
    /// An array index of a type that cannot index.
    ArrIndexInvalidType { index_tpe: Type },
    /// An indirect call through something that is no function pointer.
    IndirectCallInvalidFnPtrType { fn_ptr: Type },
    /// An indirect call whose signature differs from the pointer's.
    IndirectCallInvalidFnPtrSig { expected: SigIdx, got: SigIdx },
    /// The size of `Void`.
    SizeOfVoid,
    /// A store into a local of a value of the wrong type.
    LocalAssigementWrong { loc: u32, got: Type, expected: Type },
    /// A comparison of two value-type instances.
    ValueTypeCompare { lhs: Type, rhs: Type },
    /// An indirect store through an address that does not fit the declared type.
    WriteWrongAddr { addr: Type, tpe: Type },
    /// An indirect store of a value that does not fit the declared type.
    WriteWrongValue { tpe: Type, value: Type },
    /// A branch on a condition that is neither boolean nor integer.
    ConditionNotBool { cond: Type },
    /// A conditional branch comparing operands that cannot be compared.
    CantCompareTypes { lhs: Type, rhs: Type },
    /// A field store of a value of the wrong type.
    FieldAssignWrongType { field_tpe: Type, fld: FieldIdx, val: Type },
    /// An access to a field that the owner's definition does not declare.
    FieldNotPresent { tpe: Type, name: StrIdx, owner: ClassIdx },
    /// An arithmetic operation on a void pointer.
    VoidPointerOp { op: BinOp },
    /// A raw pointer cast from or to a managed reference.
    ManagedPtrCast { src: Type, dst: Type },
    /// A read of a local slot that the function does not have.
    LocalOutOfRange { loc: u32 },
    /// A read of an argument slot that the signature does not have.
    ArgOutOfRange { arg: u32 },
}

/// Is class `c` a value type?
pub open spec fn is_valuetype(v: AsmView, c: ClassIdx) -> bool {
    v.class_refs[c.0 as int].is_valuetype
}

/// Is `t` a reference to a garbage-collected object?
pub open spec fn is_gcref(v: AsmView, t: Type) -> bool {
    match t {
        Type::ClassRef(c) => !is_valuetype(v, c),
        Type::PlatformString | Type::PlatformObject | Type::PlatformArray { .. } => true,
        _ => false,
    }
}

/// Is `t` a pointer-sized integer?
pub open spec fn is_native_int(t: Type) -> bool {
    t == Type::Int(Int::ISize) || t == Type::Int(Int::USize)
}

/// May a value of type `src` stand where `dst` is expected? Besides equal
/// types: a bool is a byte, raw and function pointers and pointer-sized
/// integers share one representation, and every managed object is an object.
pub open spec fn assignable(v: AsmView, src: Type, dst: Type) -> bool {
    ||| src == dst
    ||| src == Type::Bool && (dst == Type::Int(Int::I8) || dst == Type::Int(Int::U8))
    ||| (src is Ptr || src is FnPtr) && is_native_int(dst)
    ||| is_native_int(src) && (dst is Ptr || dst is FnPtr)
    ||| dst == Type::PlatformObject && is_gcref(v, src)
}

impl Type {
    /// Is this a reference to a garbage-collected object?
    pub fn is_gcref(self, store: &Assembly) -> (r: bool)
        requires
            store@.type_ok(self),
        ensures
            r == is_gcref(store@, self),
    {
        match self {
            Type::ClassRef(c) => !store.class_ref(c).is_valuetype(),
            Type::PlatformString | Type::PlatformObject | Type::PlatformArray { .. } => true,
            _ => false,
        }
    }

    /// May a value of this type stand where `to` is expected?
    pub fn is_assignable_to(self, to: Type, store: &Assembly) -> (r: bool)
        requires
            store@.type_ok(self),
        ensures
            r == assignable(store@, self, to),
    {
        if self == to {
            return true;
        }
        match (self, to) {
            (Type::Bool, Type::Int(Int::I8 | Int::U8)) => true,
            (Type::Ptr(_) | Type::FnPtr(_), Type::Int(Int::ISize | Int::USize)) => true,
            (Type::Int(Int::ISize | Int::USize), Type::Ptr(_) | Type::FnPtr(_)) => true,
            (_, Type::PlatformObject) => self.is_gcref(store),
            _ => false,
        }
    }
}

/// Is either operand type assignable to the other?
pub open spec fn assignable_either(v: AsmView, lhs: Type, rhs: Type) -> bool {
    assignable(v, lhs, rhs) || assignable(v, rhs, lhs)
}

/// The result that every operator falls back to: when one operand may stand
/// for the other (in either direction) and one of them is an integer, that
/// integer type (the left one if both are integers).
pub open spec fn int_fallback(v: AsmView, lhs: Type, rhs: Type, op: BinOp) -> Result<
    Type,
    TypeCheckError,
> {
    if assignable_either(v, lhs, rhs) && (lhs is Int || rhs is Int) {
        Ok(Type::Int(if lhs is Int { lhs->Int_0 } else { rhs->Int_0 }))
    } else {
        Err(TypeCheckError::WrongBinopArgs { lhs, rhs, op })
    }
}

/// Is `t` an instance of a value-type class?
pub open spec fn is_value_class(v: AsmView, t: Type) -> bool {
    t matches Type::ClassRef(c) && is_valuetype(v, c)
}

/// Integer kinds that may stand as a shift amount (all but the 128-bit ones).
pub open spec fn is_shift_amount(i: Int) -> bool {
    !(i == Int::I128 || i == Int::U128)
}

/// Integer kinds that unsigned division accepts.
pub open spec fn is_div_un_kind(i: Int) -> bool {
    i == Int::U64 || i == Int::USize || i == Int::U32 || i == Int::U16 || i == Int::U8
}

/// Integer kinds that signed division accepts.
pub open spec fn is_div_kind(i: Int) -> bool {
    !(i == Int::I128 || i == Int::U128 || i == Int::I64)
}

/// The type of `lhs op rhs`, or why it is ill typed.
pub open spec fn binop_type(v: AsmView, op: BinOp, lhs: Type, rhs: Type) -> Result<
    Type,
    TypeCheckError,
> {
    match op {
        BinOp::Add | BinOp::Sub => {
            if (lhs is Int || lhs is Float || lhs is Ptr || lhs is FnPtr) && lhs == rhs {
                Ok(lhs)
            } else if (lhs is Ptr || lhs is FnPtr || lhs is Ref) && is_native_int(rhs) {
                Ok(lhs)
            } else if is_native_int(lhs) && (rhs is Ptr || rhs is FnPtr) {
                Ok(rhs)
            } else {
                int_fallback(v, lhs, rhs, op)
            }
        },
        BinOp::Eq => {
            if lhs == rhs || assignable_either(v, lhs, rhs) {
                if is_value_class(v, lhs) || is_value_class(v, rhs) {
                    Err(TypeCheckError::ValueTypeCompare { lhs, rhs })
                } else {
                    Ok(Type::Bool)
                }
            } else {
                Err(TypeCheckError::WrongBinopArgs { lhs, rhs, op })
            }
        },
        BinOp::Mul => {
            if (lhs is Int || lhs is Float) && lhs == rhs {
                Ok(lhs)
            } else if is_native_int(lhs) && (rhs is Ptr || rhs is FnPtr) {
                Ok(rhs)
            } else if is_native_int(lhs) && rhs == Type::Int(Int::I32) {
                Ok(lhs)
            } else {
                int_fallback(v, lhs, rhs, op)
            }
        },
        BinOp::LtUn | BinOp::GtUn | BinOp::Lt | BinOp::Gt => {
            if lhs == rhs || assignable(v, lhs, rhs) {
                Ok(Type::Bool)
            } else {
                Err(TypeCheckError::WrongBinopArgs { lhs, rhs, op })
            }
        },
        BinOp::Or | BinOp::XOr | BinOp::And => {
            if (lhs is Int || lhs is Bool) && lhs == rhs {
                Ok(lhs)
            } else {
                int_fallback(v, lhs, rhs, op)
            }
        },
        BinOp::Rem | BinOp::RemUn => {
            if lhs matches Type::Int(i) && lhs == rhs && i.is_signed() == (op == BinOp::Rem) {
                Ok(lhs)
            } else if lhs is Float && lhs == rhs {
                Ok(Type::Bool)
            } else {
                int_fallback(v, lhs, rhs, op)
            }
        },
        BinOp::Shl | BinOp::Shr | BinOp::ShrUn => {
            if lhs matches Type::Int(l) && rhs matches Type::Int(r) && is_shift_amount(r) && (
            op == BinOp::Shr ==> l.is_signed()) && (op == BinOp::ShrUn ==> !l.is_signed()) {
                Ok(lhs)
            } else {
                int_fallback(v, lhs, rhs, op)
            }
        },
        BinOp::DivUn => {
            if lhs matches Type::Int(l) && lhs == rhs && is_div_un_kind(l) {
                Ok(lhs)
            } else {
                int_fallback(v, lhs, rhs, op)
            }
        },
        BinOp::Div => {
            if lhs matches Type::Int(l) && lhs == rhs && is_div_kind(l) && l.is_signed() {
                Ok(lhs)
            } else if lhs is Float && lhs == rhs {
                Ok(lhs)
            } else {
                int_fallback(v, lhs, rhs, op)
            }
        },
    }
}

fn div_un_kind(i: Int) -> (r: bool)
    ensures
        r == is_div_un_kind(i),
{
    match i {
        Int::U64 | Int::USize | Int::U32 | Int::U16 | Int::U8 => true,
        _ => false,
    }
}

fn div_kind(i: Int) -> (r: bool)
    ensures
        r == is_div_kind(i),
{
    match i {
        Int::I128 | Int::U128 | Int::I64 => false,
        _ => true,
    }
}

fn value_class(t: Type, store: &Assembly) -> (r: bool)
    requires
        store@.type_ok(t),
    ensures
        r == is_value_class(store@, t),
{
    match t {
        Type::ClassRef(c) => store.class_ref(c).is_valuetype(),
        _ => false,
    }
}

/// Executes the shared fallback rule.
fn int_fallback_exec(lhs: Type, rhs: Type, op: BinOp, store: &Assembly) -> (r: Result<
    Type,
    TypeCheckError,
>)
    requires
        store@.type_ok(lhs),
        store@.type_ok(rhs),
    ensures
        r == int_fallback(store@, lhs, rhs, op),
{
    if (lhs.is_assignable_to(rhs, store) || rhs.is_assignable_to(lhs, store)) && (
    lhs.as_int().is_some() || rhs.as_int().is_some()) {
        match lhs.as_int() {
            Some(i) => Ok(Type::Int(i)),
            None => match rhs.as_int() {
                Some(i) => Ok(Type::Int(i)),
                None => Err(TypeCheckError::WrongBinopArgs { lhs, rhs, op }),
            },
        }
    } else {
        Err(TypeCheckError::WrongBinopArgs { lhs, rhs, op })
    }
}

impl BinOp {
    /// Typechecks this operator applied to operands of types `lhs` and `rhs`.
    pub fn typecheck(&self, lhs: Type, rhs: Type, store: &Assembly) -> (r: Result<
        Type,
        TypeCheckError,
    >)
        requires
            store@.wf(),
            store@.type_ok(lhs),
            store@.type_ok(rhs),
        ensures
            r == binop_type(store@, *self, lhs, rhs),
    {
        match self {
            BinOp::Add | BinOp::Sub => match (lhs, rhs) {
                (Type::Int(l), Type::Int(r)) if r == l => Ok(Type::Int(l)),
                (Type::Float(l), Type::Float(r)) if r == l => Ok(Type::Float(l)),
                (Type::Ptr(l), Type::Ptr(r)) if r == l => Ok(Type::Ptr(l)),
                (Type::FnPtr(l), Type::FnPtr(r)) if r == l => Ok(Type::FnPtr(l)),
                // Pointer arithmetic counts in bytes, so the pointee does not matter.
                (Type::Ptr(_), Type::Int(Int::ISize | Int::USize)) => Ok(lhs),
                (Type::FnPtr(_), Type::Int(Int::ISize | Int::USize)) => Ok(lhs),
                (Type::Int(Int::ISize | Int::USize), Type::Ptr(_) | Type::FnPtr(_)) => Ok(rhs),
                // Offsetting a managed reference is tolerated.
                (Type::Ref(_), Type::Int(Int::ISize | Int::USize)) => Ok(lhs),
                _ => int_fallback_exec(lhs, rhs, *self, store),
            },
            BinOp::Eq => {
                if lhs == rhs || lhs.is_assignable_to(rhs, store) || rhs.is_assignable_to(
                    lhs,
                    store,
                ) {
                    // value-type instances have no identity to compare
                    if value_class(lhs, store) || value_class(rhs, store) {
                        Err(TypeCheckError::ValueTypeCompare { lhs, rhs })
                    } else {
                        Ok(Type::Bool)
                    }
                } else {
                    Err(TypeCheckError::WrongBinopArgs { lhs, rhs, op: *self })
                }
            },
            BinOp::Mul => match (lhs, rhs) {
                (Type::Int(l), Type::Int(r)) if r == l => Ok(Type::Int(l)),
                (Type::Float(l), Type::Float(r)) if r == l => Ok(Type::Float(l)),
                (Type::Int(Int::ISize | Int::USize), Type::Ptr(_) | Type::FnPtr(_)) => Ok(rhs),
                // Size computations multiply a native integer by a 32-bit one.
                (Type::Int(Int::ISize), Type::Int(Int::I32)) => Ok(Type::Int(Int::ISize)),
                (Type::Int(Int::USize), Type::Int(Int::I32)) => Ok(Type::Int(Int::USize)),
                _ => int_fallback_exec(lhs, rhs, *self, store),
            },
            BinOp::LtUn | BinOp::GtUn | BinOp::Lt | BinOp::Gt => match (lhs, rhs) {
                (Type::Int(l), Type::Int(r)) if r == l => Ok(Type::Bool),
                (Type::Float(l), Type::Float(r)) if r == l => Ok(Type::Bool),
                (Type::Bool, Type::Bool) => Ok(Type::Bool),
                _ => {
                    if lhs == rhs || lhs.is_assignable_to(rhs, store) {
                        Ok(Type::Bool)
                    } else {
                        Err(TypeCheckError::WrongBinopArgs { lhs, rhs, op: *self })
                    }
                },
            },
            BinOp::Or | BinOp::XOr | BinOp::And => match (lhs, rhs) {
                (Type::Int(l), Type::Int(r)) if r == l => Ok(Type::Int(l)),
                (Type::Bool, Type::Bool) => Ok(Type::Bool),
                _ => int_fallback_exec(lhs, rhs, *self, store),
            },
            BinOp::Rem => match (lhs, rhs) {
                (Type::Int(l), Type::Int(r)) if r == l && r.is_signed() => Ok(Type::Int(l)),
                (Type::Float(l), Type::Float(r)) if r == l => Ok(Type::Bool),
                _ => int_fallback_exec(lhs, rhs, *self, store),
            },
            BinOp::RemUn => match (lhs, rhs) {
                (Type::Int(l), Type::Int(r)) if r == l && !r.is_signed() => Ok(Type::Int(l)),
                (Type::Float(l), Type::Float(r)) if r == l => Ok(Type::Bool),
                _ => int_fallback_exec(lhs, rhs, *self, store),
            },
            BinOp::Shl => match (lhs, rhs) {
                (Type::Int(l), Type::Int(r)) if r != Int::I128 && r != Int::U128 => Ok(
                    Type::Int(l),
                ),
                _ => int_fallback_exec(lhs, rhs, *self, store),
            },
            BinOp::Shr => match (lhs, rhs) {
                (Type::Int(l), Type::Int(r)) if r != Int::I128 && r != Int::U128
                    && l.is_signed() => Ok(Type::Int(l)),
                _ => int_fallback_exec(lhs, rhs, *self, store),
            },
            BinOp::ShrUn => match (lhs, rhs) {
                (Type::Int(l), Type::Int(r)) if r != Int::I128 && r != Int::U128
                    && !l.is_signed() => Ok(Type::Int(l)),
                _ => int_fallback_exec(lhs, rhs, *self, store),
            },
            BinOp::DivUn => match (lhs, rhs) {
                (Type::Int(l), Type::Int(r)) if l == r && div_un_kind(l) => Ok(Type::Int(l)),
                _ => int_fallback_exec(lhs, rhs, *self, store),
            },
            BinOp::Div => match (lhs, rhs) {
                (Type::Int(l), Type::Int(r)) if l.is_signed() && l == r && div_kind(l) => Ok(
                    Type::Int(l),
                ),
                (Type::Float(l), Type::Float(r)) if r == l => Ok(Type::Float(l)),
                _ => int_fallback_exec(lhs, rhs, *self, store),
            },
        }
    }
}

} // verus!
