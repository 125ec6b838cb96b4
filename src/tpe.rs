//! The type algebra: integer and float kinds, handles into the store, and
//! value types.
use vstd::prelude::*;

verus! {

/// Handle of an interned [`Type`].
#[derive(Clone, Copy, Debug, PartialEq, Eq, Hash, Structural)]
pub struct TypeIdx(pub u32);

/// Handle of an interned signature.
#[derive(Clone, Copy, Debug, PartialEq, Eq, Hash, Structural)]
pub struct SigIdx(pub u32);

/// Handle of an interned class reference.
#[derive(Clone, Copy, Debug, PartialEq, Eq, Hash, Structural)]
pub struct ClassIdx(pub u32);

/// Handle of an interned string.
#[derive(Clone, Copy, Debug, PartialEq, Eq, Hash, Structural)]
pub struct StrIdx(pub u32);

/// Handle of an interned field descriptor.
#[derive(Clone, Copy, Debug, PartialEq, Eq, Hash, Structural)]
pub struct FieldIdx(pub u32);

/// Handle of an interned static field descriptor.
#[derive(Clone, Copy, Debug, PartialEq, Eq, Hash, Structural)]
pub struct StaticFieldIdx(pub u32);

/// Handle of an interned method reference.
#[derive(Clone, Copy, Debug, PartialEq, Eq, Hash, Structural)]
pub struct MethodIdx(pub u32);

/// Handle of an interned expression node.
#[derive(Clone, Copy, Debug, PartialEq, Eq, Hash, Structural)]
pub struct NodeIdx(pub u32);

/// Handle of an interned statement.
#[derive(Clone, Copy, Debug, PartialEq, Eq, Hash, Structural)]
pub struct RootIdx(pub u32);

/// Integer kinds: width and signedness.
#[derive(Clone, Copy, Debug, PartialEq, Eq, Hash, Structural)]
pub enum Int {
    U8,
    U16,
    U32,
    U64,
    U128,
    USize,
    I8,
    I16,
    I32,
    I64,
    I128,
    ISize,
}

/// Floating-point kinds (only the tag: no value of them is ever computed).
#[derive(Clone, Copy, Debug, PartialEq, Eq, Hash, Structural)]
pub enum Float {
    F16,
    F32,
    F64,
    F128,
}

/// Which generic parameter list a platform generic refers to.
#[derive(Clone, Copy, Debug, PartialEq, Eq, Hash, Structural)]
pub enum GenericKind {
    MethodGeneric,
    TypeGeneric,
}

/// A value type. Element types and signatures are handles into the store.
#[derive(Clone, Copy, Debug, PartialEq, Eq, Hash, Structural)]
pub enum Type {
    /// Unmanaged pointer.
    Ptr(TypeIdx),
    /// Managed (tracked) reference.
    Ref(TypeIdx),
    Int(Int),
    /// A class instance, value-type or reference-type.
    ClassRef(ClassIdx),
    Float(Float),
    PlatformString,
    PlatformChar,
    PlatformGeneric(u32, GenericKind),
    PlatformObject,
    Bool,
    Void,
    /// Managed array with `dims` dimensions.
    PlatformArray { elem: TypeIdx, dims: u8 },
    /// Function pointer.
    FnPtr(SigIdx),
}

impl Int {
    pub open spec fn spec_is_signed(self) -> bool {
        matches!(self, Int::I8 | Int::I16 | Int::I32 | Int::I64 | Int::I128 | Int::ISize)
    }

    /// Is this a signed integer kind?
    #[verifier::when_used_as_spec(spec_is_signed)]
    pub fn is_signed(self) -> (r: bool)
        ensures
            r == self.spec_is_signed(),
    {
        match self {
            Int::I8 | Int::I16 | Int::I32 | Int::I64 | Int::I128 | Int::ISize => true,
            _ => false,
        }
    }

    pub open spec fn spec_as_unsigned(self) -> Int {
        match self {
            Int::I8 => Int::U8,
            Int::I16 => Int::U16,
            Int::I32 => Int::U32,
            Int::I64 => Int::U64,
            Int::I128 => Int::U128,
            Int::ISize => Int::USize,
            _ => self,
        }
    }

    /// The unsigned kind of the same width.
    #[verifier::when_used_as_spec(spec_as_unsigned)]
    pub fn as_unsigned(self) -> (r: Int)
        ensures
            r == self.spec_as_unsigned(),
    {
        match self {
            Int::I8 => Int::U8,
            Int::I16 => Int::U16,
            Int::I32 => Int::U32,
            Int::I64 => Int::U64,
            Int::I128 => Int::U128,
            Int::ISize => Int::USize,
            _ => self,
        }
    }
}

impl Type {
    pub open spec fn spec_as_int(self) -> Option<Int> {
        match self {
            Type::Int(i) => Some(i),
            _ => None,
        }
    }

    /// The integer kind, if this is an integer type.
    #[verifier::when_used_as_spec(spec_as_int)]
    pub fn as_int(self) -> (r: Option<Int>)
        ensures
            r == self.spec_as_int(),
    {
        match self {
            Type::Int(i) => Some(i),
            _ => None,
        }
    }

    pub open spec fn spec_pointed_to(self) -> Option<TypeIdx> {
        match self {
            Type::Ptr(t) | Type::Ref(t) => Some(t),
            _ => None,
        }
    }

    /// The handle of the pointee, if this is a pointer or a reference.
    #[verifier::when_used_as_spec(spec_pointed_to)]
    pub fn pointed_to(self) -> (r: Option<TypeIdx>)
        ensures
            r == self.spec_pointed_to(),
    {
        match self {
            Type::Ptr(t) | Type::Ref(t) => Some(t),
            _ => None,
        }
    }

    pub open spec fn spec_as_class_ref(self) -> Option<ClassIdx> {
        match self {
            Type::ClassRef(c) => Some(c),
            _ => None,
        }
    }

    /// The class handle, if this is a class type.
    #[verifier::when_used_as_spec(spec_as_class_ref)]
    pub fn as_class_ref(self) -> (r: Option<ClassIdx>)
        ensures
            r == self.spec_as_class_ref(),
    {
        match self {
            Type::ClassRef(c) => Some(c),
            _ => None,
        }
    }
}

} // verus!
