//! A type checker for a stack-based managed bytecode IR.
//!
//! Every type, class reference, signature, field, expression node and
//! statement lives in an interning [`Assembly`] store and is named by a small
//! integer handle. [`CILNode::typecheck`] computes the type of an expression,
//! [`CILRoot::typecheck`] decides whether a statement is well typed, and
//! [`diagnostic_graph`] collects every node a statement reaches with its
//! result. The module `laws` states properties of these rules, proved.

pub mod assembly;
pub mod cilnode;
pub mod diag;
pub mod laws;
pub mod node_check;
pub mod root_check;
pub mod tpe;
pub mod typecheck;

pub use assembly::{
    Assembly, ClassDef, ClassRef, FieldDesc, FnSig, LocalDef, MethodRef, StaticFieldDesc,
};
pub use cilnode::{
    BinOp, BranchCond, CILNode, CILRoot, CmpKind, Const, ExtendKind, MethodKind, PtrCastRes, UnOp,
};
pub use diag::{diagnostic_graph, DiagGraph, DiagNode};
pub use node_check::{can_typecheck, typecheck_node};
pub use root_check::typecheck_root;
pub use tpe::{
    ClassIdx, FieldIdx, Float, GenericKind, Int, MethodIdx, NodeIdx, RootIdx, SigIdx,
    StaticFieldIdx, StrIdx, Type, TypeIdx,
};
pub use typecheck::TypeCheckError;
