//! The typing rules of expression nodes.
use vstd::prelude::*;

use crate::assembly::{
    exception_class, has_field, same_sig, type_handle_class, AsmView, Assembly, FieldDesc, FnSig,
    LocalDef,
};
use crate::cilnode::{CILNode, UnOp};
use crate::tpe::{ClassIdx, Int, NodeIdx, SigIdx, StrIdx, Type};
use crate::typecheck::{assignable, binop_type, is_gcref, is_valuetype, TypeCheckError};

verus! {

/// How the arguments of a call are held against the parameters.
#[derive(Clone, Copy, Debug, PartialEq, Eq, Structural)]
pub enum ArgRule {
    /// A call node: assignable, or both pointers to equal types.
    Direct(StrIdx),
    /// An indirect call: assignable.
    Indirect,
    /// A call statement: assignable.
    Statement(StrIdx),
}

/// Every local slot names a type of the store.
pub open spec fn locals_ok(v: AsmView, locals: Seq<LocalDef>) -> bool {
    forall|i: int| 0 <= i < locals.len() ==> (#[trigger] locals[i]).1.0 < v.types.len()
}

/// Does an argument of type `got` fit a parameter of type `expected`?
pub open spec fn arg_fits(v: AsmView, rule: ArgRule, got: Type, expected: Type) -> bool {
    ||| assignable(v, got, expected)
    ||| rule is Direct && deref_equal(v, got, expected)
}

/// Are `a` and `b` both pointers or references to equal types?
pub open spec fn deref_equal(v: AsmView, a: Type, b: Type) -> bool {
    match (a.pointed_to(), b.pointed_to()) {
        (Some(x), Some(y)) => v.types[x.0 as int] == v.types[y.0 as int],
        _ => false,
    }
}

/// The error for argument `idx` of type `got` against parameter `expected`.
pub open spec fn arg_error(rule: ArgRule, got: Type, expected: Type, idx: int) -> TypeCheckError {
    match rule {
        ArgRule::Direct(m) | ArgRule::Statement(m) => TypeCheckError::CallArgTypeWrong {
            got,
            expected,
            idx: idx as usize,
            mname: m,
        },
        ArgRule::Indirect => TypeCheckError::IndirectCallArgTypeWrong {
            got,
            expected,
            idx: idx as usize,
        },
    }
}

/// The type of node `n` of the store, for a function of signature `sig`
/// with local slots `locals`.
pub open spec fn node_type(v: AsmView, sig: SigIdx, locals: Seq<LocalDef>, n: nat) -> Result<
    Type,
    TypeCheckError,
>
    decreases n, 3nat, 0nat,
{
    if n < v.nodes.len() {
        node_rule(v, sig, locals, v.nodes[n as int], n)
    } else {
        // not reached: the checkers only ask for handles of the store
        Err(TypeCheckError::TypeNotPtr { tpe: Type::Void })
    }
}

/// The type of operand `c` of a node whose operands lie below `bound`.
pub open spec fn child_type(
    v: AsmView,
    sig: SigIdx,
    locals: Seq<LocalDef>,
    c: NodeIdx,
    bound: nat,
) -> Result<Type, TypeCheckError>
    decreases bound, 0nat, 0nat,
{
    if c.0 < bound {
        node_type(v, sig, locals, c.0 as nat)
    } else {
        // not reached: in a well-formed store operands precede their nodes
        Err(TypeCheckError::TypeNotPtr { tpe: Type::Void })
    }
}

/// Checks arguments `args[i..]` against `inputs`, left to right, up to the
/// shorter of the two.
pub open spec fn args_rule(
    v: AsmView,
    sig: SigIdx,
    locals: Seq<LocalDef>,
    rule: ArgRule,
    args: Seq<NodeIdx>,
    inputs: Seq<Type>,
    i: nat,
    bound: nat,
) -> Result<(), TypeCheckError>
    decreases bound, 1nat, args.len() - i,
{
    if i >= args.len() || i >= inputs.len() {
        Ok(())
    } else {
        match child_type(v, sig, locals, args[i as int], bound) {
            Err(e) => Err(e),
            Ok(t) => if arg_fits(v, rule, t, inputs[i as int]) {
                args_rule(v, sig, locals, rule, args, inputs, i + 1, bound)
            } else {
                Err(arg_error(rule, t, inputs[i as int], i as int))
            },
        }
    }
}

/// Is the field `f` missing from the known definition of its owner?
pub open spec fn field_absent(v: AsmView, f: FieldDesc) -> bool {
    v.def_of(f.owner) matches Some(d) && !has_field(v.class_defs[d], f.tpe, f.name)
}

/// Checks that `pointed`, the type behind a base address, owns field `f`.
pub open spec fn field_target(v: AsmView, pointed: Type, f: FieldDesc) -> Result<
    (),
    TypeCheckError,
> {
    match pointed {
        Type::ClassRef(po) => if po != f.owner {
            Err(TypeCheckError::FieldOwnerMismatch { owner: po, expected_owner: f.owner, field: f })
        } else if field_absent(v, f) {
            Err(TypeCheckError::FieldNotPresent { tpe: f.tpe, name: f.name, owner: f.owner })
        } else {
            Ok(())
        },
        _ => Err(TypeCheckError::FieldAccessInvalidType { tpe: pointed, field: f }),
    }
}

/// The type behind a field-access base: the pointee of a pointer or
/// reference, or a class instance itself.
pub open spec fn field_base(v: AsmView, addr: Type) -> Option<Type> {
    match addr {
        Type::Ptr(h) | Type::Ref(h) => Some(v.types[h.0 as int]),
        Type::ClassRef(_) => Some(addr),
        _ => None,
    }
}

/// Checks a field access through a base of type `addr`.
pub open spec fn field_access(v: AsmView, addr: Type, f: FieldDesc) -> Result<(), TypeCheckError> {
    match field_base(v, addr) {
        None => Err(TypeCheckError::TypeNotPtr { tpe: addr }),
        Some(pointed) => field_target(v, pointed, f),
    }
}

/// Integer kinds that may index an array.
pub open spec fn is_index_kind(t: Type) -> bool {
    t == Type::Int(Int::I32) || t == Type::Int(Int::U32) || t == Type::Int(Int::I64) || t
        == Type::Int(Int::USize) || t == Type::Int(Int::ISize)
}

/// The typing rule of `node`, whose operands lie below `bound`.
pub open spec fn node_rule(
    v: AsmView,
    sig: SigIdx,
    locals: Seq<LocalDef>,
    node: CILNode,
    bound: nat,
) -> Result<Type, TypeCheckError>
    decreases bound, 2nat, 0nat,
{
    let inputs = v.sigs[sig.0 as int].inputs@;
    match node {
        CILNode::Const(c) => Ok(c.get_type()),
        CILNode::BinOp(a, b, op) => match child_type(v, sig, locals, a, bound) {
            Err(e) => Err(e),
            Ok(lt) => match child_type(v, sig, locals, b, bound) {
                Err(e) => Err(e),
                Ok(rt) => binop_type(v, op, lt, rt),
            },
        },
        CILNode::UnOp(a, op) => match child_type(v, sig, locals, a, bound) {
            Err(e) => Err(e),
            Ok(t) => if (op == UnOp::Not && (t is Int || t is Float || t is Ptr)) || (op
                == UnOp::Neg && ((t matches Type::Int(i) && i.is_signed()) || t is Float
                || t is Ptr)) {
                Ok(t)
            } else {
                Err(TypeCheckError::WrongUnOpArgs { tpe: t, op })
            },
        },
        CILNode::LdLoc(l) => if l < locals.len() {
            Ok(v.types[locals[l as int].1.0 as int])
        } else {
            Err(TypeCheckError::LocalOutOfRange { loc: l })
        },
        CILNode::LdLocA(l) => if l < locals.len() {
            Ok(Type::Ref(locals[l as int].1))
        } else {
            Err(TypeCheckError::LocalOutOfRange { loc: l })
        },
        CILNode::LdArg(a) => if a < inputs.len() {
            Ok(inputs[a as int])
        } else {
            Err(TypeCheckError::ArgOutOfRange { arg: a })
        },
        CILNode::LdArgA(a) => if a < inputs.len() {
            Ok(Type::Ref(v.handle_of(inputs[a as int])))
        } else {
            Err(TypeCheckError::ArgOutOfRange { arg: a })
        },
        CILNode::Call(m, args, _) => {
            let mref = v.methods[m.0 as int];
            let params = v.sigs[mref.sig.0 as int].inputs@;
            if args@.len() != params.len() {
                Err(
                    TypeCheckError::CallArgcWrong {
                        expected: params.len() as usize,
                        got: args@.len() as usize,
                        mname: mref.name,
                    },
                )
            } else {
                match args_rule(
                    v,
                    sig,
                    locals,
                    ArgRule::Direct(mref.name),
                    args@,
                    params,
                    0,
                    bound,
                ) {
                    Err(e) => Err(e),
                    Ok(_) => Ok(v.sigs[mref.sig.0 as int].output),
                }
            }
        },
        CILNode::CallI(f, s, args) => match child_type(v, sig, locals, f, bound) {
            Err(e) => Err(e),
            Ok(ft) => {
                let called = v.sigs[s.0 as int];
                if args@.len() != called.inputs@.len() {
                    Err(
                        TypeCheckError::IndirectCallArgcWrong {
                            expected: called.inputs@.len() as usize,
                            got: args@.len() as usize,
                        },
                    )
                } else {
                    match args_rule(
                        v,
                        sig,
                        locals,
                        ArgRule::Indirect,
                        args@,
                        called.inputs@,
                        0,
                        bound,
                    ) {
                        Err(e) => Err(e),
                        Ok(_) => match ft {
                            Type::FnPtr(ps) => if same_sig(v.sigs[ps.0 as int], called) {
                                Ok(called.output)
                            } else {
                                Err(TypeCheckError::IndirectCallInvalidFnPtrSig { expected: s, got: ps })
                            },
                            _ => Err(TypeCheckError::IndirectCallInvalidFnPtrType { fn_ptr: ft }),
                        },
                    }
                }
            },
        },
        CILNode::IntCast { input, target, .. } => match child_type(v, sig, locals, input, bound) {
            Err(e) => Err(e),
            Ok(t) => if t is Float || t is Int || t is Ptr || t is FnPtr || t is Bool {
                Ok(Type::Int(target))
            } else {
                Err(TypeCheckError::IntCastInvalidInput { got: t, target })
            },
        },
        CILNode::FloatCast { input, target, .. } => match child_type(
            v,
            sig,
            locals,
            input,
            bound,
        ) {
            Err(e) => Err(e),
            Ok(t) => if t is Float || t is Int {
                Ok(Type::Float(target))
            } else {
                Err(TypeCheckError::FloatCastInvalidInput { got: t, target })
            },
        },
        CILNode::RefToPtr(a) => match child_type(v, sig, locals, a, bound) {
            Err(e) => Err(e),
            Ok(t) => match t {
                Type::Ref(h) | Type::Ptr(h) => Ok(Type::Ptr(h)),
                _ => Err(TypeCheckError::RefToPtrArgNotRef { arg: t }),
            },
        },
        CILNode::PtrCast(a, res) => match child_type(v, sig, locals, a, bound) {
            Err(e) => Err(e),
            Ok(t) => {
                let dst = res.as_type();
                if t matches Type::Ptr(h) && is_gcref(v, v.types[h.0 as int]) {
                    Err(TypeCheckError::ManagedPtrCast { src: t, dst })
                } else if t matches Type::Ref(h) && is_gcref(v, v.types[h.0 as int]) {
                    Err(TypeCheckError::ManagedPtrCast { src: t, dst })
                } else if !(t is Ptr || t is Ref || t == Type::Int(Int::USize) || t == Type::Int(
                    Int::ISize,
                ) || t is FnPtr) {
                    Err(TypeCheckError::InvalidPtrCast { expected: res, got: t })
                } else if is_gcref(v, dst) {
                    Err(TypeCheckError::ManagedPtrCast { src: t, dst })
                } else {
                    Ok(dst)
                }
            },
        },
        CILNode::LdFieldAddress { addr, field } => match child_type(v, sig, locals, addr, bound) {
            Err(e) => Err(e),
            Ok(t) => {
                let f = v.fields[field.0 as int];
                match field_access(v, t, f) {
                    Err(e) => Err(e),
                    Ok(_) => match t {
                        Type::Ref(_) => Ok(Type::Ref(v.handle_of(f.tpe))),
                        Type::Ptr(_) => Ok(Type::Ptr(v.handle_of(f.tpe))),
                        // A class instance has fields but no address to offset.
                        _ => Err(TypeCheckError::TypeNotPtr { tpe: t }),
                    },
                }
            },
        },
        CILNode::LdField { addr, field } => match child_type(v, sig, locals, addr, bound) {
            Err(e) => Err(e),
            Ok(t) => {
                let f = v.fields[field.0 as int];
                match field_access(v, t, f) {
                    Err(e) => Err(e),
                    Ok(_) => Ok(f.tpe),
                }
            },
        },
        CILNode::LdInd { addr, tpe, .. } => match child_type(v, sig, locals, addr, bound) {
            Err(e) => Err(e),
            Ok(t) => match t.pointed_to() {
                None => Err(TypeCheckError::TypeNotPtr { tpe: t }),
                Some(h) => {
                    let pointed = v.types[h.0 as int];
                    let expected = v.types[tpe.0 as int];
                    if assignable(v, pointed, expected) {
                        Ok(pointed)
                    } else {
                        Err(TypeCheckError::DerfWrongPtr { expected, got: pointed })
                    }
                },
            },
        },
        CILNode::SizeOf(t) => if v.types[t.0 as int] == Type::Void {
            Err(TypeCheckError::SizeOfVoid)
        } else {
            Ok(Type::Int(Int::I32))
        },
        CILNode::GetException => Ok(Type::ClassRef(exception_class())),
        CILNode::IsInst(a, _) => match child_type(v, sig, locals, a, bound) {
            Err(e) => Err(e),
            Ok(_) => Ok(Type::Bool),
        },
        CILNode::CheckedCast(a, t) => match child_type(v, sig, locals, a, bound) {
            Err(e) => Err(e),
            Ok(_) => Ok(v.types[t.0 as int]),
        },
        CILNode::LocAlloc { size } => match child_type(v, sig, locals, size, bound) {
            Err(e) => Err(e),
            Ok(_) => Ok(Type::Ptr(v.handle_of(Type::Int(Int::U8)))),
        },
        CILNode::LdStaticField(f) => Ok(v.static_fields[f.0 as int].tpe),
        CILNode::LdStaticFieldAddress(f) => Ok(
            Type::Ptr(v.handle_of(v.static_fields[f.0 as int].tpe)),
        ),
        CILNode::LdFtn(m) => Ok(Type::FnPtr(v.methods[m.0 as int].sig)),
        CILNode::LdTypeToken(_) => Ok(Type::ClassRef(type_handle_class())),
        CILNode::LdLen(a) => match child_type(v, sig, locals, a, bound) {
            Err(e) => Err(e),
            Ok(t) => match t {
                Type::PlatformArray { dims, .. } => if dims != 1 {
                    Err(TypeCheckError::LdLenArrNot1D { got: t })
                } else {
                    Ok(Type::Int(Int::I32))
                },
                _ => Err(TypeCheckError::LdLenArgNotArray { got: t }),
            },
        },
        CILNode::LocAllocAlgined { tpe, .. } => Ok(Type::Ptr(tpe)),
        CILNode::LdElelemRef { array, index } => match child_type(v, sig, locals, array, bound) {
            Err(e) => Err(e),
            Ok(at) => match child_type(v, sig, locals, index, bound) {
                Err(e) => Err(e),
                Ok(it) => match at {
                    Type::PlatformArray { elem, dims } => if dims != 1 {
                        Err(TypeCheckError::LdLenArrNot1D { got: at })
                    } else if is_index_kind(it) {
                        Ok(v.types[elem.0 as int])
                    } else {
                        Err(TypeCheckError::ArrIndexInvalidType { index_tpe: it })
                    },
                    _ => Err(TypeCheckError::LdLenArgNotArray { got: at }),
                },
            },
        },
        CILNode::UnboxAny { object, tpe } => match child_type(v, sig, locals, object, bound) {
            Err(e) => Err(e),
            Ok(t) => match t {
                Type::ClassRef(c) => if is_valuetype(v, c) {
                    Err(TypeCheckError::ExpectedClassGotValuetype { cref: v.class_refs[c.0 as int] })
                } else {
                    Ok(v.types[tpe.0 as int])
                },
                Type::PlatformObject | Type::PlatformGeneric(_, _) | Type::PlatformString => Ok(
                    v.types[tpe.0 as int],
                ),
                _ => Err(TypeCheckError::TypeNotClass { object: t }),
            },
        },
    }
}

/// What the checkers need: a well-formed store, a signature of it, and local
/// slots that name its types.
pub open spec fn check_ready(v: AsmView, sig: SigIdx, locals: Seq<LocalDef>) -> bool {
    v.wf() && sig.0 < v.sigs.len() && locals_ok(v, locals)
}

pub(crate) proof fn lemma_sig_inputs_ok(v: AsmView, s: SigIdx)
    requires
        v.wf(),
        s.0 < v.sigs.len(),
    ensures
        forall|j: int|
            0 <= j < v.sigs[s.0 as int].inputs@.len() ==> v.type_ok(
                #[trigger] v.sigs[s.0 as int].inputs@[j],
            ),
{
    assert(v.sig_ok(v.sigs[s.0 as int]));
    assert forall|j: int| 0 <= j < v.sigs[s.0 as int].inputs@.len() implies v.type_ok(
        #[trigger] v.sigs[s.0 as int].inputs@[j],
    ) by {
        assert(v.interned(v.sigs[s.0 as int].inputs@[j]));
    }
}

fn arg_fits_exec(store: &Assembly, rule: ArgRule, got: Type, expected: Type) -> (r: bool)
    requires
        store@.wf(),
        store@.type_ok(got),
        store@.type_ok(expected),
    ensures
        r == arg_fits(store@, rule, got, expected),
{
    if got.is_assignable_to(expected, store) {
        return true;
    }
    match rule {
        ArgRule::Direct(_) => match (got.pointed_to(), expected.pointed_to()) {
            (Some(x), Some(y)) => store.get_type(x) == store.get_type(y),
            _ => false,
        },
        _ => false,
    }
}

fn arg_error_exec(rule: ArgRule, got: Type, expected: Type, idx: usize) -> (r: TypeCheckError)
    ensures
        r == arg_error(rule, got, expected, idx as int),
{
    match rule {
        ArgRule::Direct(m) | ArgRule::Statement(m) => TypeCheckError::CallArgTypeWrong {
            got,
            expected,
            idx,
            mname: m,
        },
        ArgRule::Indirect => TypeCheckError::IndirectCallArgTypeWrong { got, expected, idx },
    }
}

/// Checks the arguments of a call, left to right.
pub(crate) fn check_args(
    store: &Assembly,
    sig: SigIdx,
    locals: &[LocalDef],
    rule: ArgRule,
    args: &[NodeIdx],
    inputs: &[Type],
    bound: usize,
) -> (r: Result<(), TypeCheckError>)
    requires
        check_ready(store@, sig, locals@),
        bound <= store@.nodes.len(),
        forall|j: int| 0 <= j < args@.len() ==> (#[trigger] args@[j]).0 < bound,
        forall|j: int| 0 <= j < inputs@.len() ==> store@.type_ok(#[trigger] inputs@[j]),
    ensures
        r == args_rule(store@, sig, locals@, rule, args@, inputs@, 0, bound as nat),
    decreases bound, 0nat,
{
    let mut i: usize = 0;
    while i < args.len() && i < inputs.len()
        invariant
            check_ready(store@, sig, locals@),
            bound <= store@.nodes.len(),
            forall|j: int| 0 <= j < args@.len() ==> (#[trigger] args@[j]).0 < bound,
            forall|j: int| 0 <= j < inputs@.len() ==> store@.type_ok(#[trigger] inputs@[j]),
            i <= args@.len(),
            args_rule(store@, sig, locals@, rule, args@, inputs@, 0, bound as nat) == args_rule(
                store@,
                sig,
                locals@,
                rule,
                args@,
                inputs@,
                i as nat,
                bound as nat,
            ),
        decreases args@.len() - i,
    {
        proof {
            assert(args@[i as int].0 < bound);
            assert(child_type(store@, sig, locals@, args@[i as int], bound as nat) == node_type(
                store@,
                sig,
                locals@,
                args@[i as int].0 as nat,
            ));
        }
        let t = match check_at(store, sig, locals, args[i]) {
            Ok(t) => t,
            Err(e) => {
                return Err(e);
            },
        };
        if !arg_fits_exec(store, rule, t, inputs[i]) {
            return Err(arg_error_exec(rule, t, inputs[i], i));
        }
        i += 1;
    }
    Ok(())
}

pub(crate) fn field_target_exec(store: &Assembly, pointed: Type, f: FieldDesc) -> (r: Result<
    (),
    TypeCheckError,
>)
    requires
        store@.wf(),
    ensures
        r == field_target(store@, pointed, f),
{
    match pointed {
        Type::ClassRef(po) => {
            if po != f.owner {
                Err(
                    TypeCheckError::FieldOwnerMismatch {
                        owner: po,
                        expected_owner: f.owner,
                        field: f,
                    },
                )
            } else {
                match store.class_ref_to_def(f.owner) {
                    Some(d) => if !store.def_has_field(d, f.tpe, f.name) {
                        Err(TypeCheckError::FieldNotPresent { tpe: f.tpe, name: f.name, owner: f.owner })
                    } else {
                        Ok(())
                    },
                    None => Ok(()),
                }
            }
        },
        _ => Err(TypeCheckError::FieldAccessInvalidType { tpe: pointed, field: f }),
    }
}

fn field_access_exec(store: &Assembly, addr: Type, f: FieldDesc) -> (r: Result<
    (),
    TypeCheckError,
>)
    requires
        store@.wf(),
        store@.type_ok(addr),
    ensures
        r == field_access(store@, addr, f),
{
    let pointed = match addr {
        Type::Ptr(h) | Type::Ref(h) => store.get_type(h),
        Type::ClassRef(_) => addr,
        _ => {
            return Err(TypeCheckError::TypeNotPtr { tpe: addr });
        },
    };
    field_target_exec(store, pointed, f)
}

/// Typechecks node `idx` of the store.
pub(crate) fn check_at(store: &Assembly, sig: SigIdx, locals: &[LocalDef], idx: NodeIdx) -> (r:
    Result<Type, TypeCheckError>)
    requires
        check_ready(store@, sig, locals@),
        idx.0 < store@.nodes.len(),
    ensures
        r == node_type(store@, sig, locals@, idx.0 as nat),
        r matches Ok(t) ==> store@.type_ok(t),
    decreases idx.0, 2nat,
{
    proof {
        let i = idx.0 as int;
        assert(store@.node_ok(store@.nodes[i], i as nat));
    }
    check_node(store, sig, locals, store.get_node(idx), idx.0 as usize)
}

/// Typechecks `node`, whose operands lie below `bound`.
#[verifier::rlimit(100)]
#[verifier::spinoff_prover]
fn check_node(store: &Assembly, sig: SigIdx, locals: &[LocalDef], node: &CILNode, bound: usize) -> (r:
    Result<Type, TypeCheckError>)
    requires
        check_ready(store@, sig, locals@),
        bound <= store@.nodes.len(),
        store@.node_ok(*node, bound as nat),
    ensures
        r == node_rule(store@, sig, locals@, *node, bound as nat),
        r matches Ok(t) ==> store@.type_ok(t),
    decreases bound, 1nat,
{
    let ghost v = store@;
    proof {
        assert(v.sig_ok(v.sigs[sig.0 as int]));
    }
    match node {
        CILNode::Const(c) => Ok(c.get_type()),
        CILNode::BinOp(a, b, op) => {
            proof {
                assert(node.children()[0] == *a && node.children()[1] == *b);
            }
            let lt = check_at(store, sig, locals, *a)?;
            let rt = check_at(store, sig, locals, *b)?;
            op.typecheck(lt, rt, store)
        },
        CILNode::UnOp(a, op) => {
            proof {
                assert(node.children()[0] == *a);
            }
            let t = check_at(store, sig, locals, *a)?;
            match (t, op) {
                (Type::Int(_) | Type::Float(_) | Type::Ptr(_), UnOp::Not) => Ok(t),
                (Type::Int(i), UnOp::Neg) if i.is_signed() => Ok(t),
                (Type::Float(_) | Type::Ptr(_), UnOp::Neg) => Ok(t),
                _ => Err(TypeCheckError::WrongUnOpArgs { tpe: t, op: *op }),
            }
        },
        CILNode::LdLoc(l) => {
            if (*l as usize) < locals.len() {
                Ok(store.get_type(locals[*l as usize].1))
            } else {
                Err(TypeCheckError::LocalOutOfRange { loc: *l })
            }
        },
        CILNode::LdLocA(l) => {
            if (*l as usize) < locals.len() {
                Ok(Type::Ref(locals[*l as usize].1))
            } else {
                Err(TypeCheckError::LocalOutOfRange { loc: *l })
            }
        },
        CILNode::LdArg(a) => {
            let inputs = store.get_sig(sig).inputs();
            if (*a as usize) < inputs.len() {
                proof {
                    assert(v.interned(inputs@[*a as int]));
                }
                Ok(inputs[*a as usize])
            } else {
                Err(TypeCheckError::ArgOutOfRange { arg: *a })
            }
        },
        CILNode::LdArgA(a) => {
            let inputs = store.get_sig(sig).inputs();
            if (*a as usize) < inputs.len() {
                proof {
                    assert(v.interned(inputs@[*a as int]));
                }
                Ok(Type::Ref(store.type_handle(inputs[*a as usize])))
            } else {
                Err(TypeCheckError::ArgOutOfRange { arg: *a })
            }
        },
        CILNode::Call(m, args, _) => {
            let mref = store.get_method(*m);
            proof {
                assert(node.children() == args@);
                assert(v.method_ok(v.methods[m.0 as int]));
                assert(v.sig_ok(v.sigs[mref.sig.0 as int]));
                lemma_sig_inputs_ok(v, mref.sig);
            }
            let callee = store.get_sig(mref.sig);
            let params = callee.inputs();
            if args.len() != params.len() {
                return Err(
                    TypeCheckError::CallArgcWrong {
                        expected: params.len(),
                        got: args.len(),
                        mname: mref.name,
                    },
                );
            }
            check_args(
                store,
                sig,
                locals,
                ArgRule::Direct(mref.name),
                args.as_slice(),
                params,
                bound,
            )?;
            Ok(*callee.output())
        },
        CILNode::CallI(f, s, args) => {
            proof {
                assert(node.children()[0] == *f);
                assert forall|j: int| 0 <= j < args@.len() implies (#[trigger] args@[j]).0
                    < bound by {
                    assert(node.children()[j + 1] == args@[j]);
                }
            }
            let ft = check_at(store, sig, locals, *f)?;
            let called = store.get_sig(*s);
            proof {
                assert(v.sig_ok(v.sigs[s.0 as int]));
                lemma_sig_inputs_ok(v, *s);
            }
            if args.len() != called.inputs().len() {
                return Err(
                    TypeCheckError::IndirectCallArgcWrong {
                        expected: called.inputs().len(),
                        got: args.len(),
                    },
                );
            }
            check_args(store, sig, locals, ArgRule::Indirect, args.as_slice(), called.inputs(), bound)?;
            match ft {
                Type::FnPtr(ps) => {
                    if sig_eq(store.get_sig(ps), called) {
                        Ok(*called.output())
                    } else {
                        Err(TypeCheckError::IndirectCallInvalidFnPtrSig { expected: *s, got: ps })
                    }
                },
                _ => Err(TypeCheckError::IndirectCallInvalidFnPtrType { fn_ptr: ft }),
            }
        },
        CILNode::IntCast { input, target, .. } => {
            proof {
                assert(node.children()[0] == *input);
            }
            let t = check_at(store, sig, locals, *input)?;
            match t {
                Type::Float(_) | Type::Int(_) | Type::Ptr(_) | Type::FnPtr(_) | Type::Bool => Ok(
                    Type::Int(*target),
                ),
                _ => Err(TypeCheckError::IntCastInvalidInput { got: t, target: *target }),
            }
        },
        CILNode::FloatCast { input, target, .. } => {
            proof {
                assert(node.children()[0] == *input);
            }
            let t = check_at(store, sig, locals, *input)?;
            match t {
                Type::Float(_) | Type::Int(_) => Ok(Type::Float(*target)),
                _ => Err(TypeCheckError::FloatCastInvalidInput { got: t, target: *target }),
            }
        },
        CILNode::RefToPtr(a) => {
            proof {
                assert(node.children()[0] == *a);
            }
            let t = check_at(store, sig, locals, *a)?;
            match t {
                Type::Ref(h) | Type::Ptr(h) => Ok(Type::Ptr(h)),
                _ => Err(TypeCheckError::RefToPtrArgNotRef { arg: t }),
            }
        },
        CILNode::PtrCast(a, res) => {
            proof {
                assert(node.children()[0] == *a);
            }
            let t = check_at(store, sig, locals, *a)?;
            let dst = res.as_type();
            match t {
                Type::Ptr(h) | Type::Ref(h) => {
                    proof {
                        assert(v.type_ok(v.types[h.0 as int]));
                    }
                    if store.get_type(h).is_gcref(store) {
                        return Err(TypeCheckError::ManagedPtrCast { src: t, dst });
                    }
                },
                Type::Int(Int::USize | Int::ISize) | Type::FnPtr(_) => {},
                _ => {
                    return Err(TypeCheckError::InvalidPtrCast { expected: *res, got: t });
                },
            }
            if dst.is_gcref(store) {
                return Err(TypeCheckError::ManagedPtrCast { src: t, dst });
            }
            Ok(dst)
        },
        CILNode::LdFieldAddress { addr, field } => {
            proof {
                assert(node.children()[0] == *addr);
                assert(v.field_ok(v.fields[field.0 as int]));
            }
            let t = check_at(store, sig, locals, *addr)?;
            let f = store.get_field(*field);
            field_access_exec(store, t, f)?;
            match t {
                Type::Ref(_) => Ok(Type::Ref(store.type_handle(f.tpe))),
                Type::Ptr(_) => Ok(Type::Ptr(store.type_handle(f.tpe))),
                _ => Err(TypeCheckError::TypeNotPtr { tpe: t }),
            }
        },
        CILNode::LdField { addr, field } => {
            proof {
                assert(node.children()[0] == *addr);
                assert(v.field_ok(v.fields[field.0 as int]));
            }
            let t = check_at(store, sig, locals, *addr)?;
            let f = store.get_field(*field);
            field_access_exec(store, t, f)?;
            Ok(f.tpe)
        },
        CILNode::LdInd { addr, tpe, .. } => {
            proof {
                assert(node.children()[0] == *addr);
            }
            let t = check_at(store, sig, locals, *addr)?;
            match t.pointed_to() {
                None => Err(TypeCheckError::TypeNotPtr { tpe: t }),
                Some(h) => {
                    let pointed = store.get_type(h);
                    let expected = store.get_type(*tpe);
                    proof {
                        assert(v.type_ok(v.types[h.0 as int]));
                    }
                    if pointed.is_assignable_to(expected, store) {
                        Ok(pointed)
                    } else {
                        Err(TypeCheckError::DerfWrongPtr { expected, got: pointed })
                    }
                },
            }
        },
        CILNode::SizeOf(t) => {
            if store.get_type(*t) == Type::Void {
                Err(TypeCheckError::SizeOfVoid)
            } else {
                Ok(Type::Int(Int::I32))
            }
        },
        CILNode::GetException => Ok(Type::ClassRef(ClassIdx(0))),
        CILNode::IsInst(a, _) => {
            proof {
                assert(node.children()[0] == *a);
            }
            check_at(store, sig, locals, *a)?;
            Ok(Type::Bool)
        },
        CILNode::CheckedCast(a, t) => {
            proof {
                assert(node.children()[0] == *a);
                assert(v.type_ok(v.types[t.0 as int]));
            }
            check_at(store, sig, locals, *a)?;
            Ok(store.get_type(*t))
        },
        CILNode::LocAlloc { size } => {
            proof {
                assert(node.children()[0] == *size);
                assert(v.interned(Type::Int(Int::U8)));
            }
            check_at(store, sig, locals, *size)?;
            Ok(Type::Ptr(store.type_handle(Type::Int(Int::U8))))
        },
        CILNode::LdStaticField(f) => {
            proof {
                assert(v.static_field_ok(v.static_fields[f.0 as int]));
            }
            Ok(store.get_static_field(*f).tpe)
        },
        CILNode::LdStaticFieldAddress(f) => {
            proof {
                assert(v.static_field_ok(v.static_fields[f.0 as int]));
            }
            Ok(Type::Ptr(store.type_handle(store.get_static_field(*f).tpe)))
        },
        CILNode::LdFtn(m) => {
            proof {
                assert(v.method_ok(v.methods[m.0 as int]));
            }
            Ok(Type::FnPtr(store.get_method(*m).sig))
        },
        CILNode::LdTypeToken(_) => Ok(Type::ClassRef(ClassIdx(1))),
        CILNode::LdLen(a) => {
            proof {
                assert(node.children()[0] == *a);
            }
            let t = check_at(store, sig, locals, *a)?;
            match t {
                Type::PlatformArray { dims, .. } => {
                    if dims != 1 {
                        Err(TypeCheckError::LdLenArrNot1D { got: t })
                    } else {
                        Ok(Type::Int(Int::I32))
                    }
                },
                _ => Err(TypeCheckError::LdLenArgNotArray { got: t }),
            }
        },
        CILNode::LocAllocAlgined { tpe, .. } => Ok(Type::Ptr(*tpe)),
        CILNode::LdElelemRef { array, index } => {
            proof {
                assert(node.children()[0] == *array && node.children()[1] == *index);
            }
            let at = check_at(store, sig, locals, *array)?;
            let it = check_at(store, sig, locals, *index)?;
            match at {
                Type::PlatformArray { elem, dims } => {
                    if dims != 1 {
                        return Err(TypeCheckError::LdLenArrNot1D { got: at });
                    }
                    match it {
                        Type::Int(Int::I32 | Int::U32 | Int::I64 | Int::USize | Int::ISize) => {
                            proof {
                                assert(v.type_ok(v.types[elem.0 as int]));
                            }
                            Ok(store.get_type(elem))
                        },
                        _ => Err(TypeCheckError::ArrIndexInvalidType { index_tpe: it }),
                    }
                },
                _ => Err(TypeCheckError::LdLenArgNotArray { got: at }),
            }
        },
        CILNode::UnboxAny { object, tpe } => {
            proof {
                assert(node.children()[0] == *object);
                assert(v.type_ok(v.types[tpe.0 as int]));
            }
            let t = check_at(store, sig, locals, *object)?;
            match t {
                Type::ClassRef(c) => {
                    let cref = store.class_ref(c);
                    if cref.is_valuetype() {
                        return Err(TypeCheckError::ExpectedClassGotValuetype { cref });
                    }
                },
                Type::PlatformObject | Type::PlatformGeneric(_, _) | Type::PlatformString => {},
                _ => {
                    return Err(TypeCheckError::TypeNotClass { object: t });
                },
            }
            Ok(store.get_type(*tpe))
        },
    }
}

/// Structural equality of two signatures.
pub fn sig_eq(a: &FnSig, b: &FnSig) -> (r: bool)
    ensures
        r == same_sig(*a, *b),
{
    if a.output != b.output || a.inputs.len() != b.inputs.len() {
        return false;
    }
    let mut i: usize = 0;
    while i < a.inputs.len()
        invariant
            a.inputs@.len() == b.inputs@.len(),
            i <= a.inputs@.len(),
            forall|j: int| 0 <= j < i ==> a.inputs@[j] == b.inputs@[j],
        decreases a.inputs@.len() - i,
    {
        if a.inputs[i] != b.inputs[i] {
            return false;
        }
        i += 1;
    }
    assert(a.inputs@ =~= b.inputs@);
    true
}

impl CILNode {
    /// Typechecks this node, and returns its type if it is valid.
    pub fn typecheck(&self, sig: SigIdx, locals: &[LocalDef], store: &Assembly) -> (r: Result<
        Type,
        TypeCheckError,
    >)
        requires
            check_ready(store@, sig, locals@),
            store@.node_ok(*self, store@.nodes.len()),
        ensures
            r == node_rule(store@, sig, locals@, *self, store@.nodes.len()),
    {
        check_node(store, sig, locals, self, store.node_count())
    }
}

/// Typechecks node `n` of the store, for a function of signature `sig` with
/// local slots `locals`.
pub fn typecheck_node(n: NodeIdx, sig: SigIdx, locals: &[LocalDef], store: &Assembly) -> (r:
    Result<Type, TypeCheckError>)
    requires
        check_ready(store@, sig, locals@),
        n.0 < store@.nodes.len(),
    ensures
        r == node_type(store@, sig, locals@, n.0 as nat),
{
    check_at(store, sig, locals, n)
}

/// Can nodes be checked against signature `sig` and local slots `locals`?
pub fn can_typecheck(sig: SigIdx, locals: &[LocalDef], store: &Assembly) -> (r: bool)
    requires
        store@.wf(),
    ensures
        r == check_ready(store@, sig, locals@),
{
    if sig.0 as usize >= store.sig_count() {
        return false;
    }
    let n = store.type_count();
    let mut i: usize = 0;
    while i < locals.len()
        invariant
            n == store@.types.len(),
            i <= locals@.len(),
            forall|j: int| 0 <= j < i ==> (#[trigger] locals@[j]).1.0 < n,
        decreases locals@.len() - i,
    {
        if locals[i].1.0 as usize >= n {
            return false;
        }
        i += 1;
    }
    true
}

} // verus!
