//! Laws of the typing rules, proved over their specifications.
use vstd::prelude::*;

use crate::assembly::{AsmView, LocalDef};
use crate::cilnode::{BinOp, BranchCond, CILNode, CILRoot, Const, PtrCastRes};
use crate::diag::{describes, is_path, DiagGraph};
use crate::node_check::{args_rule, check_ready, child_type, field_base, node_type, ArgRule};
use crate::root_check::{all_nodes_rule, root_rule};
use crate::tpe::RootIdx;
use crate::tpe::{ClassIdx, FieldIdx, Int, NodeIdx, SigIdx, Type, TypeIdx};
use crate::typecheck::{assignable, binop_type, is_gcref, is_valuetype, TypeCheckError};

verus! {

/// Adding two constants of one integer type yields that integer type.
pub proof fn lemma_add_int_consts(
    v: AsmView,
    sig: SigIdx,
    locals: Seq<LocalDef>,
    n: nat,
    a: NodeIdx,
    b: NodeIdx,
    x: Const,
    y: Const,
    i: Int,
)
    requires
        v.wf(),
        n < v.nodes.len(),
        v.nodes[n as int] == CILNode::BinOp(a, b, BinOp::Add),
        v.nodes[a.0 as int] == CILNode::Const(x),
        v.nodes[b.0 as int] == CILNode::Const(y),
        x.get_type() == Type::Int(i),
        y.get_type() == Type::Int(i),
    ensures
        node_type(v, sig, locals, n) == Ok::<Type, TypeCheckError>(Type::Int(i)),
{
    let k = n as int;
    assert(v.node_ok(v.nodes[k], k as nat));
    assert(v.nodes[n as int].children()[0] == a);
    assert(v.nodes[n as int].children()[1] == b);
    assert(node_type(v, sig, locals, a.0 as nat) == Ok::<Type, TypeCheckError>(Type::Int(i)));
    assert(node_type(v, sig, locals, b.0 as nat) == Ok::<Type, TypeCheckError>(Type::Int(i)));
}

/// Offsetting a raw pointer by a `usize`, on either side, keeps the pointer type.
pub proof fn lemma_ptr_offset(v: AsmView, t: TypeIdx)
    ensures
        binop_type(v, BinOp::Add, Type::Ptr(t), Type::Int(Int::USize)) == Ok::<
            Type,
            TypeCheckError,
        >(Type::Ptr(t)),
        binop_type(v, BinOp::Add, Type::Int(Int::USize), Type::Ptr(t)) == Ok::<
            Type,
            TypeCheckError,
        >(Type::Ptr(t)),
{
}

/// Two instances of one value-type class never compare equal by `Eq`.
pub proof fn lemma_valuetype_eq(v: AsmView, c: ClassIdx)
    requires
        is_valuetype(v, c),
    ensures
        binop_type(v, BinOp::Eq, Type::ClassRef(c), Type::ClassRef(c)) == Err::<
            Type,
            TypeCheckError,
        >(TypeCheckError::ValueTypeCompare { lhs: Type::ClassRef(c), rhs: Type::ClassRef(c) }),
{
}

/// An indirect call through an operand that is no function pointer never
/// succeeds, whatever the signature; once its arguments pass, it fails for
/// that reason.
pub proof fn lemma_calli_needs_fn_ptr(
    v: AsmView,
    sig: SigIdx,
    locals: Seq<LocalDef>,
    n: nat,
    f: NodeIdx,
    s: SigIdx,
    args: Vec<NodeIdx>,
    t: Type,
)
    requires
        v.wf(),
        n < v.nodes.len(),
        v.nodes[n as int] == CILNode::CallI(f, s, args),
        node_type(v, sig, locals, f.0 as nat) == Ok::<Type, TypeCheckError>(t),
        !(t is FnPtr),
    ensures
        node_type(v, sig, locals, n) is Err,
        args@.len() == v.sigs[s.0 as int].inputs@.len() && args_rule(
            v,
            sig,
            locals,
            ArgRule::Indirect,
            args@,
            v.sigs[s.0 as int].inputs@,
            0,
            n,
        ) is Ok ==> node_type(v, sig, locals, n) == Err::<Type, TypeCheckError>(
            TypeCheckError::IndirectCallInvalidFnPtrType { fn_ptr: t },
        ),
{
    let k = n as int;
    assert(v.node_ok(v.nodes[k], k as nat));
    assert(v.nodes[n as int].children()[0] == f);
}

/// Accessing a field through a base of another class than the field's owner
/// fails, naming both classes.
pub proof fn lemma_field_owner_mismatch(
    v: AsmView,
    sig: SigIdx,
    locals: Seq<LocalDef>,
    n: nat,
    addr: NodeIdx,
    field: FieldIdx,
    t: Type,
    owner: ClassIdx,
)
    requires
        v.wf(),
        n < v.nodes.len(),
        v.nodes[n as int] == (CILNode::LdField { addr, field }),
        node_type(v, sig, locals, addr.0 as nat) == Ok::<Type, TypeCheckError>(t),
        field.0 < v.fields.len(),
        field_base(v, t) == Some(Type::ClassRef(owner)),
        owner != v.fields[field.0 as int].owner,
    ensures
        node_type(v, sig, locals, n) == Err::<Type, TypeCheckError>(
            TypeCheckError::FieldOwnerMismatch {
                owner,
                expected_owner: v.fields[field.0 as int].owner,
                field: v.fields[field.0 as int],
            },
        ),
{
    let k = n as int;
    assert(v.node_ok(v.nodes[k], k as nat));
    assert(v.nodes[n as int].children()[0] == addr);
}

/// The size of `Void` is an error; the size of any other type is an `i32`.
pub proof fn lemma_size_of(v: AsmView, sig: SigIdx, locals: Seq<LocalDef>, n: nat, t: TypeIdx)
    requires
        n < v.nodes.len(),
        v.nodes[n as int] == CILNode::SizeOf(t),
    ensures
        v.types[t.0 as int] == Type::Void ==> node_type(v, sig, locals, n) == Err::<
            Type,
            TypeCheckError,
        >(TypeCheckError::SizeOfVoid),
        v.types[t.0 as int] != Type::Void ==> node_type(v, sig, locals, n) == Ok::<
            Type,
            TypeCheckError,
        >(Type::Int(Int::I32)),
{
}

/// Assignability is reflexive.
pub proof fn lemma_assignable_reflexive(v: AsmView, t: Type)
    ensures
        assignable(v, t, t),
{
}

/// A raw pointer cast of a pointer or reference to a garbage-collected type
/// fails, whatever the declared result.
pub proof fn lemma_managed_ptr_cast(
    v: AsmView,
    sig: SigIdx,
    locals: Seq<LocalDef>,
    n: nat,
    a: NodeIdx,
    res: PtrCastRes,
    src: Type,
    h: TypeIdx,
)
    requires
        v.wf(),
        n < v.nodes.len(),
        v.nodes[n as int] == CILNode::PtrCast(a, res),
        node_type(v, sig, locals, a.0 as nat) == Ok::<Type, TypeCheckError>(src),
        src.pointed_to() == Some(h),
        h.0 < v.types.len(),
        is_gcref(v, v.types[h.0 as int]),
    ensures
        node_type(v, sig, locals, n) == Err::<Type, TypeCheckError>(
            TypeCheckError::ManagedPtrCast { src, dst: res.as_type() },
        ),
{
    let k = n as int;
    assert(v.node_ok(v.nodes[k], k as nat));
    assert(v.nodes[n as int].children()[0] == a);
}

proof fn lemma_args_ok(
    v: AsmView,
    sig: SigIdx,
    locals: Seq<LocalDef>,
    rule: ArgRule,
    args: Seq<NodeIdx>,
    inputs: Seq<Type>,
    i: nat,
    bound: nat,
)
    requires
        args_rule(v, sig, locals, rule, args, inputs, i, bound) is Ok,
    ensures
        forall|j: int|
            i <= j < args.len() && j < inputs.len() ==> child_type(
                v,
                sig,
                locals,
                #[trigger] args[j],
                bound,
            ) is Ok,
    decreases args.len() - i,
{
    if i < args.len() && i < inputs.len() {
        lemma_args_ok(v, sig, locals, rule, args, inputs, i + 1, bound);
    }
}

proof fn lemma_all_nodes_ok(v: AsmView, sig: SigIdx, locals: Seq<LocalDef>, ns: Seq<NodeIdx>, i: nat)
    requires
        all_nodes_rule(v, sig, locals, ns, i) is Ok,
    ensures
        forall|j: int|
            i <= j < ns.len() ==> child_type(v, sig, locals, #[trigger] ns[j], v.nodes.len()) is Ok,
    decreases ns.len() - i,
{
    if i < ns.len() {
        lemma_all_nodes_ok(v, sig, locals, ns, i + 1);
    }
}

/// When a node typechecks, so does each of its operands.
proof fn lemma_operands_ok(v: AsmView, sig: SigIdx, locals: Seq<LocalDef>, a: nat, c: NodeIdx)
    requires
        v.wf(),
        a < v.nodes.len(),
        node_type(v, sig, locals, a) is Ok,
        v.nodes[a as int].children().contains(c),
    ensures
        node_type(v, sig, locals, c.0 as nat) is Ok,
{
    let k = a as int;
    assert(v.node_ok(v.nodes[k], k as nat));
    let node = v.nodes[k];
    let q = choose|q: int| 0 <= q < node.children().len() && node.children()[q] == c;
    assert(c.0 < a);
    assert(node_type(v, sig, locals, a) == crate::node_check::node_rule(v, sig, locals, node, a));
    match node {
        CILNode::Call(m, args, _) => {
            let mref = v.methods[m.0 as int];
            let params = v.sigs[mref.sig.0 as int].inputs@;
            lemma_args_ok(v, sig, locals, ArgRule::Direct(mref.name), args@, params, 0, a);
            assert(args@[q] == c);
        },
        CILNode::CallI(f, s, args) => {
            if q > 0 {
                let called = v.sigs[s.0 as int];
                lemma_args_ok(v, sig, locals, ArgRule::Indirect, args@, called.inputs@, 0, a);
                assert(args@[q - 1] == c);
            }
        },
        _ => {},
    }
}

/// Does the statement typecheck every node it reads? All but a call that
/// passes more arguments than its callee's signature lists do.
pub open spec fn reads_all_operands(v: AsmView, root: CILRoot) -> bool {
    root matches CILRoot::Call(m, args, _) ==> args@.len() <= v.sigs[v.methods[m.0 as int].sig.0 as int].inputs@.len()
}

proof fn lemma_statement_operands_ok(
    v: AsmView,
    sig: SigIdx,
    locals: Seq<LocalDef>,
    root: CILRoot,
    c: NodeIdx,
)
    requires
        v.wf(),
        v.root_ok(root),
        root_rule(v, sig, locals, root) is Ok,
        reads_all_operands(v, root),
        root.children().contains(c),
    ensures
        node_type(v, sig, locals, c.0 as nat) is Ok,
{
    let q = choose|q: int| 0 <= q < root.children().len() && root.children()[q] == c;
    assert(c.0 < v.nodes.len());
    match root {
        CILRoot::StLoc(_, _) | CILRoot::StInd(_, _, _, _) | CILRoot::SetField(_, _, _) => {},
        CILRoot::Branch(_, _, cond) => {
            match cond {
                Some(BranchCond::True(_)) | Some(BranchCond::False(_)) | None => {},
                _ => {},
            }
        },
        CILRoot::Call(m, args, _) => {
            let mref = v.methods[m.0 as int];
            let params = v.sigs[mref.sig.0 as int].inputs@;
            lemma_args_ok(v, sig, locals, ArgRule::Statement(mref.name), args@, params, 0, v.nodes.len());
            assert(args@[q] == c);
        },
        _ => {
            lemma_all_nodes_ok(v, sig, locals, root.children(), 0);
            assert(root.children()[q] == c);
        },
    }
}

proof fn lemma_path_ok(
    v: AsmView,
    sig: SigIdx,
    locals: Seq<LocalDef>,
    start: Seq<NodeIdx>,
    p: Seq<NodeIdx>,
    k: int,
)
    requires
        v.wf(),
        is_path(v, p),
        start.contains(p[0]),
        forall|j: int| 0 <= j < start.len() ==> node_type(v, sig, locals, (#[trigger] start[j]).0 as nat) is Ok,
        0 <= k < p.len(),
    ensures
        node_type(v, sig, locals, p[k].0 as nat) is Ok,
    decreases k,
{
    if k > 0 {
        lemma_path_ok(v, sig, locals, start, p, k - 1);
        let j = k - 1;
        assert(v.nodes[p[j].0 as int].children().contains(p[j + 1]));
        lemma_operands_ok(v, sig, locals, p[j].0 as nat, p[j + 1]);
    } else {
        let w = choose|w: int| 0 <= w < start.len() && start[w] == p[0];
    }
}

/// When a statement typechecks, and reads every operand it has, no node of
/// its diagnostic graph carries an error.
pub proof fn lemma_checked_statement_graph_has_no_error(
    v: AsmView,
    sig: SigIdx,
    locals: Seq<LocalDef>,
    r: RootIdx,
    g: DiagGraph,
)
    requires
        check_ready(v, sig, locals),
        r.0 < v.roots.len(),
        describes(v, sig, locals, r, g),
        g.result is Ok,
        reads_all_operands(v, v.roots[r.0 as int]),
    ensures
        forall|k: int| 0 <= k < g.nodes@.len() ==> (#[trigger] g.nodes@[k]).result is Ok,
{
    let root = v.roots[r.0 as int];
    let start = g.root_children@;
    assert(v.root_ok(root)) by {
        let i = r.0 as int;
        assert(v.root_ok(v.roots[i]));
    }
    assert forall|j: int| 0 <= j < start.len() implies node_type(v, sig, locals, (#[trigger] start[j]).0 as nat) is Ok by {
        assert(root.children().contains(start[j]));
        lemma_statement_operands_ok(v, sig, locals, root, start[j]);
    }
    assert forall|k: int| 0 <= k < g.nodes@.len() implies (#[trigger] g.nodes@[k]).result is Ok by {
        let e = g.nodes@[k];
        assert(crate::diag::entry_ok(v, sig, locals, start, e));
        let p = choose|p: Seq<NodeIdx>| is_path(v, p) && start.contains(p[0]) && p.last() == e.id;
        lemma_path_ok(v, sig, locals, start, p, p.len() - 1);
    }
}

} // verus!
