//! The typing rules of statements.
use vstd::prelude::*;

use crate::assembly::{AsmView, Assembly, LocalDef};
use crate::cilnode::{BranchCond, CILRoot, MethodKind};
use crate::node_check::{
    args_rule, check_args, check_at, check_ready, child_type, field_target, ArgRule,
};
use crate::tpe::{Int, NodeIdx, RootIdx, SigIdx, Type};
use crate::typecheck::{assignable, is_valuetype, TypeCheckError};

verus! {

/// Are `a` and `b` integers of the same width?
pub open spec fn same_width_ints(a: Type, b: Type) -> bool {
    a matches Type::Int(x) && b matches Type::Int(y) && x.as_unsigned() == y.as_unsigned()
}

/// May a store declared as `tpe` write through an address to `pointed`?
pub open spec fn addr_fits(v: AsmView, pointed: Type, tpe: Type) -> bool {
    ||| assignable(v, tpe, pointed)
    ||| same_width_ints(pointed, tpe)
    ||| pointed == Type::Bool && tpe == Type::Int(Int::I8)
}

/// May a value of type `value` be stored as `tpe`?
pub open spec fn value_fits(v: AsmView, value: Type, tpe: Type) -> bool {
    ||| assignable(v, value, tpe)
    ||| same_width_ints(value, tpe)
    ||| value == Type::Bool && tpe == Type::Int(Int::I8)
}

/// May operands of types `lhs` and `rhs` be compared by a branch?
pub open spec fn comparable(v: AsmView, lhs: Type, rhs: Type) -> bool {
    assignable(v, lhs, rhs) && !(lhs matches Type::ClassRef(c) && is_valuetype(v, c))
}

/// Typechecks the nodes `ns[i..]` in order; the first failure wins.
pub open spec fn all_nodes_rule(
    v: AsmView,
    sig: SigIdx,
    locals: Seq<LocalDef>,
    ns: Seq<NodeIdx>,
    i: nat,
) -> Result<(), TypeCheckError>
    decreases ns.len() - i,
{
    if i >= ns.len() {
        Ok(())
    } else {
        match child_type(v, sig, locals, ns[i as int], v.nodes.len()) {
            Err(e) => Err(e),
            Ok(_) => all_nodes_rule(v, sig, locals, ns, i + 1),
        }
    }
}

/// The typing rule of a branch condition.
pub open spec fn cond_rule(v: AsmView, sig: SigIdx, locals: Seq<LocalDef>, c: BranchCond) -> Result<
    (),
    TypeCheckError,
> {
    let n = v.nodes.len();
    match c {
        BranchCond::True(a) | BranchCond::False(a) => match child_type(v, sig, locals, a, n) {
            Err(e) => Err(e),
            Ok(t) => if t is Bool || t is Int {
                Ok(())
            } else {
                Err(TypeCheckError::ConditionNotBool { cond: t })
            },
        },
        BranchCond::Eq(a, b) | BranchCond::Ne(a, b) | BranchCond::Lt(a, b, _) | BranchCond::Gt(
            a,
            b,
            _,
        ) | BranchCond::Le(a, b, _) | BranchCond::Ge(a, b, _) => match child_type(
            v,
            sig,
            locals,
            a,
            n,
        ) {
            Err(e) => Err(e),
            Ok(lt) => match child_type(v, sig, locals, b, n) {
                Err(e) => Err(e),
                Ok(rt) => if comparable(v, lt, rt) {
                    Ok(())
                } else {
                    Err(TypeCheckError::CantCompareTypes { lhs: lt, rhs: rt })
                },
            },
        },
    }
}

/// The typing rule of statement `root`, for a function of signature `sig`
/// with local slots `locals`.
pub open spec fn root_rule(v: AsmView, sig: SigIdx, locals: Seq<LocalDef>, root: CILRoot) -> Result<
    (),
    TypeCheckError,
> {
    let n = v.nodes.len();
    match root {
        CILRoot::StLoc(loc, a) => match child_type(v, sig, locals, a, n) {
            Err(e) => Err(e),
            Ok(got) => if loc >= locals.len() {
                Err(TypeCheckError::LocalOutOfRange { loc })
            } else {
                let expected = v.types[locals[loc as int].1.0 as int];
                if assignable(v, got, expected) {
                    Ok(())
                } else {
                    Err(TypeCheckError::LocalAssigementWrong { loc, got, expected })
                }
            },
        },
        CILRoot::Branch(_, _, cond) => match cond {
            None => Ok(()),
            Some(c) => cond_rule(v, sig, locals, c),
        },
        CILRoot::StInd(addr, val, tpe, _) => match child_type(v, sig, locals, addr, n) {
            Err(e) => Err(e),
            Ok(at) => match child_type(v, sig, locals, val, n) {
                Err(e) => Err(e),
                Ok(vt) => match at.pointed_to() {
                    None => Err(TypeCheckError::WriteWrongAddr { addr: at, tpe }),
                    Some(h) => if !addr_fits(v, v.types[h.0 as int], tpe) {
                        Err(TypeCheckError::WriteWrongAddr { addr: at, tpe })
                    } else if !value_fits(v, vt, tpe) {
                        Err(TypeCheckError::WriteWrongValue { tpe, value: vt })
                    } else {
                        Ok(())
                    },
                },
            },
        },
        CILRoot::SetField(fld, addr, val) => match child_type(v, sig, locals, addr, n) {
            Err(e) => Err(e),
            Ok(at) => match child_type(v, sig, locals, val, n) {
                Err(e) => Err(e),
                Ok(vt) => {
                    let f = v.fields[fld.0 as int];
                    if !assignable(v, vt, f.tpe) {
                        Err(TypeCheckError::FieldAssignWrongType { field_tpe: f.tpe, fld, val: vt })
                    } else {
                        match at.pointed_to() {
                            None => Err(TypeCheckError::TypeNotPtr { tpe: at }),
                            Some(h) => field_target(v, v.types[h.0 as int], f),
                        }
                    }
                },
            },
        },
        CILRoot::Call(m, args, _) => {
            let mref = v.methods[m.0 as int];
            let params = v.sigs[mref.sig.0 as int].inputs@;
            if mref.kind == MethodKind::Static && args@.len() != params.len() {
                Err(
                    TypeCheckError::CallArgcWrong {
                        expected: params.len() as usize,
                        got: args@.len() as usize,
                        mname: mref.name,
                    },
                )
            } else {
                args_rule(v, sig, locals, ArgRule::Statement(mref.name), args@, params, 0, n)
            }
        },
        _ => all_nodes_rule(v, sig, locals, root.children(), 0),
    }
}

fn value_fits_exec(store: &Assembly, value: Type, tpe: Type) -> (r: bool)
    requires
        store@.wf(),
        store@.type_ok(value),
    ensures
        r == value_fits(store@, value, tpe),
{
    if value.is_assignable_to(tpe, store) {
        return true;
    }
    match (value, tpe) {
        (Type::Int(a), Type::Int(b)) => a.as_unsigned() == b.as_unsigned(),
        (Type::Bool, Type::Int(Int::I8)) => true,
        _ => false,
    }
}

fn addr_fits_exec(store: &Assembly, pointed: Type, tpe: Type) -> (r: bool)
    requires
        store@.wf(),
        store@.type_ok(tpe),
    ensures
        r == addr_fits(store@, pointed, tpe),
{
    if tpe.is_assignable_to(pointed, store) {
        return true;
    }
    match (pointed, tpe) {
        (Type::Int(a), Type::Int(b)) => a.as_unsigned() == b.as_unsigned(),
        (Type::Bool, Type::Int(Int::I8)) => true,
        _ => false,
    }
}

fn check_child(store: &Assembly, sig: SigIdx, locals: &[LocalDef], c: NodeIdx) -> (r: Result<
    Type,
    TypeCheckError,
>)
    requires
        check_ready(store@, sig, locals@),
        c.0 < store@.nodes.len(),
    ensures
        r == child_type(store@, sig, locals@, c, store@.nodes.len()),
        r matches Ok(t) ==> store@.type_ok(t),
{
    check_at(store, sig, locals, c)
}

fn check_all(store: &Assembly, sig: SigIdx, locals: &[LocalDef], ns: &Vec<NodeIdx>) -> (r: Result<
    (),
    TypeCheckError,
>)
    requires
        check_ready(store@, sig, locals@),
        forall|j: int| 0 <= j < ns@.len() ==> (#[trigger] ns@[j]).0 < store@.nodes.len(),
    ensures
        r == all_nodes_rule(store@, sig, locals@, ns@, 0),
{
    let mut i: usize = 0;
    while i < ns.len()
        invariant
            check_ready(store@, sig, locals@),
            forall|j: int| 0 <= j < ns@.len() ==> (#[trigger] ns@[j]).0 < store@.nodes.len(),
            i <= ns@.len(),
            all_nodes_rule(store@, sig, locals@, ns@, 0) == all_nodes_rule(
                store@,
                sig,
                locals@,
                ns@,
                i as nat,
            ),
        decreases ns@.len() - i,
    {
        check_child(store, sig, locals, ns[i])?;
        i += 1;
    }
    Ok(())
}

impl CILRoot {
    /// Typechecks this statement.
    #[verifier::rlimit(50)]
    pub fn typecheck(&self, sig: SigIdx, locals: &[LocalDef], store: &Assembly) -> (r: Result<
        (),
        TypeCheckError,
    >)
        requires
            check_ready(store@, sig, locals@),
            store@.root_ok(*self),
        ensures
            r == root_rule(store@, sig, locals@, *self),
    {
        let ghost v = store@;
        match self {
            CILRoot::StLoc(loc, a) => {
                proof {
                    assert(self.children()[0] == *a);
                }
                let got = check_child(store, sig, locals, *a)?;
                if (*loc as usize) >= locals.len() {
                    return Err(TypeCheckError::LocalOutOfRange { loc: *loc });
                }
                let expected = store.get_type(locals[*loc as usize].1);
                if !got.is_assignable_to(expected, store) {
                    Err(TypeCheckError::LocalAssigementWrong { loc: *loc, got, expected })
                } else {
                    Ok(())
                }
            },
            CILRoot::Branch(_, _, cond) => match cond {
                None => Ok(()),
                Some(c) => match c {
                    BranchCond::True(a) | BranchCond::False(a) => {
                        proof {
                            assert(self.children()[0] == *a);
                        }
                        let t = check_child(store, sig, locals, *a)?;
                        match t {
                            Type::Bool | Type::Int(_) => Ok(()),
                            _ => Err(TypeCheckError::ConditionNotBool { cond: t }),
                        }
                    },
                    BranchCond::Eq(a, b) | BranchCond::Ne(a, b) | BranchCond::Lt(a, b, _)
                    | BranchCond::Gt(a, b, _) | BranchCond::Le(a, b, _) | BranchCond::Ge(
                        a,
                        b,
                        _,
                    ) => {
                        proof {
                            assert(self.children()[0] == *a && self.children()[1] == *b);
                        }
                        let lt = check_child(store, sig, locals, *a)?;
                        let rt = check_child(store, sig, locals, *b)?;
                        let value_class = match lt.as_class_ref() {
                            Some(c) => store.class_ref(c).is_valuetype(),
                            None => false,
                        };
                        if lt.is_assignable_to(rt, store) && !value_class {
                            Ok(())
                        } else {
                            Err(TypeCheckError::CantCompareTypes { lhs: lt, rhs: rt })
                        }
                    },
                },
            },
            CILRoot::StInd(addr, val, tpe, _) => {
                proof {
                    assert(self.children()[0] == *addr && self.children()[1] == *val);
                }
                let at = check_child(store, sig, locals, *addr)?;
                let vt = check_child(store, sig, locals, *val)?;
                match at.pointed_to() {
                    None => Err(TypeCheckError::WriteWrongAddr { addr: at, tpe: *tpe }),
                    Some(h) => {
                        if !addr_fits_exec(store, store.get_type(h), *tpe) {
                            Err(TypeCheckError::WriteWrongAddr { addr: at, tpe: *tpe })
                        } else if !value_fits_exec(store, vt, *tpe) {
                            Err(TypeCheckError::WriteWrongValue { tpe: *tpe, value: vt })
                        } else {
                            Ok(())
                        }
                    },
                }
            },
            CILRoot::SetField(fld, addr, val) => {
                proof {
                    assert(self.children()[0] == *addr && self.children()[1] == *val);
                }
                let at = check_child(store, sig, locals, *addr)?;
                let vt = check_child(store, sig, locals, *val)?;
                let f = store.get_field(*fld);
                if !vt.is_assignable_to(f.tpe, store) {
                    return Err(TypeCheckError::FieldAssignWrongType { field_tpe: f.tpe, fld: *fld, val: vt });
                }
                match at.pointed_to() {
                    None => Err(TypeCheckError::TypeNotPtr { tpe: at }),
                    Some(h) => crate::node_check::field_target_exec(store, store.get_type(h), f),
                }
            },
            CILRoot::Call(m, args, _) => {
                let mref = store.get_method(*m);
                proof {
                    assert(self.children() == args@);
                    assert(v.method_ok(v.methods[m.0 as int]));
                    crate::node_check::lemma_sig_inputs_ok(v, mref.sig);
                }
                let params = store.get_sig(mref.sig).inputs();
                match mref.kind {
                    MethodKind::Static => {
                        if args.len() != params.len() {
                            return Err(
                                TypeCheckError::CallArgcWrong {
                                    expected: params.len(),
                                    got: args.len(),
                                    mname: mref.name,
                                },
                            );
                        }
                    },
                    MethodKind::Instance | MethodKind::Virtual | MethodKind::Constructor => {},
                }
                check_args(
                    store,
                    sig,
                    locals,
                    ArgRule::Statement(mref.name),
                    args.as_slice(),
                    params,
                    store.node_count(),
                )
            },
            _ => {
                let ns = self.nodes();
                check_all(store, sig, locals, &ns)
            },
        }
    }
}

/// Typechecks statement `r` of the store, for a function of signature `sig`
/// with local slots `locals`.
pub fn typecheck_root(r: RootIdx, sig: SigIdx, locals: &[LocalDef], store: &Assembly) -> (res:
    Result<(), TypeCheckError>)
    requires
        check_ready(store@, sig, locals@),
        r.0 < store@.roots.len(),
    ensures
        res == root_rule(store@, sig, locals@, store@.roots[r.0 as int]),
{
    proof {
        let i = r.0 as int;
        assert(store@.root_ok(store@.roots[i]));
    }
    store.get_root(r).typecheck(sig, locals, store)
}

} // verus!
