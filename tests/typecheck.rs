use cilly::{
    typecheck_node, typecheck_root, Assembly, BinOp, BranchCond, CILNode, CILRoot, ClassDef,
    ClassRef, CmpKind, Const, ExtendKind, FieldDesc, Float, Int, LocalDef, MethodKind, MethodRef,
    NodeIdx, PtrCastRes, SigIdx, Type, TypeCheckError, UnOp,
};

fn node(store: &mut Assembly, n: CILNode) -> NodeIdx {
    store.alloc_node(n)
}

fn empty_sig(store: &mut Assembly) -> SigIdx {
    store.sig(vec![], Type::Void)
}

fn check(store: &Assembly, n: NodeIdx) -> Result<Type, TypeCheckError> {
    let sig = SigIdx(0);
    let locals: Vec<LocalDef> = vec![];
    typecheck_node(n, sig, &locals, store)
}

fn value_class(store: &mut Assembly, name: &str) -> cilly::ClassIdx {
    let s = store.alloc_string(name.to_string());
    store.alloc_class_ref(ClassRef { name: s, assembly: None, is_valuetype: true })
}

fn ref_class(store: &mut Assembly, name: &str) -> cilly::ClassIdx {
    let s = store.alloc_string(name.to_string());
    store.alloc_class_ref(ClassRef { name: s, assembly: None, is_valuetype: false })
}

#[test]
fn test() {
    let mut store = Assembly::default();
    let lhs = Const::I64(0);
    let rhs = Const::F64(0.0f64.to_bits());
    store.biop(CILNode::Const(lhs), CILNode::Const(rhs), BinOp::Add);
    let _sig = store.sig(vec![], Type::Void);
}

#[test]
fn mixed_int_float_add_is_rejected() {
    let mut store = Assembly::default();
    empty_sig(&mut store);
    let n = store.biop(
        CILNode::Const(Const::I64(0)),
        CILNode::Const(Const::F64(0.0f64.to_bits())),
        BinOp::Add,
    );
    assert_eq!(
        check(&store, n),
        Err(TypeCheckError::WrongBinopArgs {
            lhs: Type::Int(Int::I64),
            rhs: Type::Float(Float::F64),
            op: BinOp::Add
        })
    );
}

#[test]
fn add_of_equal_int_consts_keeps_the_type() {
    let consts = [
        (Const::I8(0), Const::I8(1), Int::I8),
        (Const::I16(0), Const::I16(1), Int::I16),
        (Const::I32(0), Const::I32(1), Int::I32),
        (Const::I64(0), Const::I64(1), Int::I64),
        (Const::I128(0), Const::I128(1), Int::I128),
        (Const::ISize(0), Const::ISize(1), Int::ISize),
        (Const::U8(0), Const::U8(1), Int::U8),
        (Const::U16(0), Const::U16(1), Int::U16),
        (Const::U32(0), Const::U32(1), Int::U32),
        (Const::U64(0), Const::U64(1), Int::U64),
        (Const::U128(0), Const::U128(1), Int::U128),
        (Const::USize(0), Const::USize(1), Int::USize),
    ];
    for (a, b, i) in consts {
        let mut store = Assembly::default();
        empty_sig(&mut store);
        let n = store.biop(CILNode::Const(a), CILNode::Const(b), BinOp::Add);
        assert_eq!(check(&store, n), Ok(Type::Int(i)));
    }
}

#[test]
fn pointer_plus_usize_either_side() {
    let mut store = Assembly::default();
    empty_sig(&mut store);
    let p = store.nptr(Type::Int(Int::I64));
    for (lhs, rhs) in [(p, Type::Int(Int::USize)), (Type::Int(Int::USize), p)] {
        assert_eq!(BinOp::Add.typecheck(lhs, rhs, &store), Ok(p));
    }
    let void_ptr = store.nptr(Type::Void);
    assert_eq!(BinOp::Add.typecheck(void_ptr, Type::Int(Int::ISize), &store), Ok(void_ptr));
}

#[test]
fn value_type_equality_is_rejected() {
    let mut store = Assembly::default();
    let c = value_class(&mut store, "Point");
    let t = Type::ClassRef(c);
    assert_eq!(
        BinOp::Eq.typecheck(t, t, &store),
        Err(TypeCheckError::ValueTypeCompare { lhs: t, rhs: t })
    );
    let r = Type::ClassRef(ref_class(&mut store, "Node"));
    assert_eq!(BinOp::Eq.typecheck(r, r, &store), Ok(Type::Bool));
}

#[test]
fn direct_call_with_too_few_args() {
    let mut store = Assembly::default();
    empty_sig(&mut store);
    let callee = store.sig(
        vec![Type::Int(Int::I32), Type::Int(Int::I32), Type::Int(Int::I32)],
        Type::Int(Int::I32),
    );
    let name = store.alloc_string("add3".to_string());
    let m = store.alloc_methodref(MethodRef {
        class: cilly::ClassIdx(0),
        name,
        sig: callee,
        kind: MethodKind::Static,
    });
    let a = node(&mut store, CILNode::Const(Const::I32(1)));
    let b = node(&mut store, CILNode::Const(Const::I32(2)));
    let call = node(&mut store, CILNode::Call(m, vec![a, b], false));
    assert_eq!(
        check(&store, call),
        Err(TypeCheckError::CallArgcWrong { expected: 3, got: 2, mname: name })
    );
    let c = node(&mut store, CILNode::Const(Const::I32(3)));
    let good = node(&mut store, CILNode::Call(m, vec![a, b, c], false));
    assert_eq!(check(&store, good), Ok(Type::Int(Int::I32)));
    let stmt = store.alloc_root(CILRoot::Call(m, vec![a, b], false));
    let locals: Vec<LocalDef> = vec![];
    assert_eq!(
        typecheck_root(stmt, SigIdx(0), &locals, &store),
        Err(TypeCheckError::CallArgcWrong { expected: 3, got: 2, mname: name })
    );
}

#[test]
fn direct_call_with_wrong_arg_type() {
    let mut store = Assembly::default();
    empty_sig(&mut store);
    let callee = store.sig(vec![Type::Int(Int::I32)], Type::Void);
    let name = store.alloc_string("f".to_string());
    let m = store.alloc_methodref(MethodRef {
        class: cilly::ClassIdx(0),
        name,
        sig: callee,
        kind: MethodKind::Static,
    });
    let a = node(&mut store, CILNode::Const(Const::I64(1)));
    let call = node(&mut store, CILNode::Call(m, vec![a], false));
    assert_eq!(
        check(&store, call),
        Err(TypeCheckError::CallArgTypeWrong {
            got: Type::Int(Int::I64),
            expected: Type::Int(Int::I32),
            idx: 0,
            mname: name
        })
    );
}

#[test]
fn indirect_call_through_byte_pointer() {
    let mut store = Assembly::default();
    empty_sig(&mut store);
    let u8_ptr = store.nptr(Type::Int(Int::U8));
    let Type::Ptr(u8_idx) = u8_ptr else { unreachable!() };
    let addr = node(&mut store, CILNode::LocAllocAlgined { tpe: u8_idx, align: 1 });
    for called in [store.sig(vec![], Type::Void), store.sig(vec![], Type::Int(Int::I32))] {
        let call = node(&mut store, CILNode::CallI(addr, called, vec![]));
        assert_eq!(
            check(&store, call),
            Err(TypeCheckError::IndirectCallInvalidFnPtrType { fn_ptr: u8_ptr })
        );
    }
}

#[test]
fn indirect_call_signature_mismatch() {
    let mut store = Assembly::default();
    empty_sig(&mut store);
    let target_sig = store.sig(vec![], Type::Int(Int::I32));
    let other_sig = store.sig(vec![], Type::Int(Int::I64));
    let name = store.alloc_string("g".to_string());
    let m = store.alloc_methodref(MethodRef {
        class: cilly::ClassIdx(0),
        name,
        sig: target_sig,
        kind: MethodKind::Static,
    });
    let ftn = node(&mut store, CILNode::LdFtn(m));
    let ok = node(&mut store, CILNode::CallI(ftn, target_sig, vec![]));
    assert_eq!(check(&store, ok), Ok(Type::Int(Int::I32)));
    let bad = node(&mut store, CILNode::CallI(ftn, other_sig, vec![]));
    assert_eq!(
        check(&store, bad),
        Err(TypeCheckError::IndirectCallInvalidFnPtrSig { expected: other_sig, got: target_sig })
    );
    let extra = node(&mut store, CILNode::Const(Const::I32(0)));
    let argc = node(&mut store, CILNode::CallI(ftn, target_sig, vec![extra]));
    assert_eq!(
        check(&store, argc),
        Err(TypeCheckError::IndirectCallArgcWrong { expected: 0, got: 1 })
    );
}

#[test]
fn field_owner_mismatch_names_both_owners() {
    let mut store = Assembly::default();
    let a = value_class(&mut store, "A");
    let b = value_class(&mut store, "B");
    let name = store.alloc_string("x".to_string());
    let fld = FieldDesc { owner: b, name, tpe: Type::Int(Int::I32) };
    let f = store.alloc_field(fld);
    let a_ptr = store.nptr(Type::ClassRef(a));
    let Type::Ptr(a_idx) = a_ptr else { unreachable!() };
    let local_ty = store.alloc_type(a_ptr);
    let sig = store.sig(vec![], Type::Void);
    let _ = a_idx;
    let base = node(&mut store, CILNode::LdLoc(0));
    let load = node(&mut store, CILNode::LdField { addr: base, field: f });
    let locals: Vec<LocalDef> = vec![(None, local_ty)];
    assert_eq!(
        typecheck_node(load, sig, &locals, &store),
        Err(TypeCheckError::FieldOwnerMismatch { owner: a, expected_owner: b, field: fld })
    );
}

#[test]
fn field_access_checks_the_class_definition() {
    let mut store = Assembly::default();
    let c = value_class(&mut store, "Pair");
    let x = store.alloc_string("x".to_string());
    let y = store.alloc_string("y".to_string());
    store.class_def(ClassDef { cref: c, fields: vec![(Type::Int(Int::I32), x, Some(0))] });
    let fx = store.alloc_field(FieldDesc { owner: c, name: x, tpe: Type::Int(Int::I32) });
    let fy = store.alloc_field(FieldDesc { owner: c, name: y, tpe: Type::Int(Int::I32) });
    let ptr = store.nptr(Type::ClassRef(c));
    let local_ty = store.alloc_type(ptr);
    let sig = store.sig(vec![], Type::Void);
    let locals: Vec<LocalDef> = vec![(None, local_ty)];
    let base = node(&mut store, CILNode::LdLoc(0));
    let ld_x = node(&mut store, CILNode::LdField { addr: base, field: fx });
    let ld_y = node(&mut store, CILNode::LdField { addr: base, field: fy });
    let addr_x = node(&mut store, CILNode::LdFieldAddress { addr: base, field: fx });
    assert_eq!(typecheck_node(ld_x, sig, &locals, &store), Ok(Type::Int(Int::I32)));
    assert_eq!(
        typecheck_node(ld_y, sig, &locals, &store),
        Err(TypeCheckError::FieldNotPresent { tpe: Type::Int(Int::I32), name: y, owner: c })
    );
    let i32_ptr = store.nptr(Type::Int(Int::I32));
    assert_eq!(typecheck_node(addr_x, sig, &locals, &store), Ok(i32_ptr));
    let int_base = node(&mut store, CILNode::Const(Const::I32(0)));
    let bad = node(&mut store, CILNode::LdField { addr: int_base, field: fx });
    assert_eq!(
        typecheck_node(bad, sig, &locals, &store),
        Err(TypeCheckError::TypeNotPtr { tpe: Type::Int(Int::I32) })
    );
}

#[test]
fn size_of_void_and_others() {
    let mut store = Assembly::default();
    empty_sig(&mut store);
    let void = store.alloc_type(Type::Void);
    let n = node(&mut store, CILNode::SizeOf(void));
    assert_eq!(check(&store, n), Err(TypeCheckError::SizeOfVoid));
    for t in [Type::Bool, Type::Int(Int::I128), Type::Float(Float::F32), Type::PlatformObject] {
        let h = store.alloc_type(t);
        let n = node(&mut store, CILNode::SizeOf(h));
        assert_eq!(check(&store, n), Ok(Type::Int(Int::I32)));
    }
}

#[test]
fn assignability_is_reflexive() {
    let mut store = Assembly::default();
    let c = value_class(&mut store, "V");
    let p = store.nptr(Type::Int(Int::U8));
    let r = store.nref(Type::Bool);
    let s = store.sig(vec![], Type::Void);
    for t in [
        Type::Void,
        Type::Bool,
        Type::Int(Int::I16),
        Type::Float(Float::F64),
        p,
        r,
        Type::FnPtr(s),
        Type::ClassRef(c),
        Type::PlatformString,
        Type::PlatformObject,
    ] {
        assert!(t.is_assignable_to(t, &store));
    }
    assert!(Type::Bool.is_assignable_to(Type::Int(Int::U8), &store));
    assert!(p.is_assignable_to(Type::Int(Int::USize), &store));
    assert!(Type::PlatformString.is_assignable_to(Type::PlatformObject, &store));
    assert!(!Type::ClassRef(c).is_assignable_to(Type::PlatformObject, &store));
    assert!(!Type::Int(Int::I32).is_assignable_to(Type::Int(Int::I64), &store));
}

#[test]
fn managed_pointer_cast_is_rejected() {
    let mut store = Assembly::default();
    let obj = ref_class(&mut store, "Object");
    let ptr = store.nptr(Type::ClassRef(obj));
    let local_ty = store.alloc_type(ptr);
    let i32_ty = store.alloc_type(Type::Int(Int::I32));
    let sig = store.sig(vec![], Type::Void);
    let locals: Vec<LocalDef> = vec![(None, local_ty)];
    let base = node(&mut store, CILNode::LdLoc(0));
    for res in [PtrCastRes::Ptr(i32_ty), PtrCastRes::USize, PtrCastRes::ISize, PtrCastRes::FnPtr(sig)]
    {
        let cast = node(&mut store, CILNode::PtrCast(base, res));
        assert_eq!(
            typecheck_node(cast, sig, &locals, &store),
            Err(TypeCheckError::ManagedPtrCast { src: ptr, dst: res.as_type() })
        );
    }
}

#[test]
fn pointer_cast_of_plain_pointer() {
    let mut store = Assembly::default();
    empty_sig(&mut store);
    let u8_ty = store.alloc_type(Type::Int(Int::U8));
    let i32_ty = store.alloc_type(Type::Int(Int::I32));
    let addr = node(&mut store, CILNode::LocAllocAlgined { tpe: u8_ty, align: 4 });
    let cast = node(&mut store, CILNode::PtrCast(addr, PtrCastRes::Ptr(i32_ty)));
    assert_eq!(check(&store, cast), Ok(Type::Ptr(i32_ty)));
    let b = node(&mut store, CILNode::Const(Const::Bool(true)));
    let bad = node(&mut store, CILNode::PtrCast(b, PtrCastRes::USize));
    assert_eq!(
        check(&store, bad),
        Err(TypeCheckError::InvalidPtrCast { expected: PtrCastRes::USize, got: Type::Bool })
    );
}

#[test]
fn unary_and_cast_rules() {
    let mut store = Assembly::default();
    empty_sig(&mut store);
    let u = node(&mut store, CILNode::Const(Const::U32(3)));
    let neg = node(&mut store, CILNode::UnOp(u, UnOp::Neg));
    assert_eq!(
        check(&store, neg),
        Err(TypeCheckError::WrongUnOpArgs { tpe: Type::Int(Int::U32), op: UnOp::Neg })
    );
    let not = node(&mut store, CILNode::UnOp(u, UnOp::Not));
    assert_eq!(check(&store, not), Ok(Type::Int(Int::U32)));
    let b = node(&mut store, CILNode::Const(Const::Bool(false)));
    let cast = node(&mut store, CILNode::IntCast { input: b, target: Int::I64, extend: ExtendKind::ZeroExtend });
    assert_eq!(check(&store, cast), Ok(Type::Int(Int::I64)));
    let fcast = node(&mut store, CILNode::FloatCast { input: b, target: Float::F32, is_signed: false });
    assert_eq!(
        check(&store, fcast),
        Err(TypeCheckError::FloatCastInvalidInput { got: Type::Bool, target: Float::F32 })
    );
    let to_ptr = node(&mut store, CILNode::RefToPtr(u));
    assert_eq!(
        check(&store, to_ptr),
        Err(TypeCheckError::RefToPtrArgNotRef { arg: Type::Int(Int::U32) })
    );
}

#[test]
fn operator_tables() {
    let store = Assembly::default();
    let i32t = Type::Int(Int::I32);
    let u32t = Type::Int(Int::U32);
    let f64t = Type::Float(Float::F64);
    assert_eq!(BinOp::Mul.typecheck(Type::Int(Int::USize), i32t, &store), Ok(Type::Int(Int::USize)));
    assert_eq!(BinOp::Mul.typecheck(Type::Int(Int::ISize), i32t, &store), Ok(Type::Int(Int::ISize)));
    assert_eq!(BinOp::Rem.typecheck(f64t, f64t, &store), Ok(Type::Bool));
    assert_eq!(BinOp::Rem.typecheck(i32t, i32t, &store), Ok(i32t));
    assert_eq!(BinOp::RemUn.typecheck(u32t, u32t, &store), Ok(u32t));
    assert_eq!(BinOp::Lt.typecheck(f64t, f64t, &store), Ok(Type::Bool));
    assert_eq!(BinOp::And.typecheck(Type::Bool, Type::Bool, &store), Ok(Type::Bool));
    assert_eq!(BinOp::Shl.typecheck(Type::Int(Int::I128), u32t, &store), Ok(Type::Int(Int::I128)));
    assert_eq!(
        BinOp::Shl.typecheck(i32t, Type::Int(Int::U128), &store),
        Err(TypeCheckError::WrongBinopArgs { lhs: i32t, rhs: Type::Int(Int::U128), op: BinOp::Shl })
    );
    assert_eq!(BinOp::Shr.typecheck(i32t, u32t, &store), Ok(i32t));
    assert_eq!(
        BinOp::Shr.typecheck(u32t, i32t, &store),
        Err(TypeCheckError::WrongBinopArgs { lhs: u32t, rhs: i32t, op: BinOp::Shr })
    );
    assert_eq!(BinOp::ShrUn.typecheck(u32t, i32t, &store), Ok(u32t));
    assert_eq!(BinOp::DivUn.typecheck(u32t, u32t, &store), Ok(u32t));
    assert_eq!(BinOp::Div.typecheck(f64t, f64t, &store), Ok(f64t));
    assert_eq!(
        BinOp::Div.typecheck(i32t, f64t, &store),
        Err(TypeCheckError::WrongBinopArgs { lhs: i32t, rhs: f64t, op: BinOp::Div })
    );
    assert_eq!(BinOp::Or.typecheck(Type::Bool, Type::Int(Int::U8), &store), Ok(Type::Int(Int::U8)));
}

#[test]
fn arrays_and_unboxing() {
    let mut store = Assembly::default();
    let i32_ty = store.alloc_type(Type::Int(Int::I32));
    let arr1 = Type::PlatformArray { elem: i32_ty, dims: 1 };
    let arr2 = Type::PlatformArray { elem: i32_ty, dims: 2 };
    let a1 = store.alloc_type(arr1);
    let a2 = store.alloc_type(arr2);
    let v = value_class(&mut store, "V");
    let vt = store.alloc_type(Type::ClassRef(v));
    let sig = store.sig(vec![arr1, arr2, Type::ClassRef(v)], Type::Void);
    let locals: Vec<LocalDef> = vec![(None, a1), (None, a2), (None, vt)];
    let l0 = node(&mut store, CILNode::LdArg(0));
    let l1 = node(&mut store, CILNode::LdArg(1));
    let l2 = node(&mut store, CILNode::LdArg(2));
    let idx = node(&mut store, CILNode::Const(Const::I32(0)));
    let bidx = node(&mut store, CILNode::Const(Const::Bool(true)));
    let len1 = node(&mut store, CILNode::LdLen(l0));
    let len2 = node(&mut store, CILNode::LdLen(l1));
    let len3 = node(&mut store, CILNode::LdLen(idx));
    let el = node(&mut store, CILNode::LdElelemRef { array: l0, index: idx });
    let bad_el = node(&mut store, CILNode::LdElelemRef { array: l0, index: bidx });
    let unbox = node(&mut store, CILNode::UnboxAny { object: l2, tpe: i32_ty });
    let unbox_int = node(&mut store, CILNode::UnboxAny { object: idx, tpe: i32_ty });
    let loc_oob = node(&mut store, CILNode::LdLoc(7));
    let arg_oob = node(&mut store, CILNode::LdArg(3));
    let t = |n| typecheck_node(n, sig, &locals, &store);
    assert_eq!(t(len1), Ok(Type::Int(Int::I32)));
    assert_eq!(t(len2), Err(TypeCheckError::LdLenArrNot1D { got: arr2 }));
    assert_eq!(t(len3), Err(TypeCheckError::LdLenArgNotArray { got: Type::Int(Int::I32) }));
    assert_eq!(t(el), Ok(Type::Int(Int::I32)));
    assert_eq!(t(bad_el), Err(TypeCheckError::ArrIndexInvalidType { index_tpe: Type::Bool }));
    assert_eq!(
        t(unbox),
        Err(TypeCheckError::ExpectedClassGotValuetype { cref: store.class_ref(v) })
    );
    assert_eq!(t(unbox_int), Err(TypeCheckError::TypeNotClass { object: Type::Int(Int::I32) }));
    assert_eq!(t(loc_oob), Err(TypeCheckError::LocalOutOfRange { loc: 7 }));
    assert_eq!(t(arg_oob), Err(TypeCheckError::ArgOutOfRange { arg: 3 }));
}

#[test]
fn load_indirect_and_addresses() {
    let mut store = Assembly::default();
    let i64_ty = store.alloc_type(Type::Int(Int::I64));
    let i32_ty = store.alloc_type(Type::Int(Int::I32));
    let sig = store.sig(vec![Type::Int(Int::I64)], Type::Void);
    let locals: Vec<LocalDef> = vec![(None, i64_ty)];
    let la = node(&mut store, CILNode::LdLocA(0));
    let aa = node(&mut store, CILNode::LdArgA(0));
    let ld = node(&mut store, CILNode::LdInd { addr: la, tpe: i64_ty, volatile: false });
    let bad = node(&mut store, CILNode::LdInd { addr: la, tpe: i32_ty, volatile: false });
    let c = node(&mut store, CILNode::Const(Const::I64(0)));
    let not_ptr = node(&mut store, CILNode::LdInd { addr: c, tpe: i64_ty, volatile: false });
    let alloc = node(&mut store, CILNode::LocAlloc { size: c });
    let t = |n| typecheck_node(n, sig, &locals, &store);
    assert_eq!(t(la), Ok(Type::Ref(i64_ty)));
    assert_eq!(t(aa), Ok(Type::Ref(i64_ty)));
    assert_eq!(t(ld), Ok(Type::Int(Int::I64)));
    assert_eq!(
        t(bad),
        Err(TypeCheckError::DerfWrongPtr { expected: Type::Int(Int::I32), got: Type::Int(Int::I64) })
    );
    assert_eq!(t(not_ptr), Err(TypeCheckError::TypeNotPtr { tpe: Type::Int(Int::I64) }));
    let u8_ptr = store.nptr(Type::Int(Int::U8));
    assert_eq!(typecheck_node(alloc, sig, &locals, &store), Ok(u8_ptr));
}

#[test]
fn statements() {
    let mut store = Assembly::default();
    let i32_ty = store.alloc_type(Type::Int(Int::I32));
    let v = value_class(&mut store, "V");
    let v_ty = store.alloc_type(Type::ClassRef(v));
    let sig = store.sig(vec![], Type::Void);
    let locals: Vec<LocalDef> = vec![(None, i32_ty), (None, v_ty)];
    let one = node(&mut store, CILNode::Const(Const::I32(1)));
    let big = node(&mut store, CILNode::Const(Const::I64(1)));
    let fl = node(&mut store, CILNode::Const(Const::F32(1.0f32.to_bits())));
    let vloc = node(&mut store, CILNode::LdLoc(1));
    let la = node(&mut store, CILNode::LdLocA(0));
    let roots = [
        CILRoot::StLoc(0, one),
        CILRoot::StLoc(0, big),
        CILRoot::Branch(0, 0, Some(BranchCond::True(fl))),
        CILRoot::Branch(0, 0, Some(BranchCond::Lt(one, one, CmpKind::Signed))),
        CILRoot::Branch(0, 0, Some(BranchCond::Eq(vloc, vloc))),
        CILRoot::Branch(0, 0, None),
        CILRoot::StInd(la, one, Type::Int(Int::U32), false),
        CILRoot::StInd(la, big, Type::Int(Int::I32), false),
        CILRoot::StInd(one, one, Type::Int(Int::I32), false),
        CILRoot::Pop(big),
        CILRoot::StLoc(5, one),
    ];
    let expected = [
        Ok(()),
        Err(TypeCheckError::LocalAssigementWrong {
            loc: 0,
            got: Type::Int(Int::I64),
            expected: Type::Int(Int::I32),
        }),
        Err(TypeCheckError::ConditionNotBool { cond: Type::Float(Float::F32) }),
        Ok(()),
        Err(TypeCheckError::CantCompareTypes { lhs: Type::ClassRef(v), rhs: Type::ClassRef(v) }),
        Ok(()),
        Ok(()),
        Err(TypeCheckError::WriteWrongValue { tpe: Type::Int(Int::I32), value: Type::Int(Int::I64) }),
        Err(TypeCheckError::WriteWrongAddr { addr: Type::Int(Int::I32), tpe: Type::Int(Int::I32) }),
        Ok(()),
        Err(TypeCheckError::LocalOutOfRange { loc: 5 }),
    ];
    for (root, want) in roots.into_iter().zip(expected) {
        let r = store.alloc_root(root);
        assert_eq!(typecheck_root(r, sig, &locals, &store), want);
    }
}

#[test]
fn field_store_statement() {
    let mut store = Assembly::default();
    let c = value_class(&mut store, "S");
    let x = store.alloc_string("x".to_string());
    let f = store.alloc_field(FieldDesc { owner: c, name: x, tpe: Type::Int(Int::I32) });
    let ptr = store.nptr(Type::ClassRef(c));
    let p_ty = store.alloc_type(ptr);
    let sig = store.sig(vec![], Type::Void);
    let locals: Vec<LocalDef> = vec![(None, p_ty)];
    let base = node(&mut store, CILNode::LdLoc(0));
    let one = node(&mut store, CILNode::Const(Const::I32(1)));
    let wide = node(&mut store, CILNode::Const(Const::I64(1)));
    let good = store.alloc_root(CILRoot::SetField(f, base, one));
    let bad = store.alloc_root(CILRoot::SetField(f, base, wide));
    assert_eq!(typecheck_root(good, sig, &locals, &store), Ok(()));
    assert_eq!(
        typecheck_root(bad, sig, &locals, &store),
        Err(TypeCheckError::FieldAssignWrongType {
            field_tpe: Type::Int(Int::I32),
            fld: f,
            val: Type::Int(Int::I64)
        })
    );
}

#[test]
fn well_known_nodes() {
    let mut store = Assembly::default();
    empty_sig(&mut store);
    let exc = node(&mut store, CILNode::GetException);
    let tok_ty = store.alloc_type(Type::Bool);
    let tok = node(&mut store, CILNode::LdTypeToken(tok_ty));
    let exc_class = store.class_ref(cilly::ClassIdx(0));
    assert_eq!(store.get_string(exc_class.name), "System.Exception");
    assert_eq!(check(&store, exc), Ok(Type::ClassRef(cilly::ClassIdx(0))));
    assert_eq!(check(&store, tok), Ok(Type::ClassRef(cilly::ClassIdx(1))));
}

#[test]
fn checked_statement_graph_has_no_error() {
    let mut store = Assembly::default();
    let i32_ty = store.alloc_type(Type::Int(Int::I32));
    let sig = store.sig(vec![Type::Int(Int::I32)], Type::Void);
    let locals: Vec<LocalDef> = vec![(None, i32_ty)];
    let arg = node(&mut store, CILNode::LdArg(0));
    let one = node(&mut store, CILNode::Const(Const::I32(1)));
    let sum = node(&mut store, CILNode::BinOp(arg, one, BinOp::Add));
    let twice = node(&mut store, CILNode::BinOp(sum, sum, BinOp::Mul));
    let r = store.alloc_root(CILRoot::StLoc(0, twice));
    let graph = cilly::diagnostic_graph(r, sig, &locals, &store);
    assert_eq!(graph.result, Ok(()));
    assert_eq!(graph.root_children, vec![twice]);
    // the shared operand `sum` appears once
    assert_eq!(graph.nodes.len(), 4);
    assert!(graph.nodes.iter().all(|e| e.result.is_ok()));
    let ids: Vec<u32> = graph.nodes.iter().map(|e| e.id.0).collect();
    assert_eq!(ids, vec![twice.0, sum.0, arg.0, one.0]);
}

#[test]
fn failed_statement_graph_marks_the_error() {
    let mut store = Assembly::default();
    let i32_ty = store.alloc_type(Type::Int(Int::I32));
    let sig = store.sig(vec![], Type::Void);
    let locals: Vec<LocalDef> = vec![(None, i32_ty)];
    let a = node(&mut store, CILNode::Const(Const::I32(1)));
    let b = node(&mut store, CILNode::Const(Const::Bool(true)));
    let bad = node(&mut store, CILNode::BinOp(a, b, BinOp::Sub));
    let r = store.alloc_root(CILRoot::Pop(bad));
    let graph = cilly::diagnostic_graph(r, sig, &locals, &store);
    let err = TypeCheckError::WrongBinopArgs { lhs: Type::Int(Int::I32), rhs: Type::Bool, op: BinOp::Sub };
    assert_eq!(graph.result, Err(err));
    assert_eq!(graph.nodes.len(), 3);
    assert_eq!(graph.nodes[0].result, Err(err));
    assert_eq!(graph.nodes[1].result, Ok(Type::Int(Int::I32)));
    assert_eq!(graph.nodes[2].result, Ok(Type::Bool));
}

#[test]
fn equal_entities_share_a_handle() {
    let mut store = Assembly::default();
    let a = store.alloc_node(CILNode::Const(Const::I32(7)));
    let b = store.alloc_node(CILNode::Const(Const::I32(7)));
    let c = store.alloc_node(CILNode::Const(Const::I32(8)));
    assert_eq!(a, b);
    assert_ne!(a, c);
    let s1 = store.sig(vec![Type::Bool, Type::Int(Int::U16)], Type::Void);
    let s2 = store.sig(vec![Type::Bool, Type::Int(Int::U16)], Type::Void);
    let s3 = store.sig(vec![Type::Int(Int::U16), Type::Bool], Type::Void);
    assert_eq!(s1, s2);
    assert_ne!(s1, s3);
    let t1 = store.alloc_type(Type::Int(Int::I64));
    let t2 = store.alloc_type(Type::Int(Int::I64));
    assert_eq!(t1, t2);
    let u8_first = store.alloc_type(Type::Int(Int::U8));
    assert_eq!(u8_first.0, 0);
    let n1 = store.biop(CILNode::Const(Const::I32(7)), CILNode::Const(Const::I32(8)), BinOp::Add);
    let n2 = store.alloc_node(CILNode::BinOp(a, c, BinOp::Add));
    assert_eq!(n1, n2);
    let name = store.alloc_string("f".to_string());
    let m = store.alloc_methodref(MethodRef { class: cilly::ClassIdx(0), name, sig: s1, kind: MethodKind::Static });
    let call1 = store.alloc_node(CILNode::Call(m, vec![a, c], false));
    let call2 = store.alloc_node(CILNode::Call(m, vec![a, c], false));
    let call3 = store.alloc_node(CILNode::Call(m, vec![c, a], false));
    assert_eq!(call1, call2);
    assert_ne!(call1, call3);
    let r1 = store.alloc_root(CILRoot::Pop(call1));
    let r2 = store.alloc_root(CILRoot::Pop(call2));
    assert_eq!(r1, r2);
    assert_eq!(store.node_count(), 5);
}

#[test]
fn remaining_error_variants() {
    let mut store = Assembly::default();
    let c = value_class(&mut store, "C");
    let x = store.alloc_string("x".to_string());
    let fld = FieldDesc { owner: c, name: x, tpe: Type::Int(Int::I32) };
    let f = store.alloc_field(fld);
    let int_ptr = store.nptr(Type::Int(Int::I32));
    let int_ptr_ty = store.alloc_type(int_ptr);
    let c_ty = store.alloc_type(Type::ClassRef(c));
    let c_ref = store.nref(Type::ClassRef(c));
    let c_ref_ty = store.alloc_type(c_ref);
    let callee = store.sig(vec![Type::Int(Int::I64)], Type::Void);
    let sig = store.sig(vec![], Type::Void);
    let locals: Vec<LocalDef> = vec![(None, int_ptr_ty), (None, c_ty), (None, c_ref_ty)];
    let p = node(&mut store, CILNode::LdLoc(0));
    let inst = node(&mut store, CILNode::LdLoc(1));
    let r = node(&mut store, CILNode::LdLoc(2));
    let through_int = node(&mut store, CILNode::LdField { addr: p, field: f });
    let addr_of_value = node(&mut store, CILNode::LdFieldAddress { addr: inst, field: f });
    let load_of_value = node(&mut store, CILNode::LdField { addr: inst, field: f });
    let addr_through_ref = node(&mut store, CILNode::LdFieldAddress { addr: r, field: f });
    let i32_ref = store.nref(Type::Int(Int::I32));
    let t = |n| typecheck_node(n, sig, &locals, &store);
    assert_eq!(
        t(through_int),
        Err(TypeCheckError::FieldAccessInvalidType { tpe: Type::Int(Int::I32), field: fld })
    );
    assert_eq!(t(addr_of_value), Err(TypeCheckError::TypeNotPtr { tpe: Type::ClassRef(c) }));
    assert_eq!(t(load_of_value), Ok(Type::Int(Int::I32)));
    assert_eq!(t(addr_through_ref), Ok(i32_ref));

    let name = store.alloc_string("h".to_string());
    let m = store.alloc_methodref(MethodRef { class: c, name, sig: callee, kind: MethodKind::Instance });
    let b = node(&mut store, CILNode::Const(Const::Bool(true)));
    let fl = node(&mut store, CILNode::Const(Const::F64(2.5f64.to_bits())));
    let ftn = node(&mut store, CILNode::LdFtn(m));
    let calli = node(&mut store, CILNode::CallI(ftn, callee, vec![b]));
    let cast = node(&mut store, CILNode::IntCast { input: inst, target: Int::U8, extend: ExtendKind::SignExtend });
    let fcast = node(&mut store, CILNode::FloatCast { input: fl, target: Float::F32, is_signed: true });
    let t = |n| typecheck_node(n, sig, &locals, &store);
    assert_eq!(
        t(calli),
        Err(TypeCheckError::IndirectCallArgTypeWrong {
            got: Type::Bool,
            expected: Type::Int(Int::I64),
            idx: 0
        })
    );
    assert_eq!(
        t(cast),
        Err(TypeCheckError::IntCastInvalidInput { got: Type::ClassRef(c), target: Int::U8 })
    );
    assert_eq!(t(fcast), Ok(Type::Float(Float::F32)));

    // an instance call statement does not count the receiver, and checks the
    // arguments it has against the parameters in order
    let short = store.alloc_root(CILRoot::Call(m, vec![], false));
    let wrong = store.alloc_root(CILRoot::Call(m, vec![b], false));
    assert_eq!(typecheck_root(short, sig, &locals, &store), Ok(()));
    assert_eq!(
        typecheck_root(wrong, sig, &locals, &store),
        Err(TypeCheckError::CallArgTypeWrong {
            got: Type::Bool,
            expected: Type::Int(Int::I64),
            idx: 0,
            mname: name
        })
    );
}

#[test]
fn methods_check_values_outside_the_store() {
    let mut store = Assembly::default();
    let i16_ty = store.alloc_type(Type::Int(Int::I16));
    let sig = store.sig(vec![Type::Int(Int::I16)], Type::Int(Int::I16));
    let locals: Vec<LocalDef> = vec![(None, i16_ty)];
    let arg = node(&mut store, CILNode::LdArg(0));
    let neg = CILNode::UnOp(arg, UnOp::Neg);
    assert_eq!(neg.typecheck(sig, &locals, &store), Ok(Type::Int(Int::I16)));
    let shl = CILNode::BinOp(arg, arg, BinOp::Shl);
    assert_eq!(shl.typecheck(sig, &locals, &store), Ok(Type::Int(Int::I16)));
    let store_local = CILRoot::StLoc(0, arg);
    assert_eq!(store_local.typecheck(sig, &locals, &store), Ok(()));
    let ret = CILRoot::Ret(arg);
    assert_eq!(ret.typecheck(sig, &locals, &store), Ok(()));
}

#[test]
fn fallbacks_accept_assignability_either_way() {
    let mut store = Assembly::default();
    let obj = ref_class(&mut store, "Node");
    let v = value_class(&mut store, "V");
    let r = Type::ClassRef(obj);
    let o = Type::PlatformObject;
    assert_eq!(BinOp::Eq.typecheck(o, r, &store), Ok(Type::Bool));
    assert_eq!(BinOp::Eq.typecheck(r, o, &store), Ok(Type::Bool));
    let vt = Type::ClassRef(v);
    assert_eq!(
        BinOp::Eq.typecheck(vt, o, &store),
        Err(TypeCheckError::WrongBinopArgs { lhs: vt, rhs: o, op: BinOp::Eq })
    );
    let i8t = Type::Int(Int::I8);
    assert_eq!(BinOp::Add.typecheck(i8t, Type::Bool, &store), Ok(i8t));
    assert_eq!(BinOp::Add.typecheck(Type::Bool, i8t, &store), Ok(i8t));
    assert_eq!(BinOp::Mul.typecheck(Type::Bool, i8t, &store), Ok(i8t));
}

#[test]
fn mul_of_pointers_is_rejected() {
    let mut store = Assembly::default();
    let p = store.nptr(Type::Int(Int::I32));
    assert_eq!(
        BinOp::Mul.typecheck(p, p, &store),
        Err(TypeCheckError::WrongBinopArgs { lhs: p, rhs: p, op: BinOp::Mul })
    );
    assert_eq!(BinOp::Mul.typecheck(Type::Int(Int::USize), p, &store), Ok(p));
    assert_eq!(BinOp::Mul.typecheck(p, Type::Int(Int::USize), &store), Ok(Type::Int(Int::USize)));
}
