use lib::ast::{Type};
use lib::intrinsic::{
    build_const_table, build_fn_table, get_constant, get_intrinsic, is_intrinsic, IntrinsicConst, IntrinsicFn,
    IntrinsicKind,
};

#[test]
fn names_resolve_to_functions() {
    assert_eq!(IntrinsicFn::from_str("print"), Some(IntrinsicFn::Print));
    assert_eq!(IntrinsicFn::from_str("tensor.while_loop"), Some(IntrinsicFn::TensorWhileLoop));
    assert_eq!(IntrinsicFn::from_str("Print"), None);
    assert_eq!(IntrinsicConst::from_str("i128::MAX"), Some(IntrinsicConst::I128Max));
    assert_eq!(IntrinsicConst::from_str("print"), None);
}

#[test]
fn every_function_has_its_own_position() {
    let all = IntrinsicFn::all();
    assert_eq!(all.len(), 14);
    for (i, f) in all.iter().enumerate() {
        assert_eq!(f.index(), i);
    }
    let consts = IntrinsicConst::all();
    for (i, c) in consts.iter().enumerate() {
        assert_eq!(c.index(), i);
    }
}

#[test]
fn tables_have_an_entry_per_name() {
    assert_eq!(build_fn_table().len(), 14);
    assert!(build_fn_table().iter().all(|e| e.is_some()));
    assert_eq!(build_const_table().len(), 14);
}

#[test]
fn function_metadata() {
    let p = get_intrinsic(IntrinsicFn::Print).unwrap();
    assert!(!p.allowed_in_model);
    assert!(!p.requires_unsafe);
    assert_eq!(p.link_name, "xiyi::io::print");
    assert_eq!(p.kind, IntrinsicKind::Function);
    let u = get_intrinsic(IntrinsicFn::FromUtf8Unchecked).unwrap();
    assert!(u.requires_unsafe);
    let c = get_intrinsic(IntrinsicFn::TensorCond).unwrap();
    assert_eq!(c.kind, IntrinsicKind::Special);
    assert!(c.signature.is_none());
}

#[test]
fn only_panic_diverges() {
    for f in IntrinsicFn::all() {
        let i = get_intrinsic(f).unwrap();
        assert_eq!(i.diverges(), f == IntrinsicFn::Panic);
    }
}

#[test]
fn constant_metadata() {
    let k = get_constant(IntrinsicConst::U8Max).unwrap();
    assert_eq!(k.name, "u8::MAX");
    assert_eq!(k.ty, Type::U8);
    assert!(!k.has_known_value());
    let n = get_constant(IntrinsicConst::F64Nan).unwrap();
    assert_eq!(n.doc, "NaN for f64");
}

#[test]
fn is_intrinsic_knows_functions_and_constants() {
    assert!(is_intrinsic("relu"));
    assert!(is_intrinsic("u64::MAX"));
    assert!(!is_intrinsic("relu2"));
}
