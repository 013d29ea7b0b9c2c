use fsharp_definitions::model::{VariantDef, VariantKind};
use fsharp_definitions::types::SrcType;
use fsharp_definitions::wire::{encode_variant, wire_matches, InstData, VariantInstance, WireValue};

fn named(n: &str) -> SrcType {
    SrcType::Named(n.to_string(), Vec::new())
}

fn variant(name: &str, kind: VariantKind) -> VariantDef {
    VariantDef { name: name.to_string(), annots: Vec::new(), kind }
}

#[test]
fn unit_variant_round_trips() {
    let vd = variant("Idle", VariantKind::Unit);
    let w = encode_variant(VariantInstance { tag: "Idle".to_string(), data: InstData::Unit });
    assert!(wire_matches(&w, &vd));
    match &w {
        WireValue::Str(s) => assert_eq!(s, "Idle"),
        _ => panic!("a unit variant encodes as a bare string"),
    }
}

#[test]
fn single_tuple_variant_round_trips() {
    let vd = variant("Render", VariantKind::Tuple(vec![named("String")]));
    let w = encode_variant(VariantInstance {
        tag: "Render".to_string(),
        data: InstData::Single(WireValue::Str("stuff".to_string())),
    });
    assert!(wire_matches(&w, &vd));
}

#[test]
fn multi_tuple_variant_round_trips() {
    let vd = variant("Move", VariantKind::Tuple(vec![named("i64"), named("i64")]));
    let w = encode_variant(VariantInstance {
        tag: "Move".to_string(),
        data: InstData::Tuple(vec![WireValue::Num(3), WireValue::Num(4)]),
    });
    assert!(wire_matches(&w, &vd));
}

#[test]
fn struct_variant_round_trips() {
    let vd = variant(
        "ButtonState",
        VariantKind::Struct(vec![
            ("selected".to_string(), named("String")),
            ("time".to_string(), named("i64")),
        ]),
    );
    let w = encode_variant(VariantInstance {
        tag: "ButtonState".to_string(),
        data: InstData::Struct(vec![
            ("selected".to_string(), WireValue::Str("a".to_string())),
            ("time".to_string(), WireValue::Num(33)),
        ]),
    });
    assert!(wire_matches(&w, &vd));
}

#[test]
fn unit_variant_also_accepts_keyed_null() {
    let vd = variant("Idle", VariantKind::Unit);
    let w = WireValue::Obj(vec![("Idle".to_string(), WireValue::Null)]);
    assert!(wire_matches(&w, &vd));
}

#[test]
fn mismatched_shapes_are_rejected() {
    let unit = variant("Idle", VariantKind::Unit);
    let wrong_tag = encode_variant(VariantInstance {
        tag: "Busy".to_string(),
        data: InstData::Unit,
    });
    assert!(!wire_matches(&wrong_tag, &unit));

    let pair = variant("Move", VariantKind::Tuple(vec![named("i64"), named("i64")]));
    let short = encode_variant(VariantInstance {
        tag: "Move".to_string(),
        data: InstData::Tuple(vec![WireValue::Num(3)]),
    });
    assert!(!wire_matches(&short, &pair));

    let record = variant(
        "ButtonState",
        VariantKind::Struct(vec![("time".to_string(), named("i64"))]),
    );
    let misnamed = encode_variant(VariantInstance {
        tag: "ButtonState".to_string(),
        data: InstData::Struct(vec![("when".to_string(), WireValue::Num(1))]),
    });
    assert!(!wire_matches(&misnamed, &record));
}
