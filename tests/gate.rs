use murrelet_model::conf::{
    CustomConf, CustomConfF32, CustomConfStruct, CustomConfVec, CustomKeyValue, DrawingConf,
    GateError,
};
use murrelet_model::model::{parse_hints, Hints, MurreletModel};
use murrelet_model::schema::{Primitive, Schema};

fn num(x: f32) -> CustomConf {
    CustomConf::F32(CustomConfF32(x.to_bits()))
}

fn list(items: Vec<CustomConf>) -> CustomConf {
    CustomConf::Vec(CustomConfVec(items))
}

fn record(fields: Vec<(&str, CustomConf)>) -> CustomConf {
    CustomConf::Struct(CustomConfStruct(
        fields
            .into_iter()
            .map(|(k, v)| CustomKeyValue { key: k.to_string(), value: v })
            .collect(),
    ))
}

fn drawing(data: CustomConf) -> DrawingConf {
    DrawingConf { data }
}

fn shape(c: &DrawingConf) -> Schema {
    c.to_schema().expect("shape")
}

fn model_of(c: DrawingConf) -> MurreletModel {
    let r = MurreletModel::new(Ok(c));
    assert!(!r.is_err());
    r.to_model()
}

fn no_hints() -> Hints {
    Vec::new()
}

#[test]
fn scalar_derives_a_number() {
    let s = num(3.5).to_schema().unwrap();
    assert!(s.equal(&Schema::Val(Primitive::Num)));
    assert!(!s.equal(&Schema::Val(Primitive::Labeled("color".to_string()))));
}

#[test]
fn list_shape_comes_from_first_element() {
    let s = list(vec![num(1.0), record(vec![("a", num(2.0))])]).to_schema().unwrap();
    assert!(s.equal(&Schema::List(Box::new(Schema::Val(Primitive::Num)))));
}

#[test]
fn empty_list_is_rejected() {
    assert_eq!(list(vec![]).to_schema().unwrap_err(), GateError::EmptyList);
    let nested = record(vec![("a", num(1.0)), ("b", list(vec![list(vec![])]))]);
    assert_eq!(nested.to_schema().unwrap_err(), GateError::EmptyList);
}

#[test]
fn struct_shape_ignores_field_order() {
    let a = record(vec![("a", num(1.0)), ("b", list(vec![num(2.0)]))]).to_schema().unwrap();
    let b = record(vec![("b", list(vec![num(5.0), num(6.0)])), ("a", num(9.0))]).to_schema().unwrap();
    assert!(a.equal(&b));
    assert!(b.equal(&a));
}

#[test]
fn struct_schema_is_tagged_and_keyed() {
    let s = record(vec![("x", num(1.0))]).to_schema().unwrap();
    let expected = Schema::Struct(
        "struct".to_string(),
        vec![("x".to_string(), Schema::Val(Primitive::Num))],
    );
    assert!(s.equal(&expected));
    let other_tag = Schema::Struct(
        "other".to_string(),
        vec![("x".to_string(), Schema::Val(Primitive::Num))],
    );
    assert!(!s.equal(&other_tag));
}

#[test]
fn later_duplicate_key_overrides() {
    let s = record(vec![("a", num(1.0)), ("a", list(vec![num(2.0)]))]).to_schema().unwrap();
    let expected = record(vec![("a", list(vec![num(7.0)]))]).to_schema().unwrap();
    assert!(s.equal(&expected));
}

#[test]
fn derivation_is_deterministic() {
    let v = record(vec![("a", list(vec![record(vec![("b", num(1.0))])])), ("c", num(2.0))]);
    let s1 = v.to_schema().unwrap();
    let s2 = v.to_schema().unwrap();
    assert!(s1.equal(&s2));
}

#[test]
fn scalar_values_do_not_change_shape() {
    let a = record(vec![("a", num(1.0))]).to_schema().unwrap();
    let b = record(vec![("a", num(99.0))]).to_schema().unwrap();
    assert!(a.equal(&b));
    let la = list(vec![num(1.0)]).to_schema().unwrap();
    let lb = list(vec![num(4.0), num(5.0), num(6.0)]).to_schema().unwrap();
    assert!(la.equal(&lb));
}

#[test]
fn shape_differences_are_detected() {
    let ab = record(vec![("a", num(1.0)), ("b", num(1.0))]).to_schema().unwrap();
    let a = record(vec![("a", num(1.0))]).to_schema().unwrap();
    assert!(!ab.equal(&a));
    assert!(!a.equal(&ab));
    let l = list(vec![num(1.0)]).to_schema().unwrap();
    assert!(!l.equal(&a));
    let ln = list(vec![record(vec![("a", num(1.0))])]).to_schema().unwrap();
    assert!(!l.equal(&ln));
    let ac = record(vec![("c", num(1.0))]).to_schema().unwrap();
    assert!(!a.equal(&ac));
    let al = record(vec![("a", list(vec![num(1.0)]))]).to_schema().unwrap();
    assert!(!a.equal(&al));
}

#[test]
fn construction_failure_carries_message() {
    let r = MurreletModel::new(Err("unexpected token".to_string()));
    assert!(r.is_err());
    assert_eq!(r.err_msg(), "unexpected token");
}

#[test]
fn gate_is_open_before_establishment() {
    let mut m = model_of(drawing(record(vec![("x", num(1.0))])));
    assert!(m.committed_schema().is_none());
    let candidate = drawing(list(vec![num(1.0), num(2.0)]));
    let refined = Ok(shape(&candidate));
    assert_eq!(m.update_config(Ok(candidate), refined), Ok(()));
    assert!(shape(m.conf()).equal(&Schema::List(Box::new(Schema::Val(Primitive::Num)))));
}

#[test]
fn gate_rejects_new_shape_after_establishment() {
    let mut m = model_of(drawing(record(vec![("x", num(1.0))])));
    let refined = Ok(shape(m.conf()));
    assert_eq!(m.update_schema(no_hints(), refined), Ok(()));
    let before = format!("{:?}", m.conf());
    let candidate = drawing(record(vec![("x", num(1.0)), ("y", num(2.0))]));
    let refined = Ok(shape(&candidate));
    assert_eq!(m.update_config(Ok(candidate), refined), Err(GateError::SchemaMismatch));
    assert_eq!(format!("{:?}", m.conf()), before);
}

#[test]
fn gate_accepts_same_shape_after_establishment() {
    let mut m = model_of(drawing(record(vec![("x", num(1.0))])));
    let refined = Ok(shape(m.conf()));
    assert_eq!(m.update_schema(no_hints(), refined), Ok(()));
    let candidate = drawing(record(vec![("x", num(42.0))]));
    let refined = Ok(shape(&candidate));
    assert_eq!(m.update_config(Ok(candidate), refined), Ok(()));
    assert_eq!(format!("{:?}", m.conf()), format!("{:?}", drawing(record(vec![("x", num(42.0))]))));
}

#[test]
fn gate_reports_empty_list_and_hint_errors() {
    let mut m = model_of(drawing(record(vec![("x", num(1.0))])));
    let refined = Ok(shape(m.conf()));
    assert_eq!(m.update_schema(no_hints(), refined), Ok(()));
    let before = format!("{:?}", m.conf());
    let empty = drawing(record(vec![("x", list(vec![]))]));
    assert_eq!(
        m.update_config(Ok(empty), Err("never consulted".to_string())),
        Err(GateError::EmptyList)
    );
    let candidate = drawing(record(vec![("x", num(3.0))]));
    assert_eq!(
        m.update_config(Ok(candidate), Err("no node at x.z".to_string())),
        Err(GateError::Hint("no node at x.z".to_string()))
    );
    assert_eq!(format!("{:?}", m.conf()), before);
}

#[test]
fn parse_error_leaves_live_value() {
    let mut m = model_of(drawing(num(1.0)));
    let before = format!("{:?}", m.conf());
    let r = m.update_config(Err("bad text".to_string()), Err(String::new()));
    assert_eq!(r, Err(GateError::Parse("bad text".to_string())));
    assert_eq!(format!("{:?}", m.conf()), before);
}

#[test]
fn check_schema_passes_everything_before_commit() {
    let m = model_of(drawing(num(1.0)));
    assert_eq!(m.check_schema(&Err("bad text".to_string()), &Err(String::new())), Ok(()));
}

#[test]
fn check_schema_after_commit() {
    let mut m = model_of(drawing(num(1.0)));
    let refined = Ok(shape(m.conf()));
    assert_eq!(m.update_schema(no_hints(), refined), Ok(()));
    assert_eq!(
        m.check_schema(&Err("bad text".to_string()), &Err(String::new())),
        Err(GateError::Parse("bad text".to_string()))
    );
    let same = drawing(num(8.0));
    let refined = Ok(shape(&same));
    assert_eq!(m.check_schema(&Ok(same), &refined), Ok(()));
}

#[test]
fn reestablishing_gives_same_schema() {
    let mut m = model_of(drawing(record(vec![("a", list(vec![num(1.0)]))])));
    let hints: Hints = vec![("a".to_string(), "angle".to_string())];
    assert_eq!(m.update_schema(hints.clone(), Ok(shape(m.conf()))), Ok(()));
    let first = format!("{:?}", m.committed_schema());
    assert_eq!(m.update_schema(hints.clone(), Ok(shape(m.conf()))), Ok(()));
    assert_eq!(format!("{:?}", m.committed_schema()), first);
    assert_eq!(m.committed_hints(), Some(&hints));
}

#[test]
fn hint_failure_keeps_previous_commitment() {
    let mut m = model_of(drawing(record(vec![("x", num(1.0))])));
    let hints: Hints = vec![("x".to_string(), "color".to_string())];
    let refined = Schema::Struct(
        "struct".to_string(),
        vec![("x".to_string(), Schema::Val(Primitive::Labeled("color".to_string())))],
    );
    assert_eq!(m.update_schema(hints.clone(), Ok(refined)), Ok(()));
    let before = format!("{:?}", m.committed_schema());
    let bad: Hints = vec![("nowhere".to_string(), "color".to_string())];
    assert_eq!(
        m.update_schema(bad, Err("unresolved hint path nowhere".to_string())),
        Err(GateError::Hint("unresolved hint path nowhere".to_string()))
    );
    assert_eq!(format!("{:?}", m.committed_schema()), before);
    assert_eq!(m.committed_hints(), Some(&hints));
}

#[test]
fn establishing_on_empty_list_fails() {
    let mut m = model_of(drawing(list(vec![])));
    assert_eq!(
        m.update_schema(no_hints(), Err("not reached".to_string())),
        Err(GateError::EmptyList)
    );
    assert!(m.committed_schema().is_none());
}

#[test]
fn hints_payload_is_decoded() {
    let h = parse_hints("{\"b.c\": \"angle\", \"a\": \"color\"}").unwrap();
    assert_eq!(
        h,
        vec![
            ("a".to_string(), "color".to_string()),
            ("b.c".to_string(), "angle".to_string())
        ]
    );
    assert_eq!(parse_hints("{}").unwrap(), Vec::new());
}

#[test]
fn malformed_hints_payload_is_a_parse_error() {
    assert!(matches!(parse_hints("[1, 2]"), Err(GateError::Parse(_))));
    assert!(matches!(parse_hints("{\"a\": 3}"), Err(GateError::Parse(_))));
    assert!(matches!(parse_hints("not json"), Err(GateError::Parse(_))));
}
