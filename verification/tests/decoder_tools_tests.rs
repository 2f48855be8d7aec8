use cquisitor_lib::plutus::decoder_tools::{
    copy_json, to_json_constant, to_json_plutus_data, to_json_program, to_json_term, to_json_type, BlstFp,
    BlstFp2, BlstP1, BlstP2, Constant, Json, PlutusData, Program, Term, Type,
};
use serde_json::Value;

fn to_value(j: &Json) -> Value {
    match j {
        Json::Null => Value::Null,
        Json::Bool(b) => Value::Bool(*b),
        Json::Number(n) => serde_json::from_str(n).unwrap(),
        Json::Str(s) => Value::String(s.clone()),
        Json::Array(items) => Value::Array(items.iter().map(to_value).collect()),
        Json::Object(entries) => Value::Object(entries.iter().map(|(k, v)| (k.clone(), to_value(v))).collect()),
    }
}

fn parsed(text: &str) -> Value {
    serde_json::from_str(text).unwrap()
}

fn var(name: &str) -> Term {
    Term::Var(name.to_string())
}

fn integer(text: &str) -> Constant {
    Constant::Integer(text.to_string())
}

#[test]
fn variable_and_simple_terms() {
    assert_eq!(to_value(&to_json_term(&var("x"))), parsed(r#"{"var":"x"}"#));
    assert_eq!(to_value(&to_json_term(&Term::Error)), parsed(r#"{"error":"error"}"#));
    assert_eq!(
        to_value(&to_json_term(&Term::Builtin("addInteger".to_string()))),
        parsed(r#"{"builtin":"addInteger"}"#)
    );
    assert_eq!(
        to_value(&to_json_term(&Term::Force(Box::new(Term::Delay(Box::new(var("y"))))))),
        parsed(r#"{"force":{"delay":{"var":"y"}}}"#)
    );
}

#[test]
fn application_of_a_lambda() {
    let term = Term::Apply {
        function: Box::new(Term::Lambda { parameter_name: "x".to_string(), body: Box::new(var("x")) }),
        argument: Box::new(Term::Constant(integer("42"))),
    };
    assert_eq!(
        to_value(&to_json_term(&term)),
        parsed(
            r#"{"apply":{"function":{"lambda":{"parameter_name":"x","body":{"var":"x"}}},
                "argument":{"constant":{"integer":"42"}}}}"#
        )
    );
}

#[test]
fn constructor_and_case_terms() {
    let term = Term::Case {
        constr: Box::new(Term::Constr { tag: 1, fields: vec![Term::Error, var("z")] }),
        branches: vec![var("a"), Term::Constr { tag: 0, fields: vec![] }],
    };
    assert_eq!(
        to_value(&to_json_term(&term)),
        parsed(
            r#"{"case":{"constr":{"constr":{"tag":1,"fields":[{"error":"error"},{"var":"z"}]}},
                "branches":[{"var":"a"},{"constr":{"tag":0,"fields":[]}}]}}"#
        )
    );
}

#[test]
fn simple_constants() {
    assert_eq!(to_value(&to_json_constant(&Constant::Unit)), parsed(r#"{"unit":"()"}"#));
    assert_eq!(to_value(&to_json_constant(&Constant::Bool(true))), parsed(r#"{"bool":true}"#));
    assert_eq!(
        to_value(&to_json_constant(&Constant::String("hi".to_string()))),
        parsed(r#"{"string":"hi"}"#)
    );
    assert_eq!(
        to_value(&to_json_constant(&Constant::ByteString(vec![0xde, 0xad, 0x0f]))),
        parsed(r#"{"bytestring":"dead0f"}"#)
    );
    assert_eq!(to_value(&to_json_constant(&integer("-7"))), parsed(r#"{"integer":"-7"}"#));
}

#[test]
fn list_and_pair_constants() {
    let list = Constant::ProtoList(Type::Integer, vec![integer("1"), integer("-2")]);
    assert_eq!(
        to_value(&to_json_constant(&list)),
        parsed(r#"{"list":{"type":"integer","items":[{"integer":"1"},{"integer":"-2"}]}}"#)
    );
    let pair = Constant::ProtoPair(
        Type::ByteString,
        Type::List(Box::new(Type::Data)),
        Box::new(Constant::ByteString(vec![0xde, 0xad])),
        Box::new(Constant::ProtoList(Type::Data, vec![])),
    );
    assert_eq!(
        to_value(&to_json_constant(&pair)),
        parsed(
            r#"{"pair":{"type_left":"bytestring","type_right":{"list":"data"},
                "left":{"bytestring":"dead"},"right":{"list":{"type":"data","items":[]}}}}"#
        )
    );
}

#[test]
fn types() {
    let ty = Type::Pair(Box::new(Type::Bool), Box::new(Type::List(Box::new(Type::Bls12_381G1Element))));
    assert_eq!(
        to_value(&to_json_type(&ty)),
        parsed(r#"{"pair":{"left":"bool","right":{"list":"bls12_381_G1_element"}}}"#)
    );
    assert_eq!(to_value(&to_json_type(&Type::Bls12_381MlResult)), parsed(r#""bls12_381_mlresult""#));
    assert_eq!(to_value(&to_json_type(&Type::Unit)), parsed(r#""unit""#));
}

#[test]
fn plutus_data() {
    let data = PlutusData::Constr {
        tag: 121,
        any_constructor: None,
        fields: vec![
            PlutusData::BigInt(Json::Number("5".to_string())),
            PlutusData::BoundedBytes(vec![1, 2]),
            PlutusData::KeyValues(vec![(
                PlutusData::Array(vec![]),
                PlutusData::Constr { tag: 102, any_constructor: Some(7), fields: vec![] },
            )]),
        ],
    };
    assert_eq!(
        to_value(&to_json_plutus_data(&data)),
        parsed(
            r#"{"constr":{"tag":121,"any_constructor":null,"fields":[
                {"integer":5},{"bytestring":"0102"},
                {"map":[{"key":{"list":[]},"value":{"constr":{"tag":102,"any_constructor":7,"fields":[]}}}]}]}}"#
        )
    );
    assert_eq!(
        to_value(&to_json_constant(&Constant::Data(PlutusData::Array(vec![PlutusData::BoundedBytes(vec![])])))),
        parsed(r#"{"data":{"list":[{"bytestring":""}]}}"#)
    );
}

#[test]
fn bls_points() {
    let fp = |k: u64| BlstFp { l: [k, k + 1, k + 2, k + 3, k + 4, k + 5] };
    let g1 = Constant::Bls12_381G1Element(BlstP1 { x: fp(0), y: fp(10), z: fp(20) });
    assert_eq!(
        to_value(&to_json_constant(&g1)),
        parsed(
            r#"{"bls12_381_G1_element":{"x":[0,1,2,3,4,5],"y":[10,11,12,13,14,15],"z":[20,21,22,23,24,25]}}"#
        )
    );
    let fp2 = |k: u64| BlstFp2 { fp: [fp(k), fp(k + 100)] };
    let g2 = Constant::Bls12_381G2Element(BlstP2 { x: fp2(0), y: fp2(1), z: fp2(2) });
    let v = to_value(&to_json_constant(&g2));
    assert_eq!(v["bls12_381_G2_element"]["x"], parsed("[[0,1,2,3,4,5],[100,101,102,103,104,105]]"));
    assert_eq!(v["bls12_381_G2_element"]["z"][1][5], parsed("107"));
}

#[test]
fn program_with_version() {
    let program = Program { version: (1, 1, 0), term: Term::Constant(Constant::Unit) };
    assert_eq!(
        to_value(&to_json_program(&program)),
        parsed(r#"{"program":{"version":"1.1.0","term":{"constant":{"unit":"()"}}}}"#)
    );
}

#[test]
fn copied_json_is_equal() {
    let j = Json::Object(vec![
        ("a".to_string(), Json::Array(vec![Json::Null, Json::Bool(false), Json::Number("12".to_string())])),
        ("b".to_string(), Json::Str("t".to_string())),
    ]);
    assert_eq!(copy_json(&j), j);
}
