//! The JSON form of an untyped Plutus program: its version and its term, with
//! constants, types and Plutus data written out field by field.
use vstd::prelude::*;

use crate::text::{decimal, hex_encode, hex_encode_spec, push_char, push_decimal, string_of};

verus! {

// ---------------------------------------------------------------------------
// JSON values
// ---------------------------------------------------------------------------

/// A JSON value.  A number is held as its decimal text; an object as its
/// entries in order.
#[derive(Debug, PartialEq)]
pub enum Json {
    Null,
    Bool(bool),
    Number(String),
    Str(String),
    Array(Vec<Json>),
    Object(Vec<(String, Json)>),
}

/// A JSON value as plain values.
#[verifier::ext_equal]
pub enum JsonSpec {
    Null,
    Bool(bool),
    Number(Seq<char>),
    Str(Seq<char>),
    Array(Seq<JsonSpec>),
    Object(Seq<(Seq<char>, JsonSpec)>),
}

/// The plain value of a JSON value.
pub open spec fn json_view(j: Json) -> JsonSpec
    decreases j,
{
    match j {
        Json::Null => JsonSpec::Null,
        Json::Bool(b) => JsonSpec::Bool(b),
        Json::Number(n) => JsonSpec::Number(n@),
        Json::Str(s) => JsonSpec::Str(s@),
        Json::Array(items) => JsonSpec::Array(
            Seq::new(
                items@.len(),
                |i: int|
                    if 0 <= i < items@.len() {
                        json_view(items@[i])
                    } else {
                        JsonSpec::Null
                    },
            ),
        ),
        Json::Object(entries) => JsonSpec::Object(
            Seq::new(
                entries@.len(),
                |i: int|
                    if 0 <= i < entries@.len() {
                        (entries@[i].0@, json_view(entries@[i].1))
                    } else {
                        (Seq::empty(), JsonSpec::Null)
                    },
            ),
        ),
    }
}

/// The plain values of a list of JSON values.
pub open spec fn json_views(items: Seq<Json>) -> Seq<JsonSpec> {
    Seq::new(items.len(), |i: int| json_view(items[i]))
}

/// The plain values of the entries of an object.
pub open spec fn entry_views(entries: Seq<(String, Json)>) -> Seq<(Seq<char>, JsonSpec)> {
    Seq::new(entries.len(), |i: int| (entries[i].0@, json_view(entries[i].1)))
}

proof fn lemma_array_view(items: Vec<Json>)
    ensures
        json_view(Json::Array(items)) == JsonSpec::Array(json_views(items@)),
{
    if let JsonSpec::Array(s) = json_view(Json::Array(items)) {
        assert(s =~= json_views(items@));
    }
}

proof fn lemma_object_view(entries: Vec<(String, Json)>)
    ensures
        json_view(Json::Object(entries)) == JsonSpec::Object(entry_views(entries@)),
{
    if let JsonSpec::Object(s) = json_view(Json::Object(entries)) {
        assert(s =~= entry_views(entries@));
    }
}

/// An object of one entry.
pub open spec fn obj1(k: Seq<char>, v: JsonSpec) -> JsonSpec {
    JsonSpec::Object(seq![(k, v)])
}

/// An object of two entries.
pub open spec fn obj2(k1: Seq<char>, v1: JsonSpec, k2: Seq<char>, v2: JsonSpec) -> JsonSpec {
    JsonSpec::Object(seq![(k1, v1), (k2, v2)])
}

/// An object of three entries.
pub open spec fn obj3(
    k1: Seq<char>,
    v1: JsonSpec,
    k2: Seq<char>,
    v2: JsonSpec,
    k3: Seq<char>,
    v3: JsonSpec,
) -> JsonSpec {
    JsonSpec::Object(seq![(k1, v1), (k2, v2), (k3, v3)])
}

/// An object of four entries.
pub open spec fn obj4(
    k1: Seq<char>,
    v1: JsonSpec,
    k2: Seq<char>,
    v2: JsonSpec,
    k3: Seq<char>,
    v3: JsonSpec,
    k4: Seq<char>,
    v4: JsonSpec,
) -> JsonSpec {
    JsonSpec::Object(seq![(k1, v1), (k2, v2), (k3, v3), (k4, v4)])
}

/// A number written in decimal.
pub open spec fn num(n: nat) -> JsonSpec {
    JsonSpec::Number(decimal(n))
}

fn number(n: u128) -> (r: Json)
    ensures
        json_view(r) == num(n as nat),
{
    let mut s = String::new();
    push_decimal(&mut s, n);
    assert(s@ =~= decimal(n as nat));
    Json::Number(s)
}

fn text(t: &str) -> (r: Json)
    ensures
        json_view(r) == JsonSpec::Str(t@),
{
    Json::Str(string_of(t))
}

fn object(entries: Vec<(String, Json)>) -> (r: Json)
    ensures
        json_view(r) == JsonSpec::Object(entry_views(entries@)),
{
    proof {
        lemma_object_view(entries);
    }
    Json::Object(entries)
}

fn object1(k: &str, v: Json) -> (r: Json)
    ensures
        json_view(r) == obj1(k@, json_view(v)),
{
    let ghost jv = json_view(v);
    let mut entries: Vec<(String, Json)> = Vec::new();
    entries.push((string_of(k), v));
    assert(entry_views(entries@) =~= seq![(k@, jv)]);
    object(entries)
}

fn object2(k1: &str, v1: Json, k2: &str, v2: Json) -> (r: Json)
    ensures
        json_view(r) == obj2(k1@, json_view(v1), k2@, json_view(v2)),
{
    let ghost (j1, j2) = (json_view(v1), json_view(v2));
    let mut entries: Vec<(String, Json)> = Vec::new();
    entries.push((string_of(k1), v1));
    entries.push((string_of(k2), v2));
    assert(entry_views(entries@) =~= seq![(k1@, j1), (k2@, j2)]);
    object(entries)
}

fn object3(k1: &str, v1: Json, k2: &str, v2: Json, k3: &str, v3: Json) -> (r: Json)
    ensures
        json_view(r) == obj3(k1@, json_view(v1), k2@, json_view(v2), k3@, json_view(v3)),
{
    let ghost (j1, j2, j3) = (json_view(v1), json_view(v2), json_view(v3));
    let mut entries: Vec<(String, Json)> = Vec::new();
    entries.push((string_of(k1), v1));
    entries.push((string_of(k2), v2));
    entries.push((string_of(k3), v3));
    assert(entry_views(entries@) =~= seq![(k1@, j1), (k2@, j2), (k3@, j3)]);
    object(entries)
}

fn object4(k1: &str, v1: Json, k2: &str, v2: Json, k3: &str, v3: Json, k4: &str, v4: Json) -> (r: Json)
    ensures
        json_view(r) == obj4(k1@, json_view(v1), k2@, json_view(v2), k3@, json_view(v3), k4@, json_view(v4)),
{
    let ghost (j1, j2, j3, j4) = (json_view(v1), json_view(v2), json_view(v3), json_view(v4));
    let mut entries: Vec<(String, Json)> = Vec::new();
    entries.push((string_of(k1), v1));
    entries.push((string_of(k2), v2));
    entries.push((string_of(k3), v3));
    entries.push((string_of(k4), v4));
    assert(entry_views(entries@) =~= seq![(k1@, j1), (k2@, j2), (k3@, j3), (k4@, j4)]);
    object(entries)
}

/// A copy of a JSON value.
pub fn copy_json(j: &Json) -> (r: Json)
    ensures
        json_view(r) == json_view(*j),
    decreases j,
{
    match j {
        Json::Null => Json::Null,
        Json::Bool(b) => Json::Bool(*b),
        Json::Number(n) => Json::Number(string_of(n.as_str())),
        Json::Str(t) => Json::Str(string_of(t.as_str())),
        Json::Array(items) => {
            let mut out: Vec<Json> = Vec::new();
            let mut i: usize = 0;
            while i < items.len()
                invariant
                    *j == Json::Array(*items),
                    i <= items@.len(),
                    out@.len() == i,
                    forall|k: int| 0 <= k < i ==> json_view(#[trigger] out@[k]) == json_view(items@[k]),
                decreases items@.len() - i,
            {
                proof {
                    assert(decreases_to!(*j => (*j)->Array_0));
                    assert(decreases_to!(*items => items@));
                    assert(decreases_to!(items@ => items@[i as int]));
                    assert(decreases_to!(*j => items@[i as int]));
                }
                out.push(copy_json(&items[i]));
                i += 1;
            }
            proof {
                lemma_array_view(out);
                lemma_array_view(*items);
                assert(json_views(out@) =~= json_views(items@));
            }
            Json::Array(out)
        },
        Json::Object(entries) => {
            let mut out: Vec<(String, Json)> = Vec::new();
            let mut i: usize = 0;
            while i < entries.len()
                invariant
                    *j == Json::Object(*entries),
                    i <= entries@.len(),
                    out@.len() == i,
                    forall|k: int|
                        0 <= k < i ==> (#[trigger] out@[k]).0@ == entries@[k].0@ && json_view(out@[k].1)
                            == json_view(entries@[k].1),
                decreases entries@.len() - i,
            {
                proof {
                    assert(decreases_to!(*j => (*j)->Object_0));
                    assert(decreases_to!(*entries => entries@));
                    assert(decreases_to!(entries@ => entries@[i as int]));
                    assert(decreases_to!(entries@[i as int] => entries@[i as int].1));
                    assert(decreases_to!(*j => entries@[i as int].1));
                }
                let key = string_of(entries[i].0.as_str());
                let value = copy_json(&entries[i].1);
                out.push((key, value));
                i += 1;
            }
            proof {
                lemma_object_view(out);
                lemma_object_view(*entries);
                assert(entry_views(out@) =~= entry_views(entries@));
            }
            Json::Object(out)
        },
    }
}

// ---------------------------------------------------------------------------
// Untyped Plutus programs
// ---------------------------------------------------------------------------

/// A type of constants.
#[allow(non_camel_case_types)]
#[derive(Debug)]
pub enum Type {
    Bool,
    Integer,
    String,
    ByteString,
    Unit,
    List(Box<Type>),
    Pair(Box<Type>, Box<Type>),
    Data,
    Bls12_381G1Element,
    Bls12_381G2Element,
    Bls12_381MlResult,
}

/// A base field element of BLS12-381 as six 64-bit limbs.
#[derive(Debug)]
pub struct BlstFp {
    pub l: [u64; 6],
}

/// An element of the quadratic extension: two base field elements.
#[derive(Debug)]
pub struct BlstFp2 {
    pub fp: [BlstFp; 2],
}

/// A point of the first group, in projective coordinates.
#[derive(Debug)]
pub struct BlstP1 {
    pub x: BlstFp,
    pub y: BlstFp,
    pub z: BlstFp,
}

/// A point of the second group, in projective coordinates.
#[derive(Debug)]
pub struct BlstP2 {
    pub x: BlstFp2,
    pub y: BlstFp2,
    pub z: BlstFp2,
}

/// Plutus data.  An integer is held as the JSON its type writes for it.
#[derive(Debug)]
pub enum PlutusData {
    Constr { tag: u64, any_constructor: Option<u64>, fields: Vec<PlutusData> },
    KeyValues(Vec<(PlutusData, PlutusData)>),
    BigInt(Json),
    BoundedBytes(Vec<u8>),
    Array(Vec<PlutusData>),
}

/// A constant.  An integer is held as its decimal text.
#[allow(non_camel_case_types)]
#[derive(Debug)]
pub enum Constant {
    Integer(String),
    ByteString(Vec<u8>),
    String(String),
    Unit,
    Bool(bool),
    ProtoList(Type, Vec<Constant>),
    ProtoPair(Type, Type, Box<Constant>, Box<Constant>),
    Data(PlutusData),
    Bls12_381G1Element(BlstP1),
    Bls12_381G2Element(BlstP2),
    Bls12_381MlResult,
}

/// A term; variables and lambda parameters are held by name, builtins by the
/// name they are written with.
#[derive(Debug)]
pub enum Term {
    Var(String),
    Delay(Box<Term>),
    Lambda { parameter_name: String, body: Box<Term> },
    Apply { function: Box<Term>, argument: Box<Term> },
    Constant(Constant),
    Force(Box<Term>),
    Error,
    Builtin(String),
    Constr { tag: usize, fields: Vec<Term> },
    Case { constr: Box<Term>, branches: Vec<Term> },
}

/// A program: its version and its term.
#[derive(Debug)]
pub struct Program {
    pub version: (usize, usize, usize),
    pub term: Term,
}

// ---------------------------------------------------------------------------
// Their JSON form
// ---------------------------------------------------------------------------

/// An optional number: the number, or null.
pub open spec fn opt_num(o: Option<u64>) -> JsonSpec {
    match o {
        Some(a) => num(a as nat),
        None => JsonSpec::Null,
    }
}

/// Six limbs as an array of numbers.
pub open spec fn limbs_json(l: [u64; 6]) -> JsonSpec {
    JsonSpec::Array(Seq::new(6, |i: int| num(l@[i] as nat)))
}

/// An element of the quadratic extension as an array of two arrays of limbs.
pub open spec fn fp2_json(f: BlstFp2) -> JsonSpec {
    JsonSpec::Array(seq![limbs_json(f.fp@[0].l), limbs_json(f.fp@[1].l)])
}

/// The JSON form of a type.
pub open spec fn type_json(t: Type) -> JsonSpec
    decreases t,
{
    match t {
        Type::Bool => JsonSpec::Str("bool"@),
        Type::Integer => JsonSpec::Str("integer"@),
        Type::String => JsonSpec::Str("string"@),
        Type::ByteString => JsonSpec::Str("bytestring"@),
        Type::Unit => JsonSpec::Str("unit"@),
        Type::List(ty) => obj1("list"@, type_json(*ty)),
        Type::Pair(left, right) => obj1("pair"@, obj2("left"@, type_json(*left), "right"@, type_json(*right))),
        Type::Data => JsonSpec::Str("data"@),
        Type::Bls12_381G1Element => JsonSpec::Str("bls12_381_G1_element"@),
        Type::Bls12_381G2Element => JsonSpec::Str("bls12_381_G2_element"@),
        Type::Bls12_381MlResult => JsonSpec::Str("bls12_381_mlresult"@),
    }
}

/// The JSON form of Plutus data.
pub open spec fn plutus_data_json(d: PlutusData) -> JsonSpec
    decreases d,
{
    match d {
        PlutusData::Constr { tag, any_constructor, fields } => obj1(
            "constr"@,
            obj3(
                "tag"@,
                num(tag as nat),
                "any_constructor"@,
                opt_num(any_constructor),
                "fields"@,
                JsonSpec::Array(
                    Seq::new(
                        fields@.len(),
                        |i: int|
                            if 0 <= i < fields@.len() {
                                plutus_data_json(fields@[i])
                            } else {
                                JsonSpec::Null
                            },
                    ),
                ),
            ),
        ),
        PlutusData::KeyValues(kvp) => obj1(
            "map"@,
            JsonSpec::Array(
                Seq::new(
                    kvp@.len(),
                    |i: int|
                        if 0 <= i < kvp@.len() {
                            obj2(
                                "key"@,
                                plutus_data_json(kvp@[i].0),
                                "value"@,
                                plutus_data_json(kvp@[i].1),
                            )
                        } else {
                            JsonSpec::Null
                        },
                ),
            ),
        ),
        PlutusData::BigInt(j) => obj1("integer"@, json_view(j)),
        PlutusData::BoundedBytes(bs) => obj1("bytestring"@, JsonSpec::Str(hex_encode_spec(bs@))),
        PlutusData::Array(a) => obj1(
            "list"@,
            JsonSpec::Array(
                Seq::new(
                    a@.len(),
                    |i: int|
                        if 0 <= i < a@.len() {
                            plutus_data_json(a@[i])
                        } else {
                            JsonSpec::Null
                        },
                ),
            ),
        ),
    }
}

/// A constant has a JSON form: no Miller-loop result occurs in it.
pub open spec fn constant_has_json(c: Constant) -> bool
    decreases c,
{
    match c {
        Constant::ProtoList(_, items) => forall|i: int|
            0 <= i < items@.len() ==> constant_has_json(#[trigger] items@[i]),
        Constant::ProtoPair(_, _, left, right) => constant_has_json(*left) && constant_has_json(*right),
        Constant::Bls12_381MlResult => false,
        _ => true,
    }
}

/// The JSON form of a constant.
pub open spec fn constant_json(c: Constant) -> JsonSpec
    decreases c,
{
    match c {
        Constant::Integer(i) => obj1("integer"@, JsonSpec::Str(i@)),
        Constant::ByteString(bs) => obj1("bytestring"@, JsonSpec::Str(hex_encode_spec(bs@))),
        Constant::String(s) => obj1("string"@, JsonSpec::Str(s@)),
        Constant::Unit => obj1("unit"@, JsonSpec::Str("()"@)),
        Constant::Bool(b) => obj1("bool"@, JsonSpec::Bool(b)),
        Constant::ProtoList(ty, items) => obj1(
            "list"@,
            obj2(
                "type"@,
                type_json(ty),
                "items"@,
                JsonSpec::Array(
                    Seq::new(
                        items@.len(),
                        |i: int|
                            if 0 <= i < items@.len() {
                                constant_json(items@[i])
                            } else {
                                JsonSpec::Null
                            },
                    ),
                ),
            ),
        ),
        Constant::ProtoPair(left_type, right_type, left, right) => obj1(
            "pair"@,
            obj4(
                "type_left"@,
                type_json(left_type),
                "type_right"@,
                type_json(right_type),
                "left"@,
                constant_json(*left),
                "right"@,
                constant_json(*right),
            ),
        ),
        Constant::Data(d) => obj1("data"@, plutus_data_json(d)),
        Constant::Bls12_381G1Element(p) => obj1(
            "bls12_381_G1_element"@,
            obj3("x"@, limbs_json(p.x.l), "y"@, limbs_json(p.y.l), "z"@, limbs_json(p.z.l)),
        ),
        Constant::Bls12_381G2Element(p) => obj1(
            "bls12_381_G2_element"@,
            obj3("x"@, fp2_json(p.x), "y"@, fp2_json(p.y), "z"@, fp2_json(p.z)),
        ),
        Constant::Bls12_381MlResult => JsonSpec::Null,
    }
}

/// A term has a JSON form: every constant in it has one.
pub open spec fn term_has_json(t: Term) -> bool
    decreases t,
{
    match t {
        Term::Delay(inner) => term_has_json(*inner),
        Term::Lambda { parameter_name: _, body } => term_has_json(*body),
        Term::Apply { function, argument } => term_has_json(*function) && term_has_json(*argument),
        Term::Constant(c) => constant_has_json(c),
        Term::Force(inner) => term_has_json(*inner),
        Term::Constr { tag: _, fields } => forall|i: int|
            0 <= i < fields@.len() ==> term_has_json(#[trigger] fields@[i]),
        Term::Case { constr, branches } => term_has_json(*constr) && forall|i: int|
            0 <= i < branches@.len() ==> term_has_json(#[trigger] branches@[i]),
        _ => true,
    }
}

/// The JSON form of a term.
pub open spec fn term_json(t: Term) -> JsonSpec
    decreases t,
{
    match t {
        Term::Var(name) => obj1("var"@, JsonSpec::Str(name@)),
        Term::Delay(inner) => obj1("delay"@, term_json(*inner)),
        Term::Lambda { parameter_name, body } => obj1(
            "lambda"@,
            obj2("parameter_name"@, JsonSpec::Str(parameter_name@), "body"@, term_json(*body)),
        ),
        Term::Apply { function, argument } => obj1(
            "apply"@,
            obj2("function"@, term_json(*function), "argument"@, term_json(*argument)),
        ),
        Term::Constant(c) => obj1("constant"@, constant_json(c)),
        Term::Force(inner) => obj1("force"@, term_json(*inner)),
        Term::Error => obj1("error"@, JsonSpec::Str("error"@)),
        Term::Builtin(b) => obj1("builtin"@, JsonSpec::Str(b@)),
        Term::Constr { tag, fields } => obj1(
            "constr"@,
            obj2(
                "tag"@,
                num(tag as nat),
                "fields"@,
                JsonSpec::Array(
                    Seq::new(
                        fields@.len(),
                        |i: int|
                            if 0 <= i < fields@.len() {
                                term_json(fields@[i])
                            } else {
                                JsonSpec::Null
                            },
                    ),
                ),
            ),
        ),
        Term::Case { constr, branches } => obj1(
            "case"@,
            obj2(
                "constr"@,
                term_json(*constr),
                "branches"@,
                JsonSpec::Array(
                    Seq::new(
                        branches@.len(),
                        |i: int|
                            if 0 <= i < branches@.len() {
                                term_json(branches@[i])
                            } else {
                                JsonSpec::Null
                            },
                    ),
                ),
            ),
        ),
    }
}

/// The version of a program written `major.minor.patch`.
pub open spec fn version_text(v: (usize, usize, usize)) -> Seq<char> {
    decimal(v.0 as nat) + seq!['.'] + decimal(v.1 as nat) + seq!['.'] + decimal(v.2 as nat)
}

/// The JSON form of a program.
pub open spec fn program_json(p: Program) -> JsonSpec {
    obj1("program"@, obj2("version"@, JsonSpec::Str(version_text(p.version)), "term"@, term_json(p.term)))
}

// ---------------------------------------------------------------------------
// Writing the JSON form
// ---------------------------------------------------------------------------

fn limbs(l: &[u64; 6]) -> (r: Json)
    ensures
        json_view(r) == limbs_json(*l),
{
    let mut out: Vec<Json> = Vec::new();
    let mut i: usize = 0;
    while i < 6
        invariant
            i <= 6,
            out@.len() == i,
            forall|k: int| 0 <= k < i ==> json_view(#[trigger] out@[k]) == num(l@[k] as nat),
        decreases 6 - i,
    {
        out.push(number(l[i] as u128));
        i += 1;
    }
    proof {
        lemma_array_view(out);
        assert(json_views(out@) =~= Seq::new(6, |k: int| num(l@[k] as nat)));
    }
    Json::Array(out)
}

/// An element of the quadratic extension as an array of two arrays of limbs.
fn to_json_blst_fp2(fp2: &BlstFp2) -> (r: Json)
    ensures
        json_view(r) == fp2_json(*fp2),
{
    let a = limbs(&fp2.fp[0].l);
    let b = limbs(&fp2.fp[1].l);
    let ghost (ja, jb) = (json_view(a), json_view(b));
    let mut out: Vec<Json> = Vec::new();
    out.push(a);
    out.push(b);
    proof {
        lemma_array_view(out);
        assert(json_views(out@) =~= seq![ja, jb]);
    }
    Json::Array(out)
}

/// A point of the second group as its three coordinates.
fn json_blst_p2(p2: &BlstP2) -> (r: Json)
    ensures
        json_view(r) == obj3("x"@, fp2_json(p2.x), "y"@, fp2_json(p2.y), "z"@, fp2_json(p2.z)),
{
    object3("x", to_json_blst_fp2(&p2.x), "y", to_json_blst_fp2(&p2.y), "z", to_json_blst_fp2(&p2.z))
}

/// The JSON form of a type.
pub fn to_json_type(term_type: &Type) -> (r: Json)
    ensures
        json_view(r) == type_json(*term_type),
    decreases term_type,
{
    match term_type {
        Type::Bool => text("bool"),
        Type::Integer => text("integer"),
        Type::String => text("string"),
        Type::ByteString => text("bytestring"),
        Type::Unit => text("unit"),
        Type::List(ty) => object1("list", to_json_type(ty)),
        Type::Pair(left, right) => object1(
            "pair",
            object2("left", to_json_type(left), "right", to_json_type(right)),
        ),
        Type::Data => text("data"),
        Type::Bls12_381G1Element => text("bls12_381_G1_element"),
        Type::Bls12_381G2Element => text("bls12_381_G2_element"),
        Type::Bls12_381MlResult => text("bls12_381_mlresult"),
    }
}

/// The JSON form of Plutus data.
pub fn to_json_plutus_data(data: &PlutusData) -> (r: Json)
    ensures
        json_view(r) == plutus_data_json(*data),
    decreases data,
{
    match data {
        PlutusData::Constr { tag, any_constructor, fields } => {
            let mut out: Vec<Json> = Vec::new();
            let mut i: usize = 0;
            while i < fields.len()
                invariant
                    *data == (PlutusData::Constr { tag: *tag, any_constructor: *any_constructor, fields: *fields }),
                    i <= fields@.len(),
                    out@.len() == i,
                    forall|k: int| 0 <= k < i ==> json_view(#[trigger] out@[k]) == plutus_data_json(fields@[k]),
                decreases fields@.len() - i,
            {
                proof {
                    assert(decreases_to!(*data => (*data)->Constr_fields));
                    assert(decreases_to!(*fields => fields@));
                    assert(decreases_to!(fields@ => fields@[i as int]));
                }
                out.push(to_json_plutus_data(&fields[i]));
                i += 1;
            }
            let ghost items = json_views(out@);
            proof {
                lemma_array_view(out);
            }
            let any = match any_constructor {
                Some(a) => number(*a as u128),
                None => Json::Null,
            };
            assert(json_view(any) == opt_num(*any_constructor));
            let r = object1(
                "constr",
                object3("tag", number(*tag as u128), "any_constructor", any, "fields", Json::Array(out)),
            );
            proof {
                let dj = plutus_data_json(*data);
                let inner = obj3(
                    "tag"@,
                    num(*tag as nat),
                    "any_constructor"@,
                    opt_num(*any_constructor),
                    "fields"@,
                    JsonSpec::Array(items),
                );
                assert(dj->Object_0[0].1->Object_0[2].1->Array_0 =~= items);
                assert(dj->Object_0[0].1->Object_0 =~= inner->Object_0);
                assert(dj->Object_0 =~= obj1("constr"@, inner)->Object_0);
            }
            r
        },
        PlutusData::KeyValues(kvp) => {
            let mut out: Vec<Json> = Vec::new();
            let mut i: usize = 0;
            while i < kvp.len()
                invariant
                    *data == PlutusData::KeyValues(*kvp),
                    i <= kvp@.len(),
                    out@.len() == i,
                    forall|k: int|
                        0 <= k < i ==> json_view(#[trigger] out@[k]) == obj2(
                            "key"@,
                            plutus_data_json(kvp@[k].0),
                            "value"@,
                            plutus_data_json(kvp@[k].1),
                        ),
                decreases kvp@.len() - i,
            {
                proof {
                    assert(decreases_to!(*data => (*data)->KeyValues_0));
                    assert(decreases_to!(*kvp => kvp@));
                    assert(decreases_to!(kvp@ => kvp@[i as int]));
                    assert(decreases_to!(kvp@[i as int] => kvp@[i as int].0));
                    assert(decreases_to!(kvp@[i as int] => kvp@[i as int].1));
                }
                let key = to_json_plutus_data(&kvp[i].0);
                let value = to_json_plutus_data(&kvp[i].1);
                out.push(object2("key", key, "value", value));
                i += 1;
            }
            let ghost items = json_views(out@);
            proof {
                lemma_array_view(out);
            }
            let r = object1("map", Json::Array(out));
            proof {
                let dj = plutus_data_json(*data);
                assert(dj->Object_0[0].1->Array_0 =~= items);
                assert(dj->Object_0 =~= obj1("map"@, JsonSpec::Array(items))->Object_0);
            }
            r
        },
        PlutusData::BigInt(bi) => {
            object1("integer", copy_json(bi))
        },
        PlutusData::BoundedBytes(bs) => {
            object1("bytestring", Json::Str(hex_encode(bs.as_slice())))
        },
        PlutusData::Array(a) => {
            let mut out: Vec<Json> = Vec::new();
            let mut i: usize = 0;
            while i < a.len()
                invariant
                    *data == PlutusData::Array(*a),
                    i <= a@.len(),
                    out@.len() == i,
                    forall|k: int| 0 <= k < i ==> json_view(#[trigger] out@[k]) == plutus_data_json(a@[k]),
                decreases a@.len() - i,
            {
                proof {
                    assert(decreases_to!(*data => (*data)->Array_0));
                    assert(decreases_to!(*a => a@));
                    assert(decreases_to!(a@ => a@[i as int]));
                }
                out.push(to_json_plutus_data(&a[i]));
                i += 1;
            }
            let ghost items = json_views(out@);
            proof {
                lemma_array_view(out);
            }
            let r = object1("list", Json::Array(out));
            proof {
                let dj = plutus_data_json(*data);
                assert(dj->Object_0[0].1->Array_0 =~= items);
                assert(dj->Object_0 =~= obj1("list"@, JsonSpec::Array(items))->Object_0);
            }
            r
        },
    }
}

/// The JSON form of a constant; a Miller-loop result has none.
pub fn to_json_constant(constant: &Constant) -> (r: Json)
    requires
        constant_has_json(*constant),
    ensures
        json_view(r) == constant_json(*constant),
    decreases constant,
{
    match constant {
        Constant::Integer(i) => object1("integer", text(i.as_str())),
        Constant::ByteString(bs) => object1("bytestring", Json::Str(hex_encode(bs.as_slice()))),
        Constant::String(s) => object1("string", text(s.as_str())),
        Constant::Unit => object1("unit", text("()")),
        Constant::Bool(b) => object1("bool", Json::Bool(*b)),
        Constant::ProtoList(ty, items) => {
            let mut out: Vec<Json> = Vec::new();
            let mut i: usize = 0;
            while i < items.len()
                invariant
                    *constant == Constant::ProtoList(*ty, *items),
                    constant_has_json(*constant),
                    i <= items@.len(),
                    out@.len() == i,
                    forall|k: int| 0 <= k < i ==> json_view(#[trigger] out@[k]) == constant_json(items@[k]),
                decreases items@.len() - i,
            {
                proof {
                    assert(decreases_to!(*constant => (*constant)->ProtoList_1));
                    assert(decreases_to!(*items => items@));
                    assert(decreases_to!(items@ => items@[i as int]));
                    assert(constant_has_json(items@[i as int]));
                }
                out.push(to_json_constant(&items[i]));
                i += 1;
            }
            let ghost views = json_views(out@);
            proof {
                lemma_array_view(out);
            }
            let r = object1("list", object2("type", to_json_type(ty), "items", Json::Array(out)));
            proof {
                let dj = constant_json(*constant);
                let inner = obj2("type"@, type_json(*ty), "items"@, JsonSpec::Array(views));
                assert(dj->Object_0[0].1->Object_0[1].1->Array_0 =~= views);
                assert(dj->Object_0[0].1->Object_0 =~= inner->Object_0);
                assert(dj->Object_0 =~= obj1("list"@, inner)->Object_0);
            }
            r
        },
        Constant::ProtoPair(left_type, right_type, left, right) => object1(
            "pair",
            object4(
                "type_left",
                to_json_type(left_type),
                "type_right",
                to_json_type(right_type),
                "left",
                to_json_constant(left),
                "right",
                to_json_constant(right),
            ),
        ),
        Constant::Data(d) => object1("data", to_json_plutus_data(d)),
        Constant::Bls12_381G1Element(p1) => object1(
            "bls12_381_G1_element",
            object3("x", limbs(&p1.x.l), "y", limbs(&p1.y.l), "z", limbs(&p1.z.l)),
        ),
        Constant::Bls12_381G2Element(p2) => object1("bls12_381_G2_element", json_blst_p2(p2)),
        Constant::Bls12_381MlResult => Json::Null,
    }
}

/// The JSON form of a term whose constants all have one.
pub fn to_json_term(term: &Term) -> (r: Json)
    requires
        term_has_json(*term),
    ensures
        json_view(r) == term_json(*term),
    decreases term,
{
    match term {
        Term::Var(name) => object1("var", text(name.as_str())),
        Term::Delay(inner) => object1("delay", to_json_term(inner)),
        Term::Lambda { parameter_name, body } => object1(
            "lambda",
            object2("parameter_name", text(parameter_name.as_str()), "body", to_json_term(body)),
        ),
        Term::Apply { function, argument } => object1(
            "apply",
            object2("function", to_json_term(function), "argument", to_json_term(argument)),
        ),
        Term::Constant(constant) => object1("constant", to_json_constant(constant)),
        Term::Force(inner) => object1("force", to_json_term(inner)),
        Term::Error => object1("error", text("error")),
        Term::Builtin(builtin) => object1("builtin", text(builtin.as_str())),
        Term::Constr { tag, fields } => {
            let mut out: Vec<Json> = Vec::new();
            let mut i: usize = 0;
            while i < fields.len()
                invariant
                    *term == (Term::Constr { tag: *tag, fields: *fields }),
                    term_has_json(*term),
                    i <= fields@.len(),
                    out@.len() == i,
                    forall|k: int| 0 <= k < i ==> json_view(#[trigger] out@[k]) == term_json(fields@[k]),
                decreases fields@.len() - i,
            {
                proof {
                    assert(decreases_to!(*term => (*term)->Constr_fields));
                    assert(decreases_to!(*fields => fields@));
                    assert(decreases_to!(fields@ => fields@[i as int]));
                    assert(term_has_json(fields@[i as int]));
                }
                out.push(to_json_term(&fields[i]));
                i += 1;
            }
            let ghost views = json_views(out@);
            proof {
                lemma_array_view(out);
            }
            let r = object1("constr", object2("tag", number(*tag as u128), "fields", Json::Array(out)));
            proof {
                let dj = term_json(*term);
                let inner = obj2("tag"@, num(*tag as nat), "fields"@, JsonSpec::Array(views));
                assert(dj->Object_0[0].1->Object_0[1].1->Array_0 =~= views);
                assert(dj->Object_0[0].1->Object_0 =~= inner->Object_0);
                assert(dj->Object_0 =~= obj1("constr"@, inner)->Object_0);
            }
            r
        },
        Term::Case { constr, branches } => {
            let head = to_json_term(constr);
            let mut out: Vec<Json> = Vec::new();
            let mut i: usize = 0;
            while i < branches.len()
                invariant
                    *term == (Term::Case { constr: *constr, branches: *branches }),
                    term_has_json(*term),
                    i <= branches@.len(),
                    out@.len() == i,
                    forall|k: int| 0 <= k < i ==> json_view(#[trigger] out@[k]) == term_json(branches@[k]),
                decreases branches@.len() - i,
            {
                proof {
                    assert(decreases_to!(*term => (*term)->Case_branches));
                    assert(decreases_to!(*branches => branches@));
                    assert(decreases_to!(branches@ => branches@[i as int]));
                    assert(term_has_json(branches@[i as int]));
                }
                out.push(to_json_term(&branches[i]));
                i += 1;
            }
            let ghost views = json_views(out@);
            let ghost head_view = json_view(head);
            proof {
                lemma_array_view(out);
            }
            let r = object1("case", object2("constr", head, "branches", Json::Array(out)));
            proof {
                let dj = term_json(*term);
                let inner = obj2("constr"@, head_view, "branches"@, JsonSpec::Array(views));
                assert(dj->Object_0[0].1->Object_0[1].1->Array_0 =~= views);
                assert(dj->Object_0[0].1->Object_0 =~= inner->Object_0);
                assert(dj->Object_0 =~= obj1("case"@, inner)->Object_0);
            }
            r
        },
    }
}

/// The JSON form of a program whose constants all have one: its version
/// written `major.minor.patch` and its term.
pub fn to_json_program(program: &Program) -> (r: Json)
    requires
        term_has_json(program.term),
    ensures
        json_view(r) == program_json(*program),
{
    let mut version = String::new();
    push_decimal(&mut version, program.version.0 as u128);
    push_char(&mut version, '.');
    push_decimal(&mut version, program.version.1 as u128);
    push_char(&mut version, '.');
    push_decimal(&mut version, program.version.2 as u128);
    assert(version@ =~= version_text(program.version));
    object1("program", object2("version", Json::Str(version), "term", to_json_term(&program.term)))
}

} // verus!
