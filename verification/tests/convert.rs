use std::collections::{BTreeMap, BTreeSet, HashMap, HashSet};

use rusty_hermes::schema::{decode_enum, encode_enum, Fields, Variant};
use rusty_hermes::{
    Datum, Distinct, Error, FromJs, IntoJs, Number, Parts, RawValue, Reading, Record, ValueKind,
};

fn num(x: f64) -> Datum {
    Datum::Number(Number::from_bits(x.to_bits()))
}

fn float(d: &Datum) -> f64 {
    match d {
        Datum::Number(n) => f64::from_bits(n.bits()),
        other => panic!("expected a number, got: {other:?}"),
    }
}

fn text(s: &str) -> Datum {
    Datum::String(s.to_string())
}

fn object(entries: &[(&str, Datum)]) -> Datum {
    Datum::Object(entries.iter().map(|(k, v)| (k.to_string(), v.duplicate())).collect())
}

fn named(names: &[&str]) -> Fields {
    Fields::Named(names.iter().map(|n| n.to_string()).collect())
}

fn variant(name: &str, fields: Fields) -> Variant {
    Variant { name: name.to_string(), fields }
}

fn conversion_error(r: Result<(usize, Vec<Datum>), Error>) -> String {
    match r {
        Err(Error::ConversionError(m)) => m,
        other => panic!("expected ConversionError, got: {other:?}"),
    }
}

// -- structs ------------------------------------------------------------------

#[derive(Debug, PartialEq)]
struct Point {
    x: f64,
    y: f64,
}

fn point_fields() -> Fields {
    named(&["x", "y"])
}

fn point_into_js(p: Point) -> Datum {
    point_fields().encode(vec![num(p.x), num(p.y)]).unwrap()
}

fn point_from_js(value: &Datum) -> Result<Point, Error> {
    let fields = point_fields().decode(value)?;
    let of = |d: &Datum| Number::from_js(d).map(|n| f64::from_bits(n.bits()));
    Ok(Point { x: of(&fields[0])?, y: of(&fields[1])? })
}

#[test]
fn roundtrip_named_struct() {
    let p = Point { x: 1.0, y: 2.0 };
    let val = point_into_js(p);
    assert_eq!(val, object(&[("x", num(1.0)), ("y", num(2.0))]));
    let p2: Point = point_from_js(&val).unwrap();
    assert_eq!(p2, Point { x: 1.0, y: 2.0 });
}

#[test]
fn roundtrip_newtype_struct() {
    // struct Wrapper(i32)
    let fields = Fields::Unnamed(1);
    let val = fields.encode(vec![42i32.into_js().unwrap()]).unwrap();
    // A single unnamed field stands for itself.
    assert_eq!(val, num(42.0));
    let back = fields.decode(&val).unwrap();
    assert_eq!(i32::from_js(&back[0]).unwrap(), 42);
}

#[test]
fn roundtrip_tuple_struct() {
    // struct Pair(f64, f64)
    let fields = Fields::Unnamed(2);
    let val = fields.encode(vec![num(3.0), num(4.0)]).unwrap();
    assert_eq!(val, Datum::Array(vec![num(3.0), num(4.0)]));
    let back = fields.decode(&val).unwrap();
    assert_eq!((float(&back[0]), float(&back[1])), (3.0, 4.0));
}

#[test]
fn roundtrip_nested_struct() {
    // struct Line { start: Point, end: Point }
    let fields = named(&["start", "end"]);
    let val = fields
        .encode(vec![
            point_into_js(Point { x: 0.0, y: 0.0 }),
            point_into_js(Point { x: 10.0, y: 20.0 }),
        ])
        .unwrap();
    let back = fields.decode(&val).unwrap();
    assert_eq!(point_from_js(&back[0]).unwrap(), Point { x: 0.0, y: 0.0 });
    assert_eq!(point_from_js(&back[1]).unwrap(), Point { x: 10.0, y: 20.0 });
}

#[test]
fn unit_struct_is_null() {
    let val = Fields::Unit.encode(Vec::new()).unwrap();
    assert_eq!(val, Datum::Null);
    assert!(Fields::Unit.decode(&val).unwrap().is_empty());
    // A unit struct is read from whatever is there.
    assert!(Fields::Unit.decode(&num(1.0)).unwrap().is_empty());
}

#[test]
fn from_js_eval_object() {
    // ({x: 3.125, y: 2.75})
    let val = object(&[("x", num(3.125)), ("y", num(2.75))]);
    let p: Point = point_from_js(&val).unwrap();
    assert_eq!(p, Point { x: 3.125, y: 2.75 });
}

#[test]
fn a_missing_field_reads_as_undefined() {
    let val = object(&[("x", num(1.0))]);
    let fields = point_fields().decode(&val).unwrap();
    assert_eq!(fields, vec![num(1.0), Datum::Undefined]);
    match point_from_js(&val) {
        Err(Error::TypeError { expected: "number", got: "undefined" }) => {}
        other => panic!("expected TypeError, got: {other:?}"),
    }
    // Unnamed fields beyond the end of the array too.
    let short = Datum::Array(vec![num(1.0)]);
    assert_eq!(Fields::Unnamed(3).decode(&short).unwrap(), vec![num(1.0), Datum::Undefined, Datum::Undefined]);
}

#[test]
fn struct_layouts_refuse_the_wrong_kind() {
    match point_fields().decode(&num(1.0)) {
        Err(Error::TypeError { expected: "object", got: "number" }) => {}
        other => panic!("expected TypeError, got: {other:?}"),
    }
    match Fields::Unnamed(2).decode(&object(&[])) {
        Err(Error::TypeError { expected: "array", got: "object" }) => {}
        other => panic!("expected TypeError, got: {other:?}"),
    }
    match Fields::Unnamed(2).decode(&text("no")) {
        Err(Error::TypeError { expected: "array", got: "string" }) => {}
        other => panic!("expected TypeError, got: {other:?}"),
    }
}

#[test]
fn values_must_be_as_many_as_the_fields() {
    for (fields, values) in [
        (Fields::Unit, vec![Datum::Null]),
        (Fields::Unnamed(1), vec![]),
        (Fields::Unnamed(2), vec![Datum::Null]),
        (named(&["a"]), vec![Datum::Null, Datum::Null]),
    ] {
        match fields.encode(values) {
            Err(Error::ConversionError(m)) => assert_eq!(m, "wrong number of field values"),
            other => panic!("expected ConversionError, got: {other:?}"),
        }
    }
    assert_eq!(Fields::Unit.arity(), 0);
    assert_eq!(Fields::Unnamed(3).arity(), 3);
    assert_eq!(named(&["a", "b"]).arity(), 2);
}

// -- enums --------------------------------------------------------------------

fn color() -> Vec<Variant> {
    vec![
        variant("Red", Fields::Unit),
        variant("Green", Fields::Unit),
        variant("Blue", Fields::Unit),
    ]
}

fn shape() -> Vec<Variant> {
    vec![
        variant("Point", Fields::Unit),
        variant("Circle", named(&["radius"])),
        variant("Rectangle", named(&["width", "height"])),
    ]
}

fn message() -> Vec<Variant> {
    vec![variant("Text", Fields::Unnamed(1)), variant("Coords", Fields::Unnamed(2))]
}

#[test]
fn roundtrip_enum_unit_variant() {
    for (index, name) in ["Red", "Green", "Blue"].iter().enumerate() {
        let val = encode_enum(&color(), index, Vec::new()).unwrap();
        // A variant without fields is a plain string that is its name.
        assert_eq!(val, text(name));
        let (back, fields) = decode_enum(&color(), &val).unwrap();
        assert_eq!(back, index);
        assert!(fields.is_empty());
    }
}

#[test]
fn roundtrip_enum_struct_variant() {
    // Shape::Circle { radius: 5.0 }
    let val = encode_enum(&shape(), 1, vec![num(5.0)]).unwrap();
    assert_eq!(val, object(&[("Circle", object(&[("radius", num(5.0))]))]));
    let (index, fields) = decode_enum(&shape(), &val).unwrap();
    assert_eq!(index, 1);
    assert_eq!(fields, vec![num(5.0)]);
}

#[test]
fn roundtrip_enum_unit_variant_mixed() {
    let val = encode_enum(&shape(), 0, Vec::new()).unwrap();
    assert_eq!(val, text("Point"));
    let (index, fields) = decode_enum(&shape(), &val).unwrap();
    assert_eq!(index, 0);
    assert!(fields.is_empty());
}

#[test]
fn roundtrip_enum_newtype_variant() {
    // Message::Text("hello")
    let val = encode_enum(&message(), 0, vec![text("hello")]).unwrap();
    assert_eq!(val, object(&[("Text", text("hello"))]));
    let (index, fields) = decode_enum(&message(), &val).unwrap();
    assert_eq!(index, 0);
    assert_eq!(String::from_js(&fields[0]).unwrap(), "hello");
}

#[test]
fn roundtrip_enum_tuple_variant() {
    // Message::Coords(1.0, 2.0)
    let val = encode_enum(&message(), 1, vec![num(1.0), num(2.0)]).unwrap();
    assert_eq!(val, object(&[("Coords", Datum::Array(vec![num(1.0), num(2.0)]))]));
    let (index, fields) = decode_enum(&message(), &val).unwrap();
    assert_eq!(index, 1);
    assert_eq!(fields, vec![num(1.0), num(2.0)]);
}

#[test]
fn an_unrecognised_variant_name_is_a_conversion_error() {
    assert_eq!(conversion_error(decode_enum(&color(), &text("Purple"))), "unknown variant: Purple");
    // The name must match exactly.
    assert_eq!(conversion_error(decode_enum(&color(), &text("red"))), "unknown variant: red");
    assert_eq!(conversion_error(decode_enum(&color(), &text(""))), "unknown variant: ");
    assert_eq!(conversion_error(decode_enum(&color(), &text("Red "))), "unknown variant: Red ");
    // A string names only variants without fields, an object only the others.
    assert_eq!(conversion_error(decode_enum(&shape(), &text("Circle"))), "unknown variant: Circle");
    let as_object = object(&[("Point", Datum::Null)]);
    assert_eq!(conversion_error(decode_enum(&shape(), &as_object)), "unknown variant: Point");
    let unknown = object(&[("Triangle", object(&[]))]);
    assert_eq!(conversion_error(decode_enum(&shape(), &unknown)), "unknown variant: Triangle");
}

#[test]
fn an_object_must_have_exactly_one_key() {
    assert_eq!(
        conversion_error(decode_enum(&shape(), &object(&[]))),
        "expected object with exactly 1 key for enum, got 0"
    );
    let two = object(&[("Circle", object(&[("radius", num(1.0))])), ("Point", Datum::Null)]);
    assert_eq!(
        conversion_error(decode_enum(&shape(), &two)),
        "expected object with exactly 1 key for enum, got 2"
    );
    let many = Datum::Object((0..12).map(|i| (format!("k{i}"), Datum::Null)).collect());
    assert_eq!(
        conversion_error(decode_enum(&shape(), &many)),
        "expected object with exactly 1 key for enum, got 12"
    );
    // An array is an object whose keys are its indices.
    assert_eq!(
        conversion_error(decode_enum(&shape(), &Datum::Array(vec![]))),
        "expected object with exactly 1 key for enum, got 0"
    );
    assert_eq!(
        conversion_error(decode_enum(&shape(), &Datum::Array(vec![Datum::Null]))),
        "unknown variant: 0"
    );
}

#[test]
fn enums_refuse_the_wrong_kind() {
    for value in [num(1.0), Datum::Null, Datum::Undefined, Datum::Boolean(true), Datum::Symbol, Datum::BigInt] {
        match decode_enum(&shape(), &value) {
            Err(Error::TypeError { expected, got }) => {
                assert_eq!(expected, "string or object (enum)");
                assert_eq!(got, value.kind().name());
            }
            other => panic!("expected TypeError, got: {other:?}"),
        }
    }
    // An enum without variants that have fields takes no object,
    match decode_enum(&color(), &object(&[("Red", Datum::Null)])) {
        Err(Error::TypeError { expected: "string or object (enum)", got: "object" }) => {}
        other => panic!("expected TypeError, got: {other:?}"),
    }
    // and one without plain variants takes no string.
    match decode_enum(&message(), &text("Text")) {
        Err(Error::TypeError { expected: "string or object (enum)", got: "string" }) => {}
        other => panic!("expected TypeError, got: {other:?}"),
    }
}

#[test]
fn the_payload_of_a_variant_must_have_its_layout() {
    let bad = object(&[("Circle", num(1.0))]);
    match decode_enum(&shape(), &bad) {
        Err(Error::TypeError { expected: "object", got: "number" }) => {}
        other => panic!("expected TypeError, got: {other:?}"),
    }
    let bad = object(&[("Coords", object(&[]))]);
    match decode_enum(&message(), &bad) {
        Err(Error::TypeError { expected: "array", got: "object" }) => {}
        other => panic!("expected TypeError, got: {other:?}"),
    }
}

#[test]
fn a_variant_index_must_exist() {
    match encode_enum(&color(), 3, Vec::new()) {
        Err(Error::ConversionError(m)) => assert_eq!(m, "no such variant"),
        other => panic!("expected ConversionError, got: {other:?}"),
    }
    match encode_enum(&color(), 0, vec![Datum::Null]) {
        Err(Error::ConversionError(m)) => assert_eq!(m, "wrong number of field values"),
        other => panic!("expected ConversionError, got: {other:?}"),
    }
}

// -- scalars ------------------------------------------------------------------

#[test]
fn roundtrip_small_integers() {
    let val = 42i8.into_js().unwrap();
    assert_eq!(i8::from_js(&val).unwrap(), 42i8);

    let val = 200u8.into_js().unwrap();
    assert_eq!(u8::from_js(&val).unwrap(), 200u8);

    let val = (-1000i16).into_js().unwrap();
    assert_eq!(i16::from_js(&val).unwrap(), -1000i16);

    let val = 50000u16.into_js().unwrap();
    assert_eq!(u16::from_js(&val).unwrap(), 50000u16);

    let val = 42usize.into_js().unwrap();
    assert_eq!(usize::from_js(&val).unwrap(), 42usize);

    let val = (-7isize).into_js().unwrap();
    assert_eq!(isize::from_js(&val).unwrap(), -7isize);
}

#[test]
fn integers_cross_as_numbers() {
    assert_eq!(1i32.into_js().unwrap(), num(1.0));
    assert_eq!((-5i64).into_js().unwrap(), num(-5.0));
    assert_eq!(u64::MAX.into_js().unwrap(), num(u64::MAX as f64));
    assert_eq!(u32::from_js(&num(3.99)).unwrap(), 3);
    assert_eq!(u8::from_js(&num(300.0)).unwrap(), 255);
    assert_eq!(i8::from_js(&num(-300.0)).unwrap(), -128);
    assert_eq!(i32::from_js(&num(f64::NAN)).unwrap(), 0);
    assert_eq!(i64::from_js(&num(-1.5)).unwrap(), -1);
    assert_eq!(u64::from_js(&num(-1.5)).unwrap(), 0);
    match i32::from_js(&text("1")) {
        Err(Error::TypeError { expected: "number", got: "string" }) => {}
        other => panic!("expected TypeError, got: {other:?}"),
    }
}

#[test]
fn scalars_round_trip() {
    assert_eq!(true.into_js().unwrap(), Datum::Boolean(true));
    assert!(bool::from_js(&true.into_js().unwrap()).unwrap());
    assert!(!bool::from_js(&false.into_js().unwrap()).unwrap());
    assert_eq!("hi".into_js().unwrap(), text("hi"));
    assert_eq!(String::from_js(&"hi".to_string().into_js().unwrap()).unwrap(), "hi");
    assert_eq!(String::from_js(&String::new().into_js().unwrap()).unwrap(), "");
    let n = Number::from_bits(f64::NAN.to_bits());
    assert_eq!(Number::from_js(&n.into_js().unwrap()).unwrap().bits(), f64::NAN.to_bits());
    assert_eq!(().into_js().unwrap(), Datum::Undefined);
    let tree = object(&[("a", Datum::Array(vec![num(1.0), Datum::Null]))]);
    assert_eq!(Datum::from_js(&tree.duplicate().into_js().unwrap()).unwrap(), tree);
}

#[test]
fn scalars_refuse_the_wrong_kind() {
    match bool::from_js(&num(1.0)) {
        Err(Error::TypeError { expected: "boolean", got: "number" }) => {}
        other => panic!("expected TypeError, got: {other:?}"),
    }
    match Number::from_js(&Datum::Boolean(true)) {
        Err(Error::TypeError { expected: "number", got: "boolean" }) => {}
        other => panic!("expected TypeError, got: {other:?}"),
    }
    match String::from_js(&num(42.0)) {
        Err(Error::TypeError { expected: "string", got: "number" }) => {}
        other => panic!("expected TypeError, got: {other:?}"),
    }
    match String::from_js(&Datum::Array(vec![])) {
        Err(Error::TypeError { expected: "string", got: "object" }) => {}
        other => panic!("expected TypeError, got: {other:?}"),
    }
}

#[test]
fn optional_values_go_through_null() {
    let absent: Option<bool> = None;
    assert_eq!(absent.into_js().unwrap(), Datum::Null);
    assert_eq!(Option::<bool>::from_js(&Datum::Null).unwrap(), None);
    assert_eq!(Option::<bool>::from_js(&Datum::Undefined).unwrap(), None);
    assert_eq!(Some(true).into_js().unwrap(), Datum::Boolean(true));
    assert_eq!(Option::<bool>::from_js(&Some(true).into_js().unwrap()).unwrap(), Some(true));
    assert_eq!(Option::<String>::from_js(&Some("x".to_string()).into_js().unwrap()).unwrap(), Some("x".to_string()));
    assert_eq!(Option::<i32>::from_js(&Some(0).into_js().unwrap()).unwrap(), Some(0));
    match Option::<bool>::from_js(&num(1.0)) {
        Err(Error::TypeError { expected: "boolean", got: "number" }) => {}
        other => panic!("expected TypeError, got: {other:?}"),
    }
}

#[test]
fn a_present_value_that_is_itself_nullish_comes_back_absent() {
    let nested: Option<Option<bool>> = Some(None);
    let val = nested.into_js().unwrap();
    assert_eq!(val, Datum::Null);
    assert_eq!(Option::<Option<bool>>::from_js(&val).unwrap(), None);
}

// -- sequences and maps -------------------------------------------------------

#[test]
fn from_js_vec() {
    // [1, 2, 3, 4, 5]
    let val = Datum::Array(vec![num(1.0), num(2.0), num(3.0), num(4.0), num(5.0)]);
    let v: Vec<i32> = FromJs::from_js(&val).unwrap();
    assert_eq!(v, vec![1, 2, 3, 4, 5]);
}

#[test]
fn sequences_keep_their_order() {
    let v = vec!["c".to_string(), "a".to_string(), "b".to_string()];
    let val = v.clone().into_js().unwrap();
    assert_eq!(val, Datum::Array(vec![text("c"), text("a"), text("b")]));
    assert_eq!(Vec::<String>::from_js(&val).unwrap(), v);
    assert_eq!(Vec::<i32>::new().into_js().unwrap(), Datum::Array(vec![]));
    assert!(Vec::<i32>::from_js(&Datum::Array(vec![])).unwrap().is_empty());
    let nested = vec![vec![1u8, 2], vec![], vec![3]];
    assert_eq!(Vec::<Vec<u8>>::from_js(&nested.clone().into_js().unwrap()).unwrap(), nested);
}

#[test]
fn a_sequence_stops_at_the_first_element_that_fails() {
    let val = Datum::Array(vec![num(1.0), text("two"), Datum::Boolean(true)]);
    match Vec::<i32>::from_js(&val) {
        Err(Error::TypeError { expected: "number", got: "string" }) => {}
        other => panic!("expected TypeError, got: {other:?}"),
    }
    match Vec::<i32>::from_js(&object(&[])) {
        Err(Error::TypeError { expected: "array", got: "object" }) => {}
        other => panic!("expected TypeError, got: {other:?}"),
    }
    match Vec::<i32>::from_js(&Datum::Null) {
        Err(Error::TypeError { expected: "array", got: "null" }) => {}
        other => panic!("expected TypeError, got: {other:?}"),
    }
}

#[test]
fn from_js_hashmap() {
    // ({a: 1, b: 2, c: 3})
    let val = object(&[("a", num(1.0)), ("b", num(2.0)), ("c", num(3.0))]);
    let record: Record<i32> = FromJs::from_js(&val).unwrap();
    let map: HashMap<String, i32> = record.into_entries().into_iter().collect();
    assert_eq!(map.len(), 3);
    assert_eq!(map["a"], 1);
    assert_eq!(map["b"], 2);
    assert_eq!(map["c"], 3);
}

#[test]
fn roundtrip_hashmap() {
    let mut map = HashMap::new();
    map.insert("x".to_string(), 10i32);
    map.insert("y".to_string(), 20i32);
    let val = Record::from_entries(map.into_iter().collect()).into_js().unwrap();
    let record: Record<i32> = FromJs::from_js(&val).unwrap();
    let map2: HashMap<String, i32> = record.into_entries().into_iter().collect();
    assert_eq!(map2["x"], 10);
    assert_eq!(map2["y"], 20);
}

#[test]
fn roundtrip_btreemap() {
    let mut map = BTreeMap::new();
    map.insert("a".to_string(), Number::from_bits(1.0f64.to_bits()));
    map.insert("b".to_string(), Number::from_bits(2.0f64.to_bits()));
    let val = Record::from_entries(map.into_iter().collect()).into_js().unwrap();
    assert_eq!(val, object(&[("a", num(1.0)), ("b", num(2.0))]));
    let record: Record<Number> = FromJs::from_js(&val).unwrap();
    let map2: BTreeMap<String, f64> =
        record.into_entries().into_iter().map(|(k, v)| (k, f64::from_bits(v.bits()))).collect();
    assert_eq!(map2["a"], 1.0);
    assert_eq!(map2["b"], 2.0);
}

#[test]
fn roundtrip_hashset() {
    let set: HashSet<i32> = [1, 2, 3].into_iter().collect();
    let val = Distinct::from_items(set.into_iter().collect()).into_js().unwrap();
    let back: Distinct<i32> = FromJs::from_js(&val).unwrap();
    let set2: HashSet<i32> = back.into_items().into_iter().collect();
    assert_eq!(set2.len(), 3);
    assert!(set2.contains(&1));
    assert!(set2.contains(&2));
    assert!(set2.contains(&3));
}

#[test]
fn roundtrip_btreeset() {
    let set: BTreeSet<i32> = [10, 20, 30].into_iter().collect();
    let val = Distinct::from_items(set.into_iter().collect()).into_js().unwrap();
    assert_eq!(val, Datum::Array(vec![num(10.0), num(20.0), num(30.0)]));
    let back: Distinct<i32> = FromJs::from_js(&val).unwrap();
    let set2: BTreeSet<i32> = back.into_items().into_iter().collect();
    assert_eq!(set2, [10, 20, 30].into_iter().collect());
}

#[test]
fn sets_keep_the_first_of_what_repeats() {
    let val = Datum::Array(vec![text("b"), text("a"), text("b"), text("c"), text("a")]);
    let set: Distinct<String> = FromJs::from_js(&val).unwrap();
    assert_eq!(set.len(), 3);
    assert!(set.contains(&"a".to_string()));
    assert!(!set.contains(&"z".to_string()));
    assert_eq!(set.into_items(), ["b", "a", "c"]);
    assert_eq!(Distinct::from_items(vec![2u8, 2, 1, 2, 1]).into_items(), [2, 1]);
    let mut set: Distinct<u8> = Distinct::new();
    assert!(set.insert(3));
    assert!(set.insert(1));
    assert!(!set.insert(3));
    assert_eq!(set.into_items(), [3, 1]);
    match Distinct::<u8>::from_js(&Datum::Array(vec![num(1.0), Datum::Null])) {
        Err(Error::TypeError { expected: "number", got: "null" }) => {}
        other => panic!("expected TypeError, got: {:?}", other.map(|s| s.into_items())),
    }
    match Distinct::<u8>::from_js(&num(1.0)) {
        Err(Error::TypeError { expected: "array", got: "number" }) => {}
        other => panic!("expected TypeError, got: {:?}", other.map(|s| s.into_items())),
    }
}

#[test]
fn records_keep_their_order_and_stop_at_the_first_failure() {
    let record = Record::from_entries(vec![("z".to_string(), true), ("a".to_string(), false)]);
    let val = record.into_js().unwrap();
    assert_eq!(val, object(&[("z", Datum::Boolean(true)), ("a", Datum::Boolean(false))]));
    let back: Record<bool> = FromJs::from_js(&val).unwrap();
    assert_eq!(back.into_entries(), vec![("z".to_string(), true), ("a".to_string(), false)]);
    let mixed = object(&[("a", Datum::Boolean(true)), ("b", num(1.0)), ("c", text("x"))]);
    match Record::<bool>::from_js(&mixed) {
        Err(Error::TypeError { expected: "boolean", got: "number" }) => {}
        other => panic!("expected TypeError, got: {:?}", other.map(|r| r.into_entries())),
    }
    match Record::<bool>::from_js(&text("x")) {
        Err(Error::TypeError { expected: "object", got: "string" }) => {}
        other => panic!("expected TypeError, got: {:?}", other.map(|r| r.into_entries())),
    }
    // An array is an object whose keys are its indices.
    let listed: Record<bool> = FromJs::from_js(&Datum::Array(vec![Datum::Boolean(true); 11])).unwrap();
    let keys: Vec<String> = listed.into_entries().into_iter().map(|(k, _)| k).collect();
    assert_eq!(keys, ["0", "1", "2", "3", "4", "5", "6", "7", "8", "9", "10"]);
}

#[test]
fn records_are_maps_that_keep_their_order() {
    let mut record: Record<i32> = Record::new();
    assert_eq!(record.len(), 0);
    assert_eq!(record.insert("b".to_string(), 1), None);
    assert_eq!(record.insert("a".to_string(), 2), None);
    assert_eq!(record.insert("c".to_string(), 3), None);
    assert_eq!(record.len(), 3);
    assert_eq!(record.get(&"a".to_string()), Some(&2));
    assert_eq!(record.get(&"z".to_string()), None);
    // A key that is entered again keeps its place and gives up its value.
    assert_eq!(record.insert("b".to_string(), 10), Some(1));
    assert_eq!(record.insert("c".to_string(), 30), Some(3));
    assert_eq!(record.len(), 3);
    assert_eq!(
        record.into_js().unwrap(),
        object(&[("b", num(10.0)), ("a", num(2.0)), ("c", num(30.0))])
    );
    // Of pairs with one key the first decides the place, the last the value.
    let record = Record::from_entries(vec![
        ("b".to_string(), 1),
        ("a".to_string(), 2),
        ("b".to_string(), 10),
    ]);
    assert_eq!(record.into_entries(), vec![("b".to_string(), 10), ("a".to_string(), 2)]);
    // An object that lists a key twice is read as a record that has it once.
    let twice = object(&[("k", num(1.0)), ("j", num(2.0)), ("k", num(3.0))]);
    let record: Record<i32> = FromJs::from_js(&twice).unwrap();
    assert_eq!(record.into_entries(), vec![("k".to_string(), 1), ("j".to_string(), 2)]);
}

// -- tuples -------------------------------------------------------------------

#[test]
fn roundtrip_tuple_1() {
    // (42i32,)
    let fields = Fields::Unnamed(1);
    let val = fields.encode(vec![42i32.into_js().unwrap()]).unwrap();
    let back = fields.decode(&val).unwrap();
    assert_eq!((i32::from_js(&back[0]).unwrap(),), (42,));
}

#[test]
fn roundtrip_tuple_2() {
    // (3.14f64, "hello")
    let fields = Fields::Unnamed(2);
    let val = fields.encode(vec![num(3.14), "hello".into_js().unwrap()]).unwrap();
    let back = fields.decode(&val).unwrap();
    assert_eq!((float(&back[0]), String::from_js(&back[1]).unwrap()), (3.14, "hello".to_string()));
}

#[test]
fn roundtrip_tuple_3() {
    // (1i32, true, "hi")
    let fields = Fields::Unnamed(3);
    let val = fields
        .encode(vec![1i32.into_js().unwrap(), true.into_js().unwrap(), "hi".into_js().unwrap()])
        .unwrap();
    let back = fields.decode(&val).unwrap();
    assert_eq!(
        (
            i32::from_js(&back[0]).unwrap(),
            bool::from_js(&back[1]).unwrap(),
            String::from_js(&back[2]).unwrap()
        ),
        (1, true, "hi".to_string())
    );
}

#[test]
fn tuple_from_js_array() {
    // [10, 'world']
    let val = Datum::Array(vec![num(10.0), text("world")]);
    let back = Fields::Unnamed(2).decode(&val).unwrap();
    assert_eq!(
        (i32::from_js(&back[0]).unwrap(), String::from_js(&back[1]).unwrap()),
        (10, "world".to_string())
    );
}

// -- data ---------------------------------------------------------------------

#[test]
fn properties_of_data() {
    let o = object(&[("a", num(1.0)), ("b", text("two")), ("a", num(3.0))]);
    assert_eq!(o.get(&"a".to_string()), num(1.0));
    assert_eq!(o.get(&"b".to_string()), text("two"));
    assert_eq!(o.get(&"nonexistent".to_string()), Datum::Undefined);
    assert_eq!(o.keys(), ["a", "b", "a"]);
    let a = Datum::Array(vec![num(10.0), num(20.0), num(30.0)]);
    assert_eq!(a.keys(), ["0", "1", "2"]);
    assert_eq!(a.get(&"1".to_string()), num(20.0));
    assert_eq!(a.get(&"01".to_string()), Datum::Undefined);
    assert_eq!(a.get(&"3".to_string()), Datum::Undefined);
    assert_eq!(a.at(0), num(10.0));
    assert_eq!(a.at(2), num(30.0));
    assert_eq!(a.at(3), Datum::Undefined);
    assert_eq!(o.at(0), Datum::Undefined);
    assert!(num(1.0).keys().is_empty());
    assert_eq!(text("x").get(&"length".to_string()), Datum::Undefined);
}

#[test]
fn kinds_of_data() {
    assert_eq!(Datum::Undefined.kind(), ValueKind::Undefined);
    assert_eq!(Datum::Null.kind(), ValueKind::Null);
    assert_eq!(Datum::Boolean(true).kind(), ValueKind::Boolean);
    assert_eq!(num(1.0).kind(), ValueKind::Number);
    assert_eq!(text("").kind(), ValueKind::String);
    assert_eq!(Datum::Array(vec![]).kind(), ValueKind::Object);
    assert_eq!(object(&[]).kind(), ValueKind::Object);
    assert_eq!(Datum::Symbol.kind(), ValueKind::Symbol);
    assert_eq!(Datum::BigInt.kind(), ValueKind::BigInt);
}

#[test]
fn duplicate_copies_the_whole_tree() {
    let tree = object(&[
        ("list", Datum::Array(vec![num(1.0), object(&[("deep", text("x"))]), Datum::Null])),
        ("flag", Datum::Boolean(false)),
        ("sym", Datum::Symbol),
    ]);
    assert_eq!(tree.duplicate(), tree);
}

#[test]
fn raw_values_are_read_out_by_kind() {
    let raw = |kind: i32, payload: u64| RawValue { kind, payload };
    assert_eq!(Datum::reading(raw(0, 0), 1), Reading::Leaf(Datum::Undefined));
    assert_eq!(Datum::reading(raw(1, 0), 1), Reading::Leaf(Datum::Null));
    assert_eq!(Datum::reading(raw(2, 1), 1), Reading::Leaf(Datum::Boolean(true)));
    assert_eq!(Datum::reading(raw(2, 0), 1), Reading::Leaf(Datum::Boolean(false)));
    assert_eq!(Datum::reading(raw(3, 2.5f64.to_bits()), 1), Reading::Leaf(num(2.5)));
    assert_eq!(Datum::reading(raw(4, 0x10), 1), Reading::Leaf(Datum::Symbol));
    assert_eq!(Datum::reading(raw(5, 0x10), 1), Reading::Leaf(Datum::BigInt));
    assert_eq!(Datum::reading(raw(6, 0x10), 1), Reading::String);
    assert_eq!(Datum::reading(raw(7, 0x10), 1), Reading::Object);
    assert_eq!(Datum::reading(raw(42, 9), 1), Reading::Leaf(Datum::Undefined));
    // An object is looked into only while a level is left.
    assert_eq!(Datum::reading(raw(7, 0x10), 0), Reading::Leaf(Datum::Unread));
    assert_eq!(Datum::reading(raw(7, 0x10), usize::MAX), Reading::Object);
    assert_eq!(Datum::reading(raw(6, 0x10), 0), Reading::String);
    assert_eq!(Datum::reading(raw(3, 0), 0), Reading::Leaf(num(0.0)));
}

#[test]
fn an_object_is_read_by_its_elements_or_by_its_listed_properties() {
    // No level left: nothing of it is read, whatever it is.
    assert_eq!(Datum::parts(true, 0), None);
    assert_eq!(Datum::parts(false, 0), None);
    // An array by its elements, any other object by its properties, each
    // with one level less.
    assert_eq!(Datum::parts(true, 1), Some(Parts::Elements(0)));
    assert_eq!(Datum::parts(false, 1), Some(Parts::Properties(0)));
    assert_eq!(Datum::parts(true, 256), Some(Parts::Elements(255)));
    assert_eq!(Datum::parts(false, usize::MAX), Some(Parts::Properties(usize::MAX - 1)));
}

#[test]
fn an_object_that_was_not_looked_into_is_an_object_without_properties() {
    assert_eq!(Datum::Unread.kind(), ValueKind::Object);
    assert!(Datum::Unread.keys().is_empty());
    assert_eq!(Datum::Unread.get(&"x".to_string()), Datum::Undefined);
    assert_eq!(Datum::Unread.at(0), Datum::Undefined);
    assert_eq!(Datum::Unread.inline(), None);
    assert_eq!(Datum::Unread.duplicate(), Datum::Unread);
    // To a type that looks into no object it is as good as the object.
    match bool::from_js(&Datum::Unread) {
        Err(Error::TypeError { expected: "boolean", got: "object" }) => {}
        other => panic!("expected TypeError, got: {other:?}"),
    }
    match String::from_js(&Datum::Unread) {
        Err(Error::TypeError { expected: "string", got: "object" }) => {}
        other => panic!("expected TypeError, got: {other:?}"),
    }
}

#[test]
fn each_type_says_how_far_it_looks() {
    assert_eq!(bool::levels(), Some(0));
    assert_eq!(i32::levels(), Some(0));
    assert_eq!(Number::levels(), Some(0));
    assert_eq!(String::levels(), Some(0));
    assert_eq!(Option::<u8>::levels(), Some(0));
    assert_eq!(Vec::<u8>::levels(), Some(1));
    assert_eq!(Vec::<Vec<Option<String>>>::levels(), Some(2));
    assert_eq!(Record::<Vec<bool>>::levels(), Some(2));
    assert_eq!(Distinct::<u8>::levels(), Some(1));
    assert_eq!(Datum::levels(), None);
    assert_eq!(Vec::<Datum>::levels(), None);
    assert_eq!(rusty_hermes::convert::depth_of(None), 256);
    assert_eq!(rusty_hermes::convert::depth_of(Some(3)), 3);
    assert_eq!(rusty_hermes::convert::one_more_level(Some(usize::MAX)), Some(usize::MAX));
}

#[test]
fn reading_as_far_as_the_type_looks_is_enough() {
    // [[1, {deep: [2]}], [3]] read two levels deep: the object is left unread,
    let whole = Datum::Array(vec![
        Datum::Array(vec![num(1.0), object(&[("deep", Datum::Array(vec![num(2.0)]))])]),
        Datum::Array(vec![num(3.0)]),
    ]);
    let two_deep = Datum::Array(vec![
        Datum::Array(vec![num(1.0), Datum::Unread]),
        Datum::Array(vec![num(3.0)]),
    ]);
    // and a type that looks two levels deep reads the same from both.
    let a = Vec::<Vec<Option<bool>>>::from_js(&whole);
    let b = Vec::<Vec<Option<bool>>>::from_js(&two_deep);
    assert!(matches!(a, Err(Error::TypeError { expected: "boolean", got: "number" })));
    assert!(matches!(b, Err(Error::TypeError { expected: "boolean", got: "number" })));
    let nested = Datum::Array(vec![Datum::Array(vec![num(1.0)]), Datum::Array(vec![])]);
    assert_eq!(Vec::<Vec<u8>>::from_js(&nested).unwrap(), vec![vec![1], vec![]]);
}

#[test]
fn inline_data_needs_no_engine() {
    assert_eq!(Datum::Undefined.inline(), Some(RawValue { kind: 0, payload: 0 }));
    assert_eq!(Datum::Null.inline(), Some(RawValue { kind: 1, payload: 0 }));
    assert_eq!(Datum::Boolean(true).inline(), Some(RawValue { kind: 2, payload: 1 }));
    assert_eq!(Datum::Boolean(false).inline(), Some(RawValue { kind: 2, payload: 0 }));
    assert_eq!(num(1.0).inline(), Some(RawValue { kind: 3, payload: 1.0f64.to_bits() }));
    assert_eq!(text("s").inline(), None);
    assert_eq!(Datum::Array(vec![]).inline(), None);
    assert_eq!(object(&[]).inline(), None);
    assert_eq!(Datum::Symbol.inline(), None);
    assert_eq!(Datum::BigInt.inline(), None);
    for d in [Datum::Undefined, Datum::Null, Datum::Boolean(true), num(-0.0), num(f64::NAN)] {
        assert_eq!(Datum::reading(d.inline().unwrap(), 0), Reading::Leaf(d));
    }
}
