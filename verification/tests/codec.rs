use flat_path::codec::decode_chain;
use flat_path::codec::decode_field;
use flat_path::codec::encode_chain;
use flat_path::codec::encode_field;
use flat_path::codec::DecodeError;
use flat_path::codec::Value;
use flat_path::model::AdapterRef;
use flat_path::model::ChainSpec;
use flat_path::model::Customization;

fn s(x: &str) -> String {
    x.to_string()
}

fn keys(xs: &[&str]) -> Vec<String> {
    xs.iter().map(|x| s(x)).collect()
}

fn adapter(owner: &str, variant: Option<&str>, field: &str) -> AdapterRef {
    AdapterRef { owner: s(owner), variant: variant.map(s), field: s(field) }
}

fn obj(entries: Vec<(&str, Value)>) -> Value {
    Value::Obj(entries.into_iter().map(|(k, v)| (s(k), v)).collect())
}

fn chain_abc(leaf_customizations: Vec<Customization>) -> ChainSpec {
    ChainSpec {
        field: s("x"),
        first_key: s("a"),
        rest_keys: keys(&["b", "c"]),
        leaf_customizations,
        adapter: adapter("Doc", None, "x"),
    }
}

#[test]
fn chain_round_trip() {
    let ks = keys(&["b", "c"]);
    let wrapped = encode_chain(&ks, Value::Leaf(7));
    assert_eq!(wrapped, obj(vec![("b", obj(vec![("c", Value::Leaf(7))]))]));
    assert_eq!(decode_chain(&ks, wrapped), Ok(Value::Leaf(7)));
}

#[test]
fn chain_round_trip_object_value() {
    let ks = keys(&["level"]);
    let inner = obj(vec![("p", Value::Leaf(1)), ("q", Value::Leaf(2))]);
    let expected = obj(vec![("p", Value::Leaf(1)), ("q", Value::Leaf(2))]);
    let wrapped = encode_chain(&ks, inner);
    assert_eq!(decode_chain(&ks, wrapped), Ok(expected));
}

#[test]
fn chain_of_no_keys_is_identity() {
    let ks = keys(&[]);
    let wrapped = encode_chain(&ks, Value::Leaf(5));
    assert_eq!(wrapped, Value::Leaf(5));
    assert_eq!(decode_chain(&ks, wrapped), Ok(Value::Leaf(5)));
}

#[test]
fn nesting_shape_three_levels() {
    // Field `x` flattened along the path a, b, c: the record's object holds
    // exactly one entry per level and the bare value at the bottom.
    let chain = chain_abc(vec![]);
    let entry = encode_field(&chain, Value::Leaf(9), false).unwrap();
    let record = Value::Obj(vec![entry]);
    assert_eq!(
        record,
        obj(vec![("a", obj(vec![("b", obj(vec![("c", Value::Leaf(9))]))]))]),
    );
}

#[test]
fn field_round_trip() {
    let chain = chain_abc(vec![]);
    let entry = encode_field(&chain, Value::Leaf(11), false).unwrap();
    let record = Value::Obj(vec![entry]);
    assert_eq!(decode_field(&chain, record), Ok(Value::Leaf(11)));
}

#[test]
fn field_round_trip_single_segment() {
    let chain = ChainSpec {
        field: s("x"),
        first_key: s("a"),
        rest_keys: keys(&[]),
        leaf_customizations: vec![],
        adapter: adapter("Doc", None, "x"),
    };
    let entry = encode_field(&chain, Value::Leaf(3), false).unwrap();
    assert_eq!(entry, (s("a"), Value::Leaf(3)));
    let record = Value::Obj(vec![entry]);
    assert_eq!(decode_field(&chain, record), Ok(Value::Leaf(3)));
}

#[test]
fn skip_if_default_omits_only_the_leaf() {
    // With a skip-if-default customization and a default value, the "c" key
    // is omitted while the "a" and "b" levels are still present.
    let chain = chain_abc(vec![Customization::SkipIf(s("u64_is_zero"))]);
    let entry = encode_field(&chain, Value::Leaf(0), true).unwrap();
    assert_eq!(entry, (s("a"), obj(vec![("b", Value::Obj(vec![]))])));
    // The leaf itself is then absent on decode.
    let record = Value::Obj(vec![entry]);
    assert_eq!(decode_field(&chain, record), Err(DecodeError::MissingKey));
}

#[test]
fn skip_if_default_keeps_full_nesting_for_non_default() {
    let chain = chain_abc(vec![Customization::SkipIf(s("u64_is_zero"))]);
    let entry = encode_field(&chain, Value::Leaf(4), false).unwrap();
    let record = Value::Obj(vec![entry]);
    assert_eq!(
        record,
        obj(vec![("a", obj(vec![("b", obj(vec![("c", Value::Leaf(4))]))]))]),
    );
    assert_eq!(decode_field(&chain, record), Ok(Value::Leaf(4)));
}

#[test]
fn skip_if_default_omits_the_whole_entry_for_one_key() {
    let chain = ChainSpec {
        field: s("x"),
        first_key: s("a"),
        rest_keys: keys(&[]),
        leaf_customizations: vec![Customization::SkipIf(s("u64_is_zero"))],
        adapter: adapter("Doc", None, "x"),
    };
    assert_eq!(encode_field(&chain, Value::Leaf(0), true), None);
}

#[test]
fn without_skip_customization_default_values_are_kept() {
    let chain = chain_abc(vec![Customization::Rename(s("c2"))]);
    let entry = encode_field(&chain, Value::Leaf(0), true).unwrap();
    let record = Value::Obj(vec![entry]);
    assert_eq!(decode_field(&chain, record), Ok(Value::Leaf(0)));
}

#[test]
fn decode_propagates_not_an_object() {
    let ks = keys(&["b"]);
    assert_eq!(decode_chain(&ks, Value::Leaf(1)), Err(DecodeError::NotAnObject));
    let two = keys(&["b", "c"]);
    let shallow = obj(vec![("b", Value::Leaf(2))]);
    assert_eq!(decode_chain(&two, shallow), Err(DecodeError::NotAnObject));
}

#[test]
fn decode_propagates_missing_key() {
    let ks = keys(&["b"]);
    let v = obj(vec![("z", Value::Leaf(1))]);
    assert_eq!(decode_chain(&ks, v), Err(DecodeError::MissingKey));
}

#[test]
fn decode_skips_unrelated_keys() {
    let ks = keys(&["b"]);
    let v = obj(vec![("z", Value::Leaf(1)), ("b", Value::Leaf(2))]);
    assert_eq!(decode_chain(&ks, v), Ok(Value::Leaf(2)));
}
