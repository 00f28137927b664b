use bson::document::{BsonDocument, DocKind, Document};
use bson::formattable::{
    double_bits_from_bson_t, string_from_bson_t, BsonFormattable, ConvError, Expected,
};
use bson::json::{Json, StrMap};
use bson::keys::index_key_string;
use bson::number::double_bits_of_i64;

fn int_array(values: &[i32]) -> Document {
    let mut doc = BsonDocument::new();
    for (i, v) in values.iter().enumerate() {
        doc.put(i.to_string(), Document::Int32(*v));
    }
    Document::Array(Box::new(doc))
}

#[test]
fn test_json_to_bson() {
    let json = Json::List(vec![
        Json::Null,
        Json::Number(5f64.to_bits()),
        Json::String("foo".to_string()),
        Json::Boolean(false),
    ]);
    let mut doc = BsonDocument::new();
    doc.put("0".to_string(), Document::Null);
    doc.put("1".to_string(), Document::Double(5f64.to_bits()));
    doc.put("2".to_string(), Document::UString("foo".to_string()));
    doc.put("3".to_string(), Document::Bool(false));
    assert_eq!(Document::Array(Box::new(doc)), json.to_bson_t());
}

#[test]
fn test_bson_to_json() {
    assert!(Json::from_bson_t(Document::Double(5.01f64.to_bits())).is_ok());
    assert!(Json::from_bson_t(Document::UString("foo".to_string())).is_ok());
    assert!(Json::from_bson_t(Document::Binary(0u8, vec![0u8])).is_err());
    assert!(Json::from_bson_t(Document::ObjectId(vec![0u8])).is_err());
    assert!(Json::from_bson_t(Document::Bool(true)).is_ok());
    assert!(Json::from_bson_t(Document::UTCDate(150)).is_ok());
    assert!(Json::from_bson_t(Document::Null).is_ok());
    assert!(Json::from_bson_t(Document::Regex("A".to_string(), "B".to_string())).is_err());
    assert!(Json::from_bson_t(Document::JScript("foo".to_string())).is_ok());
    assert!(Json::from_bson_t(Document::Int32(1i32)).is_ok());
    assert!(Json::from_bson_t(Document::Timestamp(1i64)).is_ok());
    assert!(Json::from_bson_t(Document::Int64(1i64)).is_ok());
    assert!(Json::from_bson_t(Document::MinKey).is_err());
    assert!(Json::from_bson_t(Document::MaxKey).is_err());
}

#[test]
fn test_list_to_bson() {
    let l: Vec<isize> = vec![1, 2, 3];
    let mut doc = BsonDocument::new();
    doc.put("0".to_string(), Document::Int32(1i32));
    doc.put("1".to_string(), Document::Int32(2i32));
    doc.put("2".to_string(), Document::Int32(3i32));
    assert_eq!(l.to_bson_t(), Document::Array(Box::new(doc)));
}

#[test]
fn test_bson_to_list() {
    let l: Vec<i32> = vec![1i32, 2, 3];
    let mut doc = BsonDocument::new();
    doc.put("0".to_string(), Document::Int32(1i32));
    doc.put("1".to_string(), Document::Int32(2i32));
    doc.put("2".to_string(), Document::Int32(3i32));
    assert_eq!(Ok(l), Vec::<i32>::from_bson_t(Document::Array(Box::new(doc))));
}

#[test]
fn scalar_round_trips() {
    for v in [i32::MIN, -1, 0, 7, i32::MAX] {
        assert_eq!(i32::from_bson_t(v.to_bson_t()), Ok(v));
    }
    for v in [i64::MIN, -1, 0, 1 << 40, i64::MAX] {
        assert_eq!(i64::from_bson_t(v.to_bson_t()), Ok(v));
    }
    for v in [i8::MIN, 0, i8::MAX] {
        assert_eq!(i8::from_bson_t(v.to_bson_t()), Ok(v));
    }
    for v in [0u32, 1, u32::MAX] {
        assert_eq!(v.to_bson_t(), Document::Int32(v as i32));
        assert_eq!(u32::from_bson_t(v.to_bson_t()), Ok(v));
    }
    assert_eq!(u16::from_bson_t(u16::MAX.to_bson_t()), Ok(u16::MAX));
    assert_eq!(bool::from_bson_t(true.to_bson_t()), Ok(true));
    assert_eq!(usize::from_bson_t(12usize.to_bson_t()), Ok(12usize));
}

#[test]
fn narrowing_truncates_without_check() {
    assert_eq!(u8::from_bson_t(Document::Int32(300)), Ok(44u8));
    assert_eq!(i8::from_bson_t(Document::Int32(-129)), Ok(127i8));
    assert_eq!(i16::from_bson_t(Document::Int32(65537)), Ok(1i16));
}

#[test]
fn int64_accepts_dates_and_timestamps() {
    assert_eq!(i64::from_bson_t(Document::UTCDate(150)), Ok(150));
    assert_eq!(i64::from_bson_t(Document::Timestamp(-3)), Ok(-3));
    assert_eq!(
        i64::from_bson_t(Document::Int32(3)),
        Err(ConvError::TypeMismatch { expected: Expected::Int64Like, actual: DocKind::Int32 })
    );
}

#[test]
fn scalar_type_mismatch() {
    assert_eq!(
        i32::from_bson_t(Document::Int64(3)),
        Err(ConvError::TypeMismatch { expected: Expected::Int32, actual: DocKind::Int64 })
    );
    assert_eq!(
        bool::from_bson_t(Document::Null),
        Err(ConvError::TypeMismatch { expected: Expected::Bool, actual: DocKind::Null })
    );
    assert_eq!(
        Vec::<i32>::from_bson_t(Document::Int32(1)),
        Err(ConvError::TypeMismatch { expected: Expected::Array, actual: DocKind::Int32 })
    );
}

#[test]
fn strings_read_only_from_ustring() {
    assert_eq!(string_from_bson_t(Document::UString("abc".to_string())), Ok("abc".to_string()));
    assert_eq!(
        string_from_bson_t(Document::JScript("abc".to_string())),
        Err(ConvError::TypeMismatch { expected: Expected::UString, actual: DocKind::JScript })
    );
}

#[test]
fn list_round_trip_has_positional_keys() {
    let l: Vec<i32> = (0..12).map(|x| x * 3 - 5).collect();
    let doc = l.to_bson_t();
    match &doc {
        Document::Array(b) => {
            let keys: Vec<String> = b.fields().iter().map(|f| f.0.clone()).collect();
            let expected: Vec<String> = (0..12).map(|i: usize| i.to_string()).collect();
            assert_eq!(keys, expected);
        }
        _ => panic!("a list is written as an array"),
    }
    assert_eq!(Vec::<i32>::from_bson_t(doc), Ok(l));
    assert_eq!(Vec::<i32>::from_bson_t(int_array(&[])), Ok(vec![]));
}

#[test]
fn list_failure_is_element_error() {
    let mut doc = BsonDocument::new();
    doc.put("0".to_string(), Document::Int32(1));
    doc.put("1".to_string(), Document::Bool(true));
    doc.put("2".to_string(), Document::Null);
    assert_eq!(
        Vec::<i32>::from_bson_t(Document::Array(Box::new(doc))),
        Err(ConvError::TypeMismatch { expected: Expected::Int32, actual: DocKind::Bool })
    );
}

#[test]
fn mapping_reads_embedded_and_array_alike() {
    let from_array = StrMap::<i32>::from_bson_t(int_array(&[4, 5]));
    let mut doc = BsonDocument::new();
    doc.put("0".to_string(), Document::Int32(4));
    doc.put("1".to_string(), Document::Int32(5));
    let from_embedded = StrMap::<i32>::from_bson_t(Document::Embedded(Box::new(doc)));
    assert_eq!(from_array, from_embedded);
    let m = from_array.unwrap();
    assert_eq!(m.len(), 2);
    assert_eq!(m.entries()[1], ("1".to_string(), 5));
    assert_eq!(
        StrMap::<i32>::from_bson_t(Document::Null),
        Err(ConvError::TypeMismatch { expected: Expected::EmbeddedOrArray, actual: DocKind::Null })
    );
}

#[test]
fn mapping_round_trip_and_overwrite() {
    let mut m: StrMap<i64> = StrMap::new();
    m.insert("a".to_string(), 1);
    m.insert("b".to_string(), 2);
    m.insert("a".to_string(), 3);
    assert_eq!(m.len(), 2);
    assert_eq!(m.entries()[0], ("a".to_string(), 3));
    let doc = m.to_bson_t();
    let mut expected = BsonDocument::new();
    expected.put("a".to_string(), Document::Int64(3));
    expected.put("b".to_string(), Document::Int64(2));
    assert_eq!(doc, Document::Embedded(Box::new(expected)));
    assert_eq!(StrMap::<i64>::from_bson_t(doc), Ok(m));
}

#[test]
fn container_put_keeps_first_position() {
    let mut doc = BsonDocument::new();
    doc.put("x".to_string(), Document::Int32(1));
    doc.put("y".to_string(), Document::Int32(2));
    doc.put("x".to_string(), Document::Int32(9));
    assert_eq!(doc.len(), 2);
    assert_eq!(doc.fields()[0], ("x".to_string(), Document::Int32(9)));
    assert_eq!(doc.fields()[1], ("y".to_string(), Document::Int32(2)));
}

#[test]
fn document_passthrough() {
    let mut inner = BsonDocument::new();
    inner.put("k".to_string(), Document::Binary(2, vec![1, 2, 3]));
    let written = inner.to_bson_t();
    assert_eq!(BsonDocument::from_bson_t(written), Ok(inner));
    let arr = int_array(&[1]);
    match BsonDocument::from_bson_t(arr) {
        Ok(b) => assert_eq!(b.fields()[0], ("0".to_string(), Document::Int32(1))),
        Err(e) => panic!("unexpected {:?}", e),
    }
    assert!(BsonDocument::from_bson_t(Document::MinKey).is_err());
}

#[test]
fn boxed_values_forward() {
    let b: Box<i32> = Box::new(8);
    assert_eq!(b.to_bson_t(), Document::Int32(8));
    assert_eq!(Box::<i32>::from_bson_t(Document::Int32(8)), Ok(Box::new(8)));
    assert!(Box::<i32>::from_bson_t(Document::Null).is_err());
}

#[test]
fn index_keys_are_decimal() {
    assert_eq!(index_key_string(0), "0");
    assert_eq!(index_key_string(10), "10");
    assert_eq!(index_key_string(1234), "1234");
}

#[test]
fn integers_become_binary64_numbers() {
    for v in [0i64, 1, -1, 5, 150, -150, 1 << 52, (1 << 53) + 1, (1 << 53) + 3, i64::MAX, i64::MIN] {
        assert_eq!(double_bits_of_i64(v), (v as f64).to_bits(), "value {}", v);
    }
    assert_eq!(Json::from_bson_t(Document::Int32(150)), Ok(Json::Number(150f64.to_bits())));
    assert_eq!(Json::from_bson_t(Document::UTCDate(-7)), Ok(Json::Number((-7f64).to_bits())));
}

#[test]
fn json_unrepresentable_kinds() {
    assert_eq!(
        Json::from_bson_t(Document::MinKey),
        Err(ConvError::Unrepresentable { variant: DocKind::MinKey })
    );
    assert_eq!(
        Json::from_bson_t(Document::JScriptWithScope("f".to_string(), Box::new(BsonDocument::new()))),
        Err(ConvError::Unrepresentable { variant: DocKind::JScriptWithScope })
    );
}

#[test]
fn json_containers_round_trip() {
    let mut obj: StrMap<Json> = StrMap::new();
    obj.insert("n".to_string(), Json::Number(2.5f64.to_bits()));
    obj.insert("l".to_string(), Json::List(vec![Json::Boolean(true), Json::Null]));
    let json = Json::Object(Box::new(obj));
    let doc = json.to_bson_t();
    assert_eq!(Json::from_bson_t(doc), Ok(json));
    let list = Json::from_bson_t(int_array(&[1, 2]));
    assert_eq!(
        list,
        Ok(Json::List(vec![Json::Number(1f64.to_bits()), Json::Number(2f64.to_bits())]))
    );
    let mut bad = BsonDocument::new();
    bad.put("a".to_string(), Document::Null);
    bad.put("b".to_string(), Document::MaxKey);
    assert_eq!(
        Json::from_bson_t(Document::Embedded(Box::new(bad))),
        Err(ConvError::Unrepresentable { variant: DocKind::MaxKey })
    );
}

#[test]
fn doubles_read_only_from_double() {
    assert_eq!(double_bits_from_bson_t(Document::Double(1.5f64.to_bits())), Ok(1.5f64.to_bits()));
    assert_eq!(
        double_bits_from_bson_t(Document::Int32(1)),
        Err(ConvError::TypeMismatch { expected: Expected::Double, actual: DocKind::Int32 })
    );
}
