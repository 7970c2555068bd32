use muadb::catalog_schema::AnonySlice;
use muadb::catalog_schema::NamedSlice;
use muadb::catalog_schema::Schema;
use muadb::catalog_schema::SchemaEnum;
use muadb::catalog_schema::SchemaRef;
use muadb::data_schema::DSchemaEnum;
use muadb::data_schema::F64;
use muadb::data_schema::I32;
use muadb::data_schema::I64;
use muadb::data_schema::Pair;

#[test]
fn tuple_serde() {
    // This case will fail if children schema is not aligned.
    let i16s = Schema::encode(&SchemaEnum::I16);
    let i32s = Schema::encode(&SchemaEnum::I32);
    let f32s = Schema::encode(&SchemaEnum::F32);
    let mut inner = AnonySlice::empty();
    inner.push(i16s.as_ref());
    inner.push(i32s.as_ref());
    inner.push(f32s.as_ref());
    let schema = Schema::encode(&SchemaEnum::Tuple(inner));
    let mut outer = AnonySlice::empty();
    outer.push(i16s.as_ref());
    outer.push(i32s.as_ref());
    outer.push(schema.as_ref());
    outer.push(schema.as_ref());
    let schema = Schema::encode(&SchemaEnum::Tuple(outer));
    println!("{}", schema.as_ref().render());
}

#[test]
fn struct_serde() {
    let i16s = Schema::encode(&SchemaEnum::I16);
    let i32s = Schema::encode(&SchemaEnum::I32);
    let mut fields = NamedSlice::empty();
    fields.push("i16", i16s.as_ref());
    fields.push("i32", i32s.as_ref());
    let schema = Schema::encode(&SchemaEnum::Struct(fields));
    assert!(schema.as_ref().render().as_str() == r#"Struct({"i16": I16, "i32": I32})"#);
}

#[test]
fn encode_decode() {
    let i32 = I32::encode(&[]);
    let i64 = I64::encode(&[]);
    let f64 = F64::encode(&[]);
    let i32 = i32.as_ref();
    let i64 = i64.as_ref();
    let f64 = f64.as_ref();
    let inner = Pair::encode(&[i32, i64]);
    let pair = Pair::encode(&[inner.as_ref(), f64]);
    assert!("Pair(Pair(I32, I64), F64)" == pair.as_ref().render().as_str());
}

#[test]
fn catalog_roundtrip_struct() {
    let i16s = Schema::encode(&SchemaEnum::I16);
    let strs = Schema::encode(&SchemaEnum::Str);
    let mut fields = NamedSlice::empty();
    fields.push("key", i16s.as_ref());
    fields.push("name", strs.as_ref());
    let schema = Schema::encode(&SchemaEnum::Struct(fields));
    match schema.as_ref().decode() {
        SchemaEnum::Struct(back) => {
            assert_eq!(back.len(), 2);
            let (n0, s0) = back.get(0);
            assert_eq!(n0.as_str(), "key");
            assert_eq!(s0.as_bytes(), i16s.as_ref().as_bytes());
            let (n1, s1) = back.get(1);
            assert_eq!(n1.as_str(), "name");
            assert_eq!(s1.as_bytes(), strs.as_ref().as_bytes());
        }
        _ => panic!("expected a struct"),
    }
}

#[test]
fn catalog_roundtrip_tuple() {
    let u8s = Schema::encode(&SchemaEnum::U8);
    let nils = Schema::encode(&SchemaEnum::Nil);
    let mut items = AnonySlice::empty();
    items.push(u8s.as_ref());
    items.push(nils.as_ref());
    let schema = Schema::encode(&SchemaEnum::Tuple(items));
    match schema.as_ref().decode() {
        SchemaEnum::Tuple(back) => {
            assert_eq!(back.len(), 2);
            assert_eq!(back.get(0).as_bytes(), u8s.as_ref().as_bytes());
            assert_eq!(back.get(1).as_bytes(), nils.as_ref().as_bytes());
        }
        _ => panic!("expected a tuple"),
    }
}

#[test]
fn catalog_enum_renders_as_map() {
    let u8s = Schema::encode(&SchemaEnum::U8);
    let mut fields = NamedSlice::empty();
    fields.push("tag", u8s.as_ref());
    let schema = Schema::encode(&SchemaEnum::Enum(fields));
    assert!(schema.as_ref().render().as_str() == r#"Enum({"tag": U8})"#);
}

#[test]
fn catalog_array_decodes_to_element() {
    // An array layer carries only its tag; the rest of the bytes are the
    // element schema.
    let r = SchemaRef { bytes: &[16u8, 1u8] };
    match r.decode() {
        SchemaEnum::Array(elem) => assert_eq!(elem.as_bytes(), &[16u8]),
        _ => panic!("expected an array"),
    }
}

#[test]
fn catalog_padding_is_skipped() {
    let r = SchemaRef { bytes: &[16u8, 0u8, 0u8] };
    assert!(matches!(r.decode(), SchemaEnum::I64));
}

#[test]
fn data_schema_pair_decodes() {
    let i32s = I32::encode(&[]);
    let i64s = I64::encode(&[]);
    let pair = Pair::encode(&[i32s.as_ref(), i64s.as_ref()]);
    match pair.as_ref().decode() {
        DSchemaEnum::Pair(_, second, first) => {
            assert_eq!(first.len(), 1);
            assert_eq!(second.len(), 1);
            assert!(matches!(first.decode(), DSchemaEnum::I32));
            assert!(matches!(second.decode(), DSchemaEnum::I64));
        }
        _ => panic!("expected a pair"),
    }
}

#[test]
fn data_schema_columns_and_layout() {
    let i64s = I64::encode(&[]);
    assert_eq!(i64s.as_ref().num_columns(), 1);
    let layout = i64s.as_ref().scalar_layout();
    assert_eq!(layout.size, 8);
    assert_eq!(layout.align, 8);

    let strs = muadb::data_schema::Str::encode(&[]);
    assert_eq!(strs.as_ref().num_columns(), 2);

    let i32s = I32::encode(&[]);
    let pair = Pair::encode(&[i32s.as_ref(), i64s.as_ref()]);
    assert_eq!(pair.as_ref().num_columns(), 2);
}

#[test]
fn catalog_array_encodes_tag_only() {
    // An array layer records only its tag; its element is carried by
    // the surrounding bytes.
    let elem = SchemaRef { bytes: &[16u8] };
    let schema = Schema::encode(&SchemaEnum::Array(elem));
    assert_eq!(schema.as_ref().as_bytes(), &[1u8]);
}
