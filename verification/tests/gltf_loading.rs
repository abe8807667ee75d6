use xd_engine::gltf::{
    load_gltf_mesh, load_gltf_text, read_le_u16, read_le_u32, GltfError, Vec3Bits, ONE_BITS,
};
use xd_engine::json::{parse_json, JsonValue};

fn num(n: u64) -> JsonValue {
    JsonValue::Number(Some(n))
}

fn obj(entries: Vec<(&str, JsonValue)>) -> JsonValue {
    JsonValue::Object(entries.into_iter().map(|(k, v)| (k.to_string(), v)).collect())
}

fn arr(items: Vec<JsonValue>) -> JsonValue {
    JsonValue::Array(items)
}

/// A document with a position accessor (0), an index accessor (1) and,
/// where `with_normals`, a normal accessor (2).
fn doc(index_type: u64, index_count: u64, with_normals: bool) -> JsonValue {
    let mut attributes = vec![("POSITION", num(0))];
    if with_normals {
        attributes.push(("NORMAL", num(2)));
    }
    obj(vec![
        (
            "accessors",
            arr(vec![
                obj(vec![("count", num(2)), ("bufferView", num(0))]),
                obj(vec![
                    ("count", num(index_count)),
                    ("bufferView", num(1)),
                    ("componentType", num(index_type)),
                ]),
                obj(vec![("count", num(2)), ("bufferView", num(0)), ("byteOffset", num(24))]),
            ]),
        ),
        (
            "bufferViews",
            arr(vec![obj(vec![("byteOffset", num(0))]), obj(vec![("byteOffset", num(48))])]),
        ),
        (
            "meshes",
            arr(vec![obj(vec![(
                "primitives",
                arr(vec![obj(vec![("attributes", obj(attributes)), ("indices", num(1))])]),
            )])]),
        ),
    ])
}

fn bin() -> Vec<u8> {
    let mut b = Vec::new();
    // positions (0,0,0) and (1,2,3), then normals (0,1,0) twice
    for f in [0.0f32, 0.0, 0.0, 1.0, 2.0, 3.0, 0.0, 1.0, 0.0, 0.0, 1.0, 0.0] {
        b.extend_from_slice(&f.to_le_bytes());
    }
    // three indices 0, 1, 0x0302 as u16, or as the start of u32 data
    b.extend_from_slice(&[0, 0, 1, 0, 2, 3, 0, 0, 0, 0, 0, 0]);
    b
}

fn bits(x: f32, y: f32, z: f32) -> Vec3Bits {
    Vec3Bits { x: x.to_bits(), y: y.to_bits(), z: z.to_bits() }
}

#[test]
fn loads_positions_and_u16_indices_with_default_normals() {
    let mesh = load_gltf_mesh(&doc(5123, 3, false), &bin()).unwrap();
    assert_eq!(mesh.positions, vec![bits(0.0, 0.0, 0.0), bits(1.0, 2.0, 3.0)]);
    assert_eq!(mesh.normals, vec![bits(0.0, 0.0, 1.0), bits(0.0, 0.0, 1.0)]);
    assert_eq!(mesh.indices, vec![0, 1, 0x0302]);
    assert_eq!(ONE_BITS, 1.0f32.to_bits());
}

#[test]
fn loads_u32_indices() {
    let mesh = load_gltf_mesh(&doc(5125, 2, false), &bin()).unwrap();
    assert_eq!(mesh.indices, vec![0x0001_0000, 0x0000_0302]);
}

#[test]
fn loads_normals_when_present() {
    let mesh = load_gltf_mesh(&doc(5123, 3, true), &bin()).unwrap();
    assert_eq!(mesh.normals, vec![bits(0.0, 1.0, 0.0), bits(0.0, 1.0, 0.0)]);
}

#[test]
fn unsupported_index_type_is_an_error() {
    let r = load_gltf_mesh(&doc(5126, 3, false), &bin());
    assert_eq!(r.err(), Some(GltfError::UnsupportedComponentType(5126)));
}

#[test]
fn unsupported_index_type_without_indices_loads() {
    let mesh = load_gltf_mesh(&doc(5126, 0, false), &bin()).unwrap();
    assert!(mesh.indices.is_empty());
    assert_eq!(mesh.positions.len(), 2);
}

#[test]
fn missing_parts_are_errors() {
    let empty = obj(vec![]);
    assert_eq!(load_gltf_mesh(&empty, &[]).err(), Some(GltfError::MissingAccessors));
    let no_views = obj(vec![("accessors", arr(vec![]))]);
    assert_eq!(load_gltf_mesh(&no_views, &[]).err(), Some(GltfError::MissingBufferViews));
    let no_mesh = obj(vec![("accessors", arr(vec![])), ("bufferViews", arr(vec![]))]);
    assert_eq!(load_gltf_mesh(&no_mesh, &[]).err(), Some(GltfError::MissingPositionAttribute));
    let no_indices = obj(vec![
        ("accessors", arr(vec![])),
        ("bufferViews", arr(vec![])),
        (
            "meshes",
            arr(vec![obj(vec![(
                "primitives",
                arr(vec![obj(vec![("attributes", obj(vec![("POSITION", num(0))]))])]),
            )])]),
        ),
    ]);
    assert_eq!(load_gltf_mesh(&no_indices, &[]).err(), Some(GltfError::MissingIndices));
}

fn doc_with_accessors(position: JsonValue, index: JsonValue) -> JsonValue {
    obj(vec![
        ("accessors", arr(vec![position, index])),
        ("bufferViews", arr(vec![obj(vec![])])),
        (
            "meshes",
            arr(vec![obj(vec![(
                "primitives",
                arr(vec![obj(vec![
                    ("attributes", obj(vec![("POSITION", num(0))])),
                    ("indices", num(1)),
                ])]),
            )])]),
        ),
    ])
}

#[test]
fn accessor_fields_are_required() {
    let good_pos = || obj(vec![("count", num(0)), ("bufferView", num(0))]);
    let good_idx = || obj(vec![("count", num(0)), ("bufferView", num(0)), ("componentType", num(5125))]);
    let r = load_gltf_mesh(&doc_with_accessors(obj(vec![]), good_idx()), &[]);
    assert_eq!(r.err(), Some(GltfError::MissingAccessorCount));
    let r = load_gltf_mesh(&doc_with_accessors(obj(vec![("count", num(0))]), good_idx()), &[]);
    assert_eq!(r.err(), Some(GltfError::MissingBufferView));
    let r = load_gltf_mesh(&doc_with_accessors(good_pos(), obj(vec![])), &[]);
    assert_eq!(r.err(), Some(GltfError::MissingIndexCount));
    let r = load_gltf_mesh(&doc_with_accessors(good_pos(), obj(vec![("count", num(0))])), &[]);
    assert_eq!(r.err(), Some(GltfError::MissingIndexBufferView));
    let r = load_gltf_mesh(
        &doc_with_accessors(good_pos(), obj(vec![("count", num(0)), ("bufferView", num(0))])),
        &[],
    );
    assert_eq!(r.err(), Some(GltfError::MissingComponentType));
    let mesh = load_gltf_mesh(&doc_with_accessors(good_pos(), good_idx()), &[]).unwrap();
    assert!(mesh.positions.is_empty() && mesh.normals.is_empty() && mesh.indices.is_empty());
}

#[test]
fn reads_past_the_buffer_are_errors() {
    let short = &bin()[..20];
    assert_eq!(load_gltf_mesh(&doc(5123, 3, false), short).err(), Some(GltfError::DataOutOfRange));
    let short_indices = &bin()[..50];
    assert_eq!(load_gltf_mesh(&doc(5123, 3, false), short_indices).err(), Some(GltfError::DataOutOfRange));
    let bad_view = doc_with_accessors(
        obj(vec![("count", num(1)), ("bufferView", num(5))]),
        obj(vec![]),
    );
    assert_eq!(
        load_gltf_mesh(&bad_view, &[0; 12]).err(),
        Some(GltfError::BufferViewIndexOutOfRange(5))
    );
    assert!(load_gltf_mesh(&doc(5123, 3, false), &bin()).is_ok());
}

#[test]
fn accessor_indices_out_of_range_are_errors() {
    let d = |position: u64, indices: u64| {
        obj(vec![
            ("accessors", arr(vec![obj(vec![("count", num(0)), ("bufferView", num(0))])])),
            ("bufferViews", arr(vec![obj(vec![])])),
            (
                "meshes",
                arr(vec![obj(vec![(
                    "primitives",
                    arr(vec![obj(vec![
                        ("attributes", obj(vec![("POSITION", num(position))])),
                        ("indices", num(indices)),
                    ])]),
                )])]),
            ),
        ])
    };
    assert_eq!(load_gltf_mesh(&d(3, 0), &[]).err(), Some(GltfError::AccessorIndexOutOfRange(3)));
    assert_eq!(load_gltf_mesh(&d(0, 7), &[]).err(), Some(GltfError::AccessorIndexOutOfRange(7)));
}

#[test]
fn little_endian_reads() {
    let b = [0x78u8, 0x56, 0x34, 0x12, 0xff, 0xff];
    assert_eq!(read_le_u32(&b, 0), 0x1234_5678);
    assert_eq!(read_le_u16(&b, 1), 0x3456);
    assert_eq!(read_le_u16(&b, 4), 0xffff);
    assert_eq!(read_le_u32(&b, 2), 0xffff_1234);
}

#[test]
fn offset_overflow_is_an_error() {
    let d = doc_with_accessors(
        obj(vec![("count", num(0)), ("bufferView", num(0)), ("byteOffset", num(1))]),
        obj(vec![]),
    );
    assert!(load_gltf_mesh(&d, &[]).err() != Some(GltfError::OffsetOverflow));
    let views_overflow = obj(vec![
        (
            "accessors",
            arr(vec![obj(vec![("count", num(0)), ("bufferView", num(0)), ("byteOffset", num(1))])]),
        ),
        ("bufferViews", arr(vec![obj(vec![("byteOffset", num(u64::MAX))])])),
        (
            "meshes",
            arr(vec![obj(vec![(
                "primitives",
                arr(vec![obj(vec![
                    ("attributes", obj(vec![("POSITION", num(0))])),
                    ("indices", num(0)),
                ])]),
            )])]),
        ),
    ]);
    assert_eq!(load_gltf_mesh(&views_overflow, &[]).err(), Some(GltfError::OffsetOverflow));
}

#[test]
fn huge_index_counts_are_errors_before_the_type_check() {
    let pos = || obj(vec![("count", num(0)), ("bufferView", num(0))]);
    let huge = doc_with_accessors(
        pos(),
        obj(vec![("count", num(1 << 62)), ("bufferView", num(0)), ("componentType", num(5126))]),
    );
    assert_eq!(load_gltf_mesh(&huge, &[]).err(), Some(GltfError::CountTooLarge(1 << 62)));
    let large = doc_with_accessors(
        pos(),
        obj(vec![("count", num(1 << 60)), ("bufferView", num(0)), ("componentType", num(5126))]),
    );
    assert_eq!(
        load_gltf_mesh(&large, &[]).err(),
        Some(GltfError::UnsupportedComponentType(5126))
    );
}

#[test]
fn loads_from_json_text() {
    let text = r#"{
        "accessors": [
            {"count": 2, "bufferView": 0},
            {"count": 3, "bufferView": 1, "componentType": 5123}
        ],
        "bufferViews": [{"byteOffset": 0}, {"byteOffset": 48}],
        "meshes": [{"primitives": [{"attributes": {"POSITION": 0}, "indices": 1}]}]
    }"#;
    let mesh = load_gltf_text(text, &bin()).unwrap();
    assert_eq!(mesh.positions, vec![bits(0.0, 0.0, 0.0), bits(1.0, 2.0, 3.0)]);
    assert_eq!(mesh.indices, vec![0, 1, 0x0302]);
    assert_eq!(load_gltf_text("{ not json", &bin()).err(), Some(GltfError::NotJson));
    assert_eq!(load_gltf_text("[]", &bin()).err(), Some(GltfError::MissingAccessors));
}

#[test]
fn json_text_parses_into_the_model() {
    let v = parse_json(r#"{"a": [1, -2, 2.5, "s", true, null], "b": {}}"#).unwrap();
    assert_eq!(
        v,
        JsonValue::Object(vec![
            (
                "a".to_string(),
                JsonValue::Array(vec![
                    JsonValue::Number(Some(1)),
                    JsonValue::Number(None),
                    JsonValue::Number(None),
                    JsonValue::Str("s".to_string()),
                    JsonValue::Bool(true),
                    JsonValue::Null,
                ]),
            ),
            ("b".to_string(), JsonValue::Object(vec![])),
        ])
    );
    assert_eq!(parse_json("7"), Some(JsonValue::Number(Some(7))));
    assert_eq!(parse_json("{"), None);
}
