//! Decoding of the first mesh primitive of a glTF document: the JSON part
//! names accessors and buffer views, the binary part holds the data.
//!
//! Vertex components are IEEE-754 single-precision numbers stored little
//! endian; they are returned as their raw bit patterns (`f32::from_bits`
//! gives the number back).
use vstd::prelude::*;
use crate::json::{JsonValue, member, element, as_u64_of, as_array_of, member_of, element_of, u64_of, parse_json, parsed_json};

verus! {

/// Accessor component type of unsigned 16-bit indices.
pub const COMPONENT_U16: u64 = 5123;

/// Accessor component type of unsigned 32-bit indices.
pub const COMPONENT_U32: u64 = 5125;

/// Bit pattern of the single-precision number `1.0`.
pub const ONE_BITS: u32 = 0x3f80_0000;

/// Three single-precision components, each by its bit pattern.
#[derive(Clone, Copy, PartialEq, Eq, Debug)]
pub struct Vec3Bits {
    pub x: u32,
    pub y: u32,
    pub z: u32,
}

/// Why a document does not describe a mesh the loader can read.
#[derive(Clone, Copy, PartialEq, Eq, Debug)]
pub enum GltfError {
    MissingAccessors,
    MissingBufferViews,
    MissingPositionAttribute,
    MissingIndices,
    MissingAccessorCount,
    MissingBufferView,
    MissingIndexCount,
    MissingIndexBufferView,
    MissingComponentType,
    UnsupportedComponentType(u64),
    /// An accessor index names no accessor.
    AccessorIndexOutOfRange(u64),
    /// A buffer view index names no buffer view.
    BufferViewIndexOutOfRange(u64),
    /// The two byte offsets of an accessor add up past `u64::MAX`.
    OffsetOverflow,
    /// An accessor's `count` asks for more than `isize::MAX` bytes.
    CountTooLarge(u64),
    /// An accessor's data runs past the end of the binary buffer.
    DataOutOfRange,
    /// The document text is not JSON.
    NotJson,
}

/// The decoded mesh: positions, normals and triangle indices.
pub struct GltfMesh {
    pub positions: Vec<Vec3Bits>,
    pub normals: Vec<Vec3Bits>,
    pub indices: Vec<u32>,
}

impl View for GltfMesh {
    type V = (Seq<Vec3Bits>, Seq<Vec3Bits>, Seq<u32>);

    open spec fn view(&self) -> (Seq<Vec3Bits>, Seq<Vec3Bits>, Seq<u32>) {
        (self.positions@, self.normals@, self.indices@)
    }
}

/// The unsigned 16-bit number stored little endian at `p`.
pub open spec fn le_u16(bin: Seq<u8>, p: int) -> int {
    bin[p] + 256 * bin[p + 1]
}

/// The unsigned 32-bit number stored little endian at `p`.
pub open spec fn le_u32(bin: Seq<u8>, p: int) -> int {
    bin[p] + 256 * bin[p + 1] + 65536 * bin[p + 2] + 16777216 * bin[p + 3]
}

/// The three 32-bit components stored one after the other at `p`.
pub open spec fn vec3_at(bin: Seq<u8>, p: int) -> Vec3Bits {
    Vec3Bits {
        x: le_u32(bin, p) as u32,
        y: le_u32(bin, p + 4) as u32,
        z: le_u32(bin, p + 8) as u32,
    }
}

/// An optional number, absent counting as zero.
pub open spec fn or_zero(n: Option<u64>) -> int {
    match n {
        Some(v) => v as int,
        None => 0,
    }
}

/// Where an accessor's data starts: its buffer view's `byteOffset` plus its
/// own, each zero where absent.
pub open spec fn data_offset(view: JsonValue, accessor: JsonValue) -> int {
    or_zero(as_u64_of(member(view, "byteOffset"@))) + or_zero(as_u64_of(member(accessor, "byteOffset"@)))
}

/// What reading a three-component accessor gives: the first error met, or
/// the vectors.
pub open spec fn vec3_accessor_outcome(accessor: JsonValue, views: Seq<JsonValue>, bin: Seq<u8>)
    -> Result<Seq<Vec3Bits>, GltfError>
{
    match as_u64_of(member(accessor, "count"@)) {
        None => Err(GltfError::MissingAccessorCount),
        Some(count) => match as_u64_of(member(accessor, "bufferView"@)) {
            None => Err(GltfError::MissingBufferView),
            Some(bv) => if bv >= views.len() {
                Err(GltfError::BufferViewIndexOutOfRange(bv))
            } else {
                let offset = data_offset(views[bv as int], accessor);
                if offset > u64::MAX {
                    Err(GltfError::OffsetOverflow)
                } else if 12 * count > isize::MAX {
                    Err(GltfError::CountTooLarge(count))
                } else if count > 0 && offset + 12 * count > bin.len() {
                    Err(GltfError::DataOutOfRange)
                } else {
                    Ok(Seq::new(count as nat, |i: int| vec3_at(bin, offset + 12 * i)))
                }
            },
        },
    }
}

/// The index at position `i` of an index accessor whose data starts at
/// `offset`.
pub open spec fn index_at(bin: Seq<u8>, component_type: u64, offset: int, i: int) -> u32 {
    if component_type == COMPONENT_U16 {
        le_u16(bin, offset + 2 * i) as u32
    } else {
        le_u32(bin, offset + 4 * i) as u32
    }
}

/// Bytes per index of a supported component type.
pub open spec fn index_width(component_type: u64) -> int {
    if component_type == COMPONENT_U16 { 2 } else { 4 }
}

/// What reading the index accessor gives: the first error met, or the
/// indices. An unsupported component type is only noticed when there is an
/// index to read.
pub open spec fn index_accessor_outcome(accessor: JsonValue, views: Seq<JsonValue>, bin: Seq<u8>)
    -> Result<Seq<u32>, GltfError>
{
    match as_u64_of(member(accessor, "count"@)) {
        None => Err(GltfError::MissingIndexCount),
        Some(count) => match as_u64_of(member(accessor, "bufferView"@)) {
            None => Err(GltfError::MissingIndexBufferView),
            Some(bv) => if bv >= views.len() {
                Err(GltfError::BufferViewIndexOutOfRange(bv))
            } else {
                let offset = data_offset(views[bv as int], accessor);
                if offset > u64::MAX {
                    Err(GltfError::OffsetOverflow)
                } else {
                    match as_u64_of(member(accessor, "componentType"@)) {
                        None => Err(GltfError::MissingComponentType),
                        Some(ct) => if 4 * count > isize::MAX {
                            Err(GltfError::CountTooLarge(count))
                        } else if count == 0 {
                            Ok(Seq::empty())
                        } else if ct != COMPONENT_U16 && ct != COMPONENT_U32 {
                            Err(GltfError::UnsupportedComponentType(ct))
                        } else if offset + index_width(ct) * count > bin.len() {
                            Err(GltfError::DataOutOfRange)
                        } else {
                            Ok(Seq::new(count as nat, |i: int| index_at(bin, ct, offset, i)))
                        },
                    }
                }
            },
        },
    }
}

/// The primitive the loader reads: `meshes[0].primitives[0]`.
pub open spec fn first_primitive(doc: JsonValue) -> JsonValue {
    element(member(element(member(doc, "meshes"@), 0), "primitives"@), 0)
}

/// The normal given to every vertex of a primitive without normals: +Z.
pub open spec fn default_normal() -> Vec3Bits {
    Vec3Bits { x: 0, y: 0, z: ONE_BITS }
}

/// The normals of a primitive, once its positions are known.
pub open spec fn normals_outcome(doc: JsonValue, accessors: Seq<JsonValue>, views: Seq<JsonValue>,
    bin: Seq<u8>, vertex_count: nat) -> Result<Seq<Vec3Bits>, GltfError>
{
    match as_u64_of(member(member(first_primitive(doc), "attributes"@), "NORMAL"@)) {
        Some(n) => if n >= accessors.len() {
            Err(GltfError::AccessorIndexOutOfRange(n))
        } else {
            vec3_accessor_outcome(accessors[n as int], views, bin)
        },
        None => Ok(Seq::new(vertex_count, |i: int| default_normal())),
    }
}

/// What loading the first primitive gives: the first error met, or the mesh
/// as positions, normals and indices.
pub open spec fn mesh_outcome(doc: JsonValue, bin: Seq<u8>)
    -> Result<(Seq<Vec3Bits>, Seq<Vec3Bits>, Seq<u32>), GltfError>
{
    match as_array_of(member(doc, "accessors"@)) {
        None => Err(GltfError::MissingAccessors),
        Some(accessors) => match as_array_of(member(doc, "bufferViews"@)) {
            None => Err(GltfError::MissingBufferViews),
            Some(views) => {
                let primitive = first_primitive(doc);
                match as_u64_of(member(member(primitive, "attributes"@), "POSITION"@)) {
                    None => Err(GltfError::MissingPositionAttribute),
                    Some(pos) => match as_u64_of(member(primitive, "indices"@)) {
                        None => Err(GltfError::MissingIndices),
                        Some(idx) => if pos >= accessors.len() {
                            Err(GltfError::AccessorIndexOutOfRange(pos))
                        } else {
                            match vec3_accessor_outcome(accessors[pos as int], views, bin) {
                                Err(e) => Err(e),
                                Ok(positions) => match normals_outcome(doc, accessors, views, bin, positions.len()) {
                                    Err(e) => Err(e),
                                    Ok(normals) => if idx >= accessors.len() {
                                        Err(GltfError::AccessorIndexOutOfRange(idx))
                                    } else {
                                        match index_accessor_outcome(accessors[idx as int], views, bin) {
                                            Err(e) => Err(e),
                                            Ok(indices) => Ok((positions, normals, indices)),
                                        }
                                    },
                                },
                            }
                        },
                    },
                }
            },
        },
    }
}

/// What loading a document given as text gives: `NotJson` where the text
/// does not parse, else what loading the parsed document gives.
pub open spec fn text_outcome(text: Seq<char>, bin: Seq<u8>)
    -> Result<(Seq<Vec3Bits>, Seq<Vec3Bits>, Seq<u32>), GltfError>
{
    match parsed_json(text) {
        None => Err(GltfError::NotJson),
        Some(doc) => mesh_outcome(doc, bin),
    }
}

/// A result holding a vector, seen through the vector's view.
pub open spec fn seq_outcome<T>(r: Result<Vec<T>, GltfError>) -> Result<Seq<T>, GltfError> {
    match r {
        Err(e) => Err(e),
        Ok(v) => Ok(v@),
    }
}

/// A loader result, seen through the mesh's view.
pub open spec fn mesh_view(r: Result<GltfMesh, GltfError>)
    -> Result<(Seq<Vec3Bits>, Seq<Vec3Bits>, Seq<u32>), GltfError>
{
    match r {
        Err(e) => Err(e),
        Ok(m) => Ok(m@),
    }
}

/// The accessors of a document, where it has an array of them.
pub open spec fn accessors_of(doc: JsonValue) -> Seq<JsonValue> {
    as_array_of(member(doc, "accessors"@)).unwrap()
}

/// The `count` an accessor declares.
pub open spec fn declared_count(accessor: JsonValue) -> int {
    or_zero(as_u64_of(member(accessor, "count"@)))
}

/// A loaded mesh has as many positions as its position accessor declares
/// and as many indices as its index accessor declares.
pub proof fn lemma_loaded_counts(doc: JsonValue, bin: Seq<u8>, positions: Seq<Vec3Bits>,
    normals: Seq<Vec3Bits>, indices: Seq<u32>)
    requires
        mesh_outcome(doc, bin) == Ok::<_, GltfError>((positions, normals, indices)),
    ensures
        positions.len() == declared_count(accessors_of(doc)[as_u64_of(
            member(member(first_primitive(doc), "attributes"@), "POSITION"@),
        ).unwrap() as int]),
        indices.len() == declared_count(accessors_of(doc)[as_u64_of(
            member(first_primitive(doc), "indices"@),
        ).unwrap() as int]),
{
}

/// A primitive without normals gets the default normal once per position.
pub proof fn lemma_default_normals(doc: JsonValue, bin: Seq<u8>, positions: Seq<Vec3Bits>,
    normals: Seq<Vec3Bits>, indices: Seq<u32>)
    requires
        mesh_outcome(doc, bin) == Ok::<_, GltfError>((positions, normals, indices)),
        as_u64_of(member(member(first_primitive(doc), "attributes"@), "NORMAL"@)) is None,
    ensures
        normals.len() == positions.len(),
        forall|j: int| 0 <= j < normals.len() ==> #[trigger] normals[j] == default_normal(),
        forall|j: int| 0 <= j < normals.len() ==> #[trigger] normals[j] == (Vec3Bits {
            x: 0,
            y: 0,
            z: 0x3f80_0000,
        }),
{
}

/// Indices stored in 16 bits are below 65536.
pub proof fn lemma_short_indices_fit(doc: JsonValue, bin: Seq<u8>, positions: Seq<Vec3Bits>,
    normals: Seq<Vec3Bits>, indices: Seq<u32>)
    requires
        mesh_outcome(doc, bin) == Ok::<_, GltfError>((positions, normals, indices)),
        as_u64_of(member(accessors_of(doc)[as_u64_of(member(first_primitive(doc), "indices"@)).unwrap() as int],
            "componentType"@)) == Some(COMPONENT_U16),
    ensures
        forall|j: int| 0 <= j < indices.len() ==> #[trigger] indices[j] < 65536,
{
}

/// The little-endian 32-bit number in the four bytes from `p`, spelled out.
pub open spec fn bytes_le32(bin: Seq<u8>, p: int) -> int {
    bin[p] as int + bin[p + 1] as int * 256 + bin[p + 2] as int * 65536 + bin[p + 3] as int * 16777216
}

/// A three-component accessor whose data fits in the binary buffer (it may
/// end exactly at the buffer's end) is read: `count` vectors, vector `i`
/// from the 12 bytes at `offset + 12 i`, where `offset` is the buffer view's
/// `byteOffset` plus the accessor's, each zero where absent.
pub proof fn lemma_vec3_accessor_reads_fitting_data(accessor: JsonValue, views: Seq<JsonValue>,
    bin: Seq<u8>, count: u64, bv: u64)
    requires
        as_u64_of(member(accessor, "count"@)) == Some(count),
        as_u64_of(member(accessor, "bufferView"@)) == Some(bv),
        bv < views.len(),
        12 * count <= isize::MAX,
        ({
            let offset = or_zero(as_u64_of(member(views[bv as int], "byteOffset"@))) + or_zero(
                as_u64_of(member(accessor, "byteOffset"@)),
            );
            offset <= u64::MAX && offset + 12 * count <= bin.len()
        }),
    ensures
        ({
            let offset = or_zero(as_u64_of(member(views[bv as int], "byteOffset"@))) + or_zero(
                as_u64_of(member(accessor, "byteOffset"@)),
            );
            &&& vec3_accessor_outcome(accessor, views, bin) is Ok
            &&& vec3_accessor_outcome(accessor, views, bin)->Ok_0.len() == count
            &&& forall|i: int| #![trigger vec3_accessor_outcome(accessor, views, bin)->Ok_0[i]]
                0 <= i < count ==> {
                    let v = vec3_accessor_outcome(accessor, views, bin)->Ok_0[i];
                    &&& v.x as int == bytes_le32(bin, offset + 12 * i)
                    &&& v.y as int == bytes_le32(bin, offset + 12 * i + 4)
                    &&& v.z as int == bytes_le32(bin, offset + 12 * i + 8)
                }
        }),
{
    let offset = data_offset(views[bv as int], accessor);
    let r = vec3_accessor_outcome(accessor, views, bin);
    assert forall|i: int| 0 <= i < count implies {
        let v = #[trigger] r->Ok_0[i];
        &&& v.x as int == bytes_le32(bin, offset + 12 * i)
        &&& v.y as int == bytes_le32(bin, offset + 12 * i + 4)
        &&& v.z as int == bytes_le32(bin, offset + 12 * i + 8)
    } by {
        assert(r->Ok_0[i] == vec3_at(bin, offset + 12 * i));
    }
}

/// An index accessor of a supported component type whose data fits in the
/// binary buffer (it may end exactly at the buffer's end) is read: `count`
/// indices, index `i` from the 2 (16-bit) or 4 (32-bit) bytes at
/// `offset + width i`.
pub proof fn lemma_index_accessor_reads_fitting_data(accessor: JsonValue, views: Seq<JsonValue>,
    bin: Seq<u8>, count: u64, bv: u64, ct: u64)
    requires
        as_u64_of(member(accessor, "count"@)) == Some(count),
        as_u64_of(member(accessor, "bufferView"@)) == Some(bv),
        as_u64_of(member(accessor, "componentType"@)) == Some(ct),
        ct == 5123 || ct == 5125,
        bv < views.len(),
        4 * count <= isize::MAX,
        ({
            let offset = or_zero(as_u64_of(member(views[bv as int], "byteOffset"@))) + or_zero(
                as_u64_of(member(accessor, "byteOffset"@)),
            );
            let width = if ct == 5123 { 2int } else { 4int };
            offset <= u64::MAX && offset + width * count <= bin.len()
        }),
    ensures
        ({
            let offset = or_zero(as_u64_of(member(views[bv as int], "byteOffset"@))) + or_zero(
                as_u64_of(member(accessor, "byteOffset"@)),
            );
            &&& index_accessor_outcome(accessor, views, bin) is Ok
            &&& index_accessor_outcome(accessor, views, bin)->Ok_0.len() == count
            &&& forall|i: int| #![trigger index_accessor_outcome(accessor, views, bin)->Ok_0[i]]
                0 <= i < count ==> index_accessor_outcome(accessor, views, bin)->Ok_0[i] as int == if ct
                    == 5123 {
                    bin[offset + 2 * i] as int + bin[offset + 2 * i + 1] as int * 256
                } else {
                    bytes_le32(bin, offset + 4 * i)
                }
        }),
{
    let offset = data_offset(views[bv as int], accessor);
    let r = index_accessor_outcome(accessor, views, bin);
    assert forall|i: int| 0 <= i < count implies #[trigger] r->Ok_0[i] as int == if ct == 5123 {
        bin[offset + 2 * i] as int + bin[offset + 2 * i + 1] as int * 256
    } else {
        bytes_le32(bin, offset + 4 * i)
    } by {
        assert(r->Ok_0[i] == index_at(bin, ct, offset, i));
    }
}

/// The loader checks the document top-down and reports the first thing
/// missing: the `accessors` array, then the `bufferViews` array, then the
/// first primitive's `POSITION` attribute, then its `indices`, then whether
/// the `POSITION` accessor exists.
pub proof fn lemma_first_missing_part_is_reported(doc: JsonValue, bin: Seq<u8>)
    ensures
        ({
            let prim = element(member(element(member(doc, "meshes"@), 0), "primitives"@), 0);
            let pos = as_u64_of(member(member(prim, "attributes"@), "POSITION"@));
            let idx = as_u64_of(member(prim, "indices"@));
            let accessors = as_array_of(member(doc, "accessors"@));
            let views = as_array_of(member(doc, "bufferViews"@));
            &&& accessors is None ==> mesh_outcome(doc, bin) == Err::<(Seq<Vec3Bits>, Seq<Vec3Bits>, Seq<u32>), GltfError>(
                GltfError::MissingAccessors)
            &&& accessors is Some && views is None ==> mesh_outcome(doc, bin) == Err::<
                (Seq<Vec3Bits>, Seq<Vec3Bits>, Seq<u32>),
                GltfError,
            >(GltfError::MissingBufferViews)
            &&& accessors is Some && views is Some && pos is None ==> mesh_outcome(doc, bin) == Err::<
                (Seq<Vec3Bits>, Seq<Vec3Bits>, Seq<u32>),
                GltfError,
            >(GltfError::MissingPositionAttribute)
            &&& accessors is Some && views is Some && pos is Some && idx is None ==> mesh_outcome(doc, bin)
                == Err::<(Seq<Vec3Bits>, Seq<Vec3Bits>, Seq<u32>), GltfError>(GltfError::MissingIndices)
            &&& accessors is Some && views is Some && pos is Some && idx is Some && pos.unwrap()
                >= accessors.unwrap().len() ==> mesh_outcome(doc, bin) == Err::<
                (Seq<Vec3Bits>, Seq<Vec3Bits>, Seq<u32>),
                GltfError,
            >(GltfError::AccessorIndexOutOfRange(pos.unwrap()))
        }),
{
}

/// An index accessor with no indices reads as empty, whatever its component
/// type, once its count, buffer view and component type are present and in
/// range.
pub proof fn lemma_no_indices_read_empty(accessor: JsonValue, views: Seq<JsonValue>, bin: Seq<u8>,
    bv: u64)
    requires
        as_u64_of(member(accessor, "count"@)) == Some(0u64),
        as_u64_of(member(accessor, "bufferView"@)) == Some(bv),
        as_u64_of(member(accessor, "componentType"@)) is Some,
        bv < views.len(),
        or_zero(as_u64_of(member(views[bv as int], "byteOffset"@))) + or_zero(
            as_u64_of(member(accessor, "byteOffset"@)),
        ) <= u64::MAX,
    ensures
        index_accessor_outcome(accessor, views, bin) == Ok::<Seq<u32>, GltfError>(Seq::empty()),
{
}

/// The loader reads `meshes[0].primitives[0]` and nothing else of the
/// meshes: two documents that agree on their accessors, their buffer views
/// and their first mesh load alike, whatever other meshes they hold.
pub proof fn lemma_only_the_first_mesh_matters(d1: JsonValue, d2: JsonValue, bin: Seq<u8>)
    requires
        member(d1, "accessors"@) == member(d2, "accessors"@),
        member(d1, "bufferViews"@) == member(d2, "bufferViews"@),
        element(member(d1, "meshes"@), 0) == element(member(d2, "meshes"@), 0),
    ensures
        mesh_outcome(d1, bin) == mesh_outcome(d2, bin),
{
}

/// A loaded mesh is made of the accessors that `meshes[0].primitives[0]`
/// names: its positions are those of the `POSITION` accessor, its indices
/// those of the `indices` accessor, and its normals those of the `NORMAL`
/// accessor where there is one.
pub proof fn lemma_loads_the_named_accessors(doc: JsonValue, bin: Seq<u8>, positions: Seq<Vec3Bits>,
    normals: Seq<Vec3Bits>, indices: Seq<u32>)
    requires
        mesh_outcome(doc, bin) == Ok::<_, GltfError>((positions, normals, indices)),
    ensures
        ({
            let prim = element(member(element(member(doc, "meshes"@), 0), "primitives"@), 0);
            let attributes = member(prim, "attributes"@);
            let accessors = as_array_of(member(doc, "accessors"@)).unwrap();
            let views = as_array_of(member(doc, "bufferViews"@)).unwrap();
            let pos = as_u64_of(member(attributes, "POSITION"@)).unwrap();
            let idx = as_u64_of(member(prim, "indices"@)).unwrap();
            &&& pos < accessors.len() && idx < accessors.len()
            &&& vec3_accessor_outcome(accessors[pos as int], views, bin) == Ok::<_, GltfError>(positions)
            &&& index_accessor_outcome(accessors[idx as int], views, bin) == Ok::<_, GltfError>(indices)
            &&& as_u64_of(member(attributes, "NORMAL"@)) matches Some(n) ==> n < accessors.len()
                && vec3_accessor_outcome(accessors[n as int], views, bin) == Ok::<_, GltfError>(normals)
        }),
{
}

/// Reads the unsigned 16-bit number stored little endian at `pos`.
pub fn read_le_u16(bin: &[u8], pos: usize) -> (r: u16)
    requires
        pos + 2 <= bin@.len(),
    ensures
        r as int == le_u16(bin@, pos as int),
{
    bin[pos] as u16 + 256 * (bin[pos + 1] as u16)
}

/// Reads the unsigned 32-bit number stored little endian at `pos`.
pub fn read_le_u32(bin: &[u8], pos: usize) -> (r: u32)
    requires
        pos + 4 <= bin@.len(),
    ensures
        r as int == le_u32(bin@, pos as int),
{
    bin[pos] as u32 + 256 * (bin[pos + 1] as u32) + 65536 * (bin[pos + 2] as u32) + 16777216 * (
    bin[pos + 3] as u32)
}

/// Where an accessor's data starts; `None` where the sum overflows.
fn data_offset_value(view: &JsonValue, accessor: &JsonValue) -> (r: Option<u64>)
    ensures
        match r {
            Some(o) => o == data_offset(*view, *accessor),
            None => data_offset(*view, *accessor) > u64::MAX,
        },
{
    let a = match view.get(&"byteOffset".to_string()) {
        Some(v) => match v.as_u64() {
            Some(n) => n,
            None => 0,
        },
        None => 0,
    };
    let b = match accessor.get(&"byteOffset".to_string()) {
        Some(v) => match v.as_u64() {
            Some(n) => n,
            None => 0,
        },
        None => 0,
    };
    a.checked_add(b)
}

/// Reads a three-component accessor: `count` vectors of three little-endian
/// 32-bit components, 12 bytes apart, from where the accessor's data starts.
pub fn read_vec3_accessor(accessor: &JsonValue, buffer_views: &Vec<JsonValue>, bin: &[u8]) -> (r:
    Result<Vec<Vec3Bits>, GltfError>)
    ensures
        seq_outcome(r) == vec3_accessor_outcome(*accessor, buffer_views@, bin@),
{
    let count = match u64_of(accessor.get(&"count".to_string())) {
        Some(c) => c,
        None => return Err(GltfError::MissingAccessorCount),
    };
    let bv = match u64_of(accessor.get(&"bufferView".to_string())) {
        Some(b) => b,
        None => return Err(GltfError::MissingBufferView),
    };
    if bv >= buffer_views.len() as u64 {
        return Err(GltfError::BufferViewIndexOutOfRange(bv));
    }
    let view = &buffer_views[bv as usize];
    let offset = match data_offset_value(view, accessor) {
        Some(o) => o,
        None => return Err(GltfError::OffsetOverflow),
    };
    if count > (isize::MAX as u64) / 12 {
        return Err(GltfError::CountTooLarge(count));
    }
    let len = bin.len() as u64;
    if count > 0 && (offset > len || len - offset < 12 * count) {
        return Err(GltfError::DataOutOfRange);
    }
    let ghost expected = Seq::new(count as nat, |k: int| vec3_at(bin@, offset + 12 * k));
    let mut out: Vec<Vec3Bits> = Vec::new();
    let mut i: u64 = 0;
    while i < count
        invariant
            i <= count,
            count > 0 ==> offset + 12 * count <= bin@.len(),
            len == bin@.len(),
            bin@.len() <= usize::MAX,
            expected == Seq::new(count as nat, |k: int| vec3_at(bin@, offset + 12 * k)),
            out@ == expected.take(i as int),
        decreases count - i,
    {
        let base = (offset + 12 * i) as usize;
        let v = Vec3Bits {
            x: read_le_u32(bin, base),
            y: read_le_u32(bin, base + 4),
            z: read_le_u32(bin, base + 8),
        };
        out.push(v);
        assert(expected.take(i + 1) =~= expected.take(i as int).push(v));
        i = i + 1;
    }
    assert(expected.take(count as int) =~= expected);
    Ok(out)
}

/// Reads the index accessor: `count` little-endian indices of the width its
/// component type gives.
pub fn read_index_accessor(accessor: &JsonValue, buffer_views: &Vec<JsonValue>, bin: &[u8]) -> (r:
    Result<Vec<u32>, GltfError>)
    ensures
        seq_outcome(r) == index_accessor_outcome(*accessor, buffer_views@, bin@),
{
    let count = match u64_of(accessor.get(&"count".to_string())) {
        Some(c) => c,
        None => return Err(GltfError::MissingIndexCount),
    };
    let bv = match u64_of(accessor.get(&"bufferView".to_string())) {
        Some(b) => b,
        None => return Err(GltfError::MissingIndexBufferView),
    };
    if bv >= buffer_views.len() as u64 {
        return Err(GltfError::BufferViewIndexOutOfRange(bv));
    }
    let view = &buffer_views[bv as usize];
    let offset = match data_offset_value(view, accessor) {
        Some(o) => o,
        None => return Err(GltfError::OffsetOverflow),
    };
    let ct = match u64_of(accessor.get(&"componentType".to_string())) {
        Some(c) => c,
        None => return Err(GltfError::MissingComponentType),
    };
    if count > (isize::MAX as u64) / 4 {
        return Err(GltfError::CountTooLarge(count));
    }
    if count == 0 {
        return Ok(Vec::new());
    }
    if ct != COMPONENT_U16 && ct != COMPONENT_U32 {
        return Err(GltfError::UnsupportedComponentType(ct));
    }
    let width: u64 = if ct == COMPONENT_U16 { 2 } else { 4 };
    let len = bin.len() as u64;
    if offset > len || len - offset < width * count {
        return Err(GltfError::DataOutOfRange);
    }
    let ghost expected = Seq::new(count as nat, |k: int| index_at(bin@, ct, offset as int, k));
    let mut out: Vec<u32> = Vec::new();
    let mut i: u64 = 0;
    while i < count
        invariant
            i <= count,
            width == index_width(ct),
            ct == COMPONENT_U16 || ct == COMPONENT_U32,
            offset + width * count <= bin@.len(),
            len == bin@.len(),
            bin@.len() <= usize::MAX,
            expected == Seq::new(count as nat, |k: int| index_at(bin@, ct, offset as int, k)),
            out@ == expected.take(i as int),
        decreases count - i,
    {
        let base = (offset + width * i) as usize;
        let v: u32 = if ct == COMPONENT_U16 {
            read_le_u16(bin, base) as u32
        } else {
            read_le_u32(bin, base)
        };
        out.push(v);
        assert(expected.take(i + 1) =~= expected.take(i as int).push(v));
        i = i + 1;
    }
    assert(expected.take(count as int) =~= expected);
    Ok(out)
}

/// Loads the first primitive of the first mesh of a parsed document, or
/// tells the first thing wrong with it.
pub fn load_gltf_mesh(doc: &JsonValue, bin: &[u8]) -> (r: Result<GltfMesh, GltfError>)
    ensures
        mesh_view(r) == mesh_outcome(*doc, bin@),
{
    let accessors = match doc.get(&"accessors".to_string()) {
        Some(v) => match v.as_array() {
            Some(a) => a,
            None => return Err(GltfError::MissingAccessors),
        },
        None => return Err(GltfError::MissingAccessors),
    };
    let buffer_views = match doc.get(&"bufferViews".to_string()) {
        Some(v) => match v.as_array() {
            Some(a) => a,
            None => return Err(GltfError::MissingBufferViews),
        },
        None => return Err(GltfError::MissingBufferViews),
    };
    let primitive = element_of(
        member_of(element_of(doc.get(&"meshes".to_string()), 0), &"primitives".to_string()),
        0,
    );
    let attributes = member_of(primitive, &"attributes".to_string());
    let pos_idx = match u64_of(member_of(attributes, &"POSITION".to_string())) {
        Some(p) => p,
        None => return Err(GltfError::MissingPositionAttribute),
    };
    let idx_idx = match u64_of(member_of(primitive, &"indices".to_string())) {
        Some(i) => i,
        None => return Err(GltfError::MissingIndices),
    };
    if pos_idx >= accessors.len() as u64 {
        return Err(GltfError::AccessorIndexOutOfRange(pos_idx));
    }
    let positions = read_vec3_accessor(&accessors[pos_idx as usize], buffer_views, bin)?;
    let normals = match u64_of(member_of(attributes, &"NORMAL".to_string())) {
        Some(n) => {
            if n >= accessors.len() as u64 {
                return Err(GltfError::AccessorIndexOutOfRange(n));
            }
            read_vec3_accessor(&accessors[n as usize], buffer_views, bin)?
        },
        None => {
            let ghost expected = Seq::new(positions@.len(), |k: int| default_normal());
            let mut v: Vec<Vec3Bits> = Vec::new();
            let mut i: usize = 0;
            while i < positions.len()
                invariant
                    i <= positions@.len(),
                    expected == Seq::new(positions@.len(), |k: int| default_normal()),
                    v@ == expected.take(i as int),
                decreases positions@.len() - i,
            {
                v.push(Vec3Bits { x: 0, y: 0, z: ONE_BITS });
                assert(expected.take(i + 1) =~= expected.take(i as int).push(default_normal()));
                i = i + 1;
            }
            assert(expected.take(positions@.len() as int) =~= expected);
            v
        },
    };
    if idx_idx >= accessors.len() as u64 {
        return Err(GltfError::AccessorIndexOutOfRange(idx_idx));
    }
    let indices = read_index_accessor(&accessors[idx_idx as usize], buffer_views, bin)?;
    Ok(GltfMesh { positions, normals, indices })
}

/// Loads the first primitive of the first mesh of a document given as JSON
/// text, or tells the first thing wrong with it (`NotJson` where the text
/// does not parse).
pub fn load_gltf_text(text: &str, bin: &[u8]) -> (r: Result<GltfMesh, GltfError>)
    ensures
        mesh_view(r) == text_outcome(text@, bin@),
{
    match parse_json(text) {
        Some(doc) => load_gltf_mesh(&doc, bin),
        None => Err(GltfError::NotJson),
    }
}

} // verus!
