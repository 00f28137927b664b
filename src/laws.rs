use vstd::prelude::*;

use crate::document::{DocKind, DocumentModel, kind_of};
use crate::formattable::{BsonFormattable, ConvError};
use crate::json::Json;
use crate::json::StrMap;
use crate::keys::index_key;
use crate::sequence::{is_first_rejected, lemma_first_rejection};

verus! {

/// Writing a 32-bit integer and reading it back gives the same integer.
pub proof fn law_round_trip_i32(v: i32)
    ensures
        i32::accepts(v.spec_to_bson()),
        i32::reads_as(v.spec_to_bson(), v),
{
}

/// Writing a 64-bit integer and reading it back gives the same integer.
pub proof fn law_round_trip_i64(v: i64)
    ensures
        i64::accepts(v.spec_to_bson()),
        i64::reads_as(v.spec_to_bson(), v),
{
}

/// Writing a boolean and reading it back gives the same boolean.
pub proof fn law_round_trip_bool(v: bool)
    ensures
        bool::accepts(v.spec_to_bson()),
        bool::reads_as(v.spec_to_bson(), v),
{
}

/// Every integer kind narrower than 32 bits, and `u32`, survives the trip
/// through a 32-bit integer.
pub proof fn law_round_trip_narrow(a: i8, b: i16, c: u8, d: u16, e: u32)
    ensures
        i8::accepts(a.spec_to_bson()) && i8::reads_as(a.spec_to_bson(), a),
        i16::accepts(b.spec_to_bson()) && i16::reads_as(b.spec_to_bson(), b),
        u8::accepts(c.spec_to_bson()) && u8::reads_as(c.spec_to_bson(), c),
        u16::accepts(d.spec_to_bson()) && u16::reads_as(d.spec_to_bson(), d),
        u32::accepts(e.spec_to_bson()) && u32::reads_as(e.spec_to_bson(), e),
{
    assert(((e as i32) as u32) == e) by (bit_vector);
}

/// Pointer-sized integers survive the trip when they fit in 32 bits.
pub proof fn law_round_trip_pointer_sized(a: isize, b: usize)
    requires
        i32::MIN <= a <= i32::MAX,
        b <= i32::MAX,
    ensures
        isize::accepts(a.spec_to_bson()) && isize::reads_as(a.spec_to_bson(), a),
        usize::accepts(b.spec_to_bson()) && usize::reads_as(b.spec_to_bson(), b),
{
}

/// A list of 32-bit integers is written as an array keyed "0", "1", ... in
/// order, and reading it back gives the same list.
pub proof fn law_round_trip_i32_list(l: Vec<i32>)
    ensures
        l.spec_to_bson() is Array,
        l.spec_to_bson()->Array_0.len() == l@.len(),
        forall|k: int|
            0 <= k < l@.len() ==> (#[trigger] l.spec_to_bson()->Array_0[k]) == (
                index_key(k as nat),
                DocumentModel::Int32(l@[k]),
            ),
        Vec::<i32>::accepts(l.spec_to_bson()),
        forall|v: Vec<i32>| #[trigger] Vec::<i32>::reads_as(l.spec_to_bson(), v) <==> v@ == l@,
{
    let d = l.spec_to_bson();
    let fs = d->Array_0;
    assert forall|v: Vec<i32>| #[trigger] Vec::<i32>::reads_as(d, v) <==> v@ == l@ by {
        if Vec::<i32>::reads_as(d, v) {
            assert(v@ =~= l@);
        }
    }
}

/// Kinds that read as a JSON number, string, boolean or null.
pub open spec fn scalar_json_kind(k: DocKind) -> bool {
    k == DocKind::Double || k == DocKind::UString || k == DocKind::Bool || k == DocKind::UTCDate
        || k == DocKind::Null || k == DocKind::JScript || k == DocKind::Int32 || k
        == DocKind::Timestamp || k == DocKind::Int64
}

/// Kinds with no JSON counterpart.
pub open spec fn unrepresentable_kind(k: DocKind) -> bool {
    k == DocKind::Binary || k == DocKind::ObjectId || k == DocKind::Regex || k
        == DocKind::JScriptWithScope || k == DocKind::MinKey || k == DocKind::MaxKey
}

/// Reading a JSON value succeeds for every number, string, code, boolean and
/// null value, and fails for binary data, object ids, regular expressions,
/// code with scope and the two key sentinels.
pub proof fn law_json_kinds(d: DocumentModel)
    ensures
        scalar_json_kind(kind_of(d)) ==> Json::accepts(d),
        unrepresentable_kind(kind_of(d)) ==> !Json::accepts(d),
        unrepresentable_kind(kind_of(d)) ==> Json::rejection(d) == (ConvError::Unrepresentable {
            variant: kind_of(d),
        }),
{
}

/// An array is read as a map exactly as an embedded document with the same
/// fields is.
pub proof fn law_mapping_leniency<V: BsonFormattable>(fs: Seq<(Seq<char>, DocumentModel)>)
    ensures
        StrMap::<V>::accepts(DocumentModel::Array(fs)) == StrMap::<V>::accepts(
            DocumentModel::Embedded(fs),
        ),
        StrMap::<V>::rejection(DocumentModel::Array(fs)) == StrMap::<V>::rejection(
            DocumentModel::Embedded(fs),
        ),
        forall|m: StrMap<V>|
            #[trigger] StrMap::<V>::reads_as(DocumentModel::Array(fs), m) == (StrMap::<
                V,
            >::reads_as(DocumentModel::Embedded(fs), m)),
{
}

/// Reading a list whose element at `j` is the first that cannot be read fails
/// with that element's own error.
pub proof fn law_list_failure_propagation<T: BsonFormattable>(
    fs: Seq<(Seq<char>, DocumentModel)>,
    j: int,
)
    requires
        is_first_rejected::<T>(fs, j),
    ensures
        !Vec::<T>::accepts(DocumentModel::Array(fs)),
        Vec::<T>::rejection(DocumentModel::Array(fs)) == T::rejection(fs[j].1),
{
    lemma_first_rejection::<T>(fs, j);
}

} // verus!
