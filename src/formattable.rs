use vstd::prelude::*;

use crate::document::{DocKind, Document, DocumentModel, kind_of};

verus! {

broadcast use vstd::std_specs::vec::group_vec_axioms, vstd::seq::group_seq_axioms;

/// The kinds of document value that a conversion accepts.
#[derive(PartialEq, Eq, Structural, Clone, Copy, Debug)]
pub enum Expected {
    /// `Double`.
    Double,
    /// `Int32`.
    Int32,
    /// `Int64`, `UTCDate` or `Timestamp`.
    Int64Like,
    /// `UString`.
    UString,
    /// `Bool`.
    Bool,
    /// `Array`.
    Array,
    /// `Embedded` or `Array`.
    EmbeddedOrArray,
}

/// Why a document value could not be converted.
#[derive(PartialEq, Eq, Structural, Clone, Copy, Debug)]
pub enum ConvError {
    /// The value is of a kind that the target does not accept.
    TypeMismatch { expected: Expected, actual: DocKind },
    /// The value has no JSON counterpart.
    Unrepresentable { variant: DocKind },
}

/// A type whose values can be written as document values and read back.
pub trait BsonFormattable: Sized {
    /// The document value that `self` is written as.
    spec fn spec_to_bson(&self) -> DocumentModel;

    /// Whether reading from `d` succeeds.
    spec fn accepts(d: DocumentModel) -> bool;

    /// The error of reading from `d`, where that fails.
    spec fn rejection(d: DocumentModel) -> ConvError;

    /// `v` is what reading from `d` gives, where that succeeds.
    spec fn reads_as(d: DocumentModel, v: Self) -> bool;

    /// Writes `self` as a document value.
    fn to_bson_t(&self) -> (r: Document)
        ensures
            r@ == self.spec_to_bson(),
    ;

    /// Reads a value back from a document value.
    fn from_bson_t(doc: Document) -> (r: Result<Self, ConvError>)
        ensures
            match r {
                Ok(v) => Self::accepts(doc@) && Self::reads_as(doc@, v),
                Err(e) => !Self::accepts(doc@) && e == Self::rejection(doc@),
            },
    ;
}

/// The error for a value of kind other than those `expected`.
pub open spec fn mismatch(expected: Expected, d: DocumentModel) -> ConvError {
    ConvError::TypeMismatch { expected, actual: kind_of(d) }
}

impl BsonFormattable for i32 {
    open spec fn spec_to_bson(&self) -> DocumentModel {
        DocumentModel::Int32(*self)
    }

    open spec fn accepts(d: DocumentModel) -> bool {
        d is Int32
    }

    open spec fn rejection(d: DocumentModel) -> ConvError {
        mismatch(Expected::Int32, d)
    }

    open spec fn reads_as(d: DocumentModel, v: i32) -> bool {
        d == DocumentModel::Int32(v)
    }

    fn to_bson_t(&self) -> (r: Document) {
        Document::Int32(*self)
    }

    fn from_bson_t(doc: Document) -> (r: Result<i32, ConvError>) {
        match doc {
            Document::Int32(i) => Ok(i),
            other => Err(ConvError::TypeMismatch { expected: Expected::Int32, actual: other.kind() }),
        }
    }
}

impl BsonFormattable for i64 {
    open spec fn spec_to_bson(&self) -> DocumentModel {
        DocumentModel::Int64(*self)
    }

    open spec fn accepts(d: DocumentModel) -> bool {
        d is Int64 || d is UTCDate || d is Timestamp
    }

    open spec fn rejection(d: DocumentModel) -> ConvError {
        mismatch(Expected::Int64Like, d)
    }

    open spec fn reads_as(d: DocumentModel, v: i64) -> bool {
        d == DocumentModel::Int64(v) || d == DocumentModel::UTCDate(v) || d
            == DocumentModel::Timestamp(v)
    }

    fn to_bson_t(&self) -> (r: Document) {
        Document::Int64(*self)
    }

    fn from_bson_t(doc: Document) -> (r: Result<i64, ConvError>) {
        match doc {
            Document::Int64(i) => Ok(i),
            Document::UTCDate(i) => Ok(i),
            Document::Timestamp(i) => Ok(i),
            other => Err(
                ConvError::TypeMismatch { expected: Expected::Int64Like, actual: other.kind() },
            ),
        }
    }
}

impl BsonFormattable for i8 {
    open spec fn spec_to_bson(&self) -> DocumentModel {
        DocumentModel::Int32(*self as i32)
    }

    open spec fn accepts(d: DocumentModel) -> bool {
        d is Int32
    }

    open spec fn rejection(d: DocumentModel) -> ConvError {
        mismatch(Expected::Int32, d)
    }

    open spec fn reads_as(d: DocumentModel, v: i8) -> bool {
        match d {
            DocumentModel::Int32(x) => v == x as i8,
            _ => false,
        }
    }

    fn to_bson_t(&self) -> (r: Document) {
        (*self as i32).to_bson_t()
    }

    fn from_bson_t(doc: Document) -> (r: Result<i8, ConvError>) {
        match i32::from_bson_t(doc) {
            Ok(i) => Ok(i as i8),
            Err(e) => Err(e),
        }
    }
}

impl BsonFormattable for i16 {
    open spec fn spec_to_bson(&self) -> DocumentModel {
        DocumentModel::Int32(*self as i32)
    }

    open spec fn accepts(d: DocumentModel) -> bool {
        d is Int32
    }

    open spec fn rejection(d: DocumentModel) -> ConvError {
        mismatch(Expected::Int32, d)
    }

    open spec fn reads_as(d: DocumentModel, v: i16) -> bool {
        match d {
            DocumentModel::Int32(x) => v == x as i16,
            _ => false,
        }
    }

    fn to_bson_t(&self) -> (r: Document) {
        (*self as i32).to_bson_t()
    }

    fn from_bson_t(doc: Document) -> (r: Result<i16, ConvError>) {
        match i32::from_bson_t(doc) {
            Ok(i) => Ok(i as i16),
            Err(e) => Err(e),
        }
    }
}

impl BsonFormattable for isize {
    open spec fn spec_to_bson(&self) -> DocumentModel {
        DocumentModel::Int32(*self as i32)
    }

    open spec fn accepts(d: DocumentModel) -> bool {
        d is Int32
    }

    open spec fn rejection(d: DocumentModel) -> ConvError {
        mismatch(Expected::Int32, d)
    }

    open spec fn reads_as(d: DocumentModel, v: isize) -> bool {
        match d {
            DocumentModel::Int32(x) => v == x as isize,
            _ => false,
        }
    }

    fn to_bson_t(&self) -> (r: Document) {
        (*self as i32).to_bson_t()
    }

    fn from_bson_t(doc: Document) -> (r: Result<isize, ConvError>) {
        match i32::from_bson_t(doc) {
            Ok(i) => Ok(i as isize),
            Err(e) => Err(e),
        }
    }
}

impl BsonFormattable for u8 {
    open spec fn spec_to_bson(&self) -> DocumentModel {
        DocumentModel::Int32(*self as i32)
    }

    open spec fn accepts(d: DocumentModel) -> bool {
        d is Int32
    }

    open spec fn rejection(d: DocumentModel) -> ConvError {
        mismatch(Expected::Int32, d)
    }

    open spec fn reads_as(d: DocumentModel, v: u8) -> bool {
        match d {
            DocumentModel::Int32(x) => v == x as u8,
            _ => false,
        }
    }

    fn to_bson_t(&self) -> (r: Document) {
        (*self as i32).to_bson_t()
    }

    fn from_bson_t(doc: Document) -> (r: Result<u8, ConvError>) {
        match i32::from_bson_t(doc) {
            Ok(i) => Ok(i as u8),
            Err(e) => Err(e),
        }
    }
}

impl BsonFormattable for u16 {
    open spec fn spec_to_bson(&self) -> DocumentModel {
        DocumentModel::Int32(*self as i32)
    }

    open spec fn accepts(d: DocumentModel) -> bool {
        d is Int32
    }

    open spec fn rejection(d: DocumentModel) -> ConvError {
        mismatch(Expected::Int32, d)
    }

    open spec fn reads_as(d: DocumentModel, v: u16) -> bool {
        match d {
            DocumentModel::Int32(x) => v == x as u16,
            _ => false,
        }
    }

    fn to_bson_t(&self) -> (r: Document) {
        (*self as i32).to_bson_t()
    }

    fn from_bson_t(doc: Document) -> (r: Result<u16, ConvError>) {
        match i32::from_bson_t(doc) {
            Ok(i) => Ok(i as u16),
            Err(e) => Err(e),
        }
    }
}

impl BsonFormattable for u32 {
    open spec fn spec_to_bson(&self) -> DocumentModel {
        DocumentModel::Int32(*self as i32)
    }

    open spec fn accepts(d: DocumentModel) -> bool {
        d is Int32
    }

    open spec fn rejection(d: DocumentModel) -> ConvError {
        mismatch(Expected::Int32, d)
    }

    open spec fn reads_as(d: DocumentModel, v: u32) -> bool {
        match d {
            DocumentModel::Int32(x) => v == x as u32,
            _ => false,
        }
    }

    fn to_bson_t(&self) -> (r: Document) {
        (*self as i32).to_bson_t()
    }

    fn from_bson_t(doc: Document) -> (r: Result<u32, ConvError>) {
        match i32::from_bson_t(doc) {
            Ok(i) => Ok(i as u32),
            Err(e) => Err(e),
        }
    }
}

impl BsonFormattable for usize {
    open spec fn spec_to_bson(&self) -> DocumentModel {
        DocumentModel::Int32(*self as i32)
    }

    open spec fn accepts(d: DocumentModel) -> bool {
        d is Int32
    }

    open spec fn rejection(d: DocumentModel) -> ConvError {
        mismatch(Expected::Int32, d)
    }

    open spec fn reads_as(d: DocumentModel, v: usize) -> bool {
        match d {
            DocumentModel::Int32(x) => v == x as usize,
            _ => false,
        }
    }

    fn to_bson_t(&self) -> (r: Document) {
        (*self as i32).to_bson_t()
    }

    fn from_bson_t(doc: Document) -> (r: Result<usize, ConvError>) {
        match i32::from_bson_t(doc) {
            Ok(i) => Ok(i as usize),
            Err(e) => Err(e),
        }
    }
}

impl BsonFormattable for bool {
    open spec fn spec_to_bson(&self) -> DocumentModel {
        DocumentModel::Bool(*self)
    }

    open spec fn accepts(d: DocumentModel) -> bool {
        d is Bool
    }

    open spec fn rejection(d: DocumentModel) -> ConvError {
        mismatch(Expected::Bool, d)
    }

    open spec fn reads_as(d: DocumentModel, v: bool) -> bool {
        d == DocumentModel::Bool(v)
    }

    fn to_bson_t(&self) -> (r: Document) {
        Document::Bool(*self)
    }

    fn from_bson_t(doc: Document) -> (r: Result<bool, ConvError>) {
        match doc {
            Document::Bool(b) => Ok(b),
            other => Err(ConvError::TypeMismatch { expected: Expected::Bool, actual: other.kind() }),
        }
    }
}

impl<T: BsonFormattable> BsonFormattable for Box<T> {
    open spec fn spec_to_bson(&self) -> DocumentModel {
        (**self).spec_to_bson()
    }

    open spec fn accepts(d: DocumentModel) -> bool {
        T::accepts(d)
    }

    open spec fn rejection(d: DocumentModel) -> ConvError {
        T::rejection(d)
    }

    open spec fn reads_as(d: DocumentModel, v: Box<T>) -> bool {
        T::reads_as(d, *v)
    }

    fn to_bson_t(&self) -> (r: Document) {
        (**self).to_bson_t()
    }

    fn from_bson_t(doc: Document) -> (r: Result<Box<T>, ConvError>) {
        match T::from_bson_t(doc) {
            Ok(c) => Ok(Box::new(c)),
            Err(e) => Err(e),
        }
    }
}

/// Reads the bit pattern of a binary64 number back: only a `Double` gives one.
pub fn double_bits_from_bson_t(doc: Document) -> (r: Result<u64, ConvError>)
    ensures
        match doc@ {
            DocumentModel::Double(b) => r == Ok::<u64, ConvError>(b),
            _ => r == Err::<u64, ConvError>(mismatch(Expected::Double, doc@)),
        },
{
    match doc {
        Document::Double(b) => Ok(b),
        other => Err(ConvError::TypeMismatch { expected: Expected::Double, actual: other.kind() }),
    }
}

/// Reads a string back from a document value: only a `UString` gives one.
pub fn string_from_bson_t(doc: Document) -> (r: Result<String, ConvError>)
    ensures
        match doc@ {
            DocumentModel::UString(s) => r is Ok && r->Ok_0@ == s,
            _ => r == Err::<String, ConvError>(mismatch(Expected::UString, doc@)),
        },
{
    match doc {
        Document::UString(s) => Ok(s),
        other => Err(ConvError::TypeMismatch { expected: Expected::UString, actual: other.kind() }),
    }
}

} // verus!
