use vstd::prelude::*;

use crate::document::{BsonDocument, Document, DocumentModel, key_position, keys_unique};
use crate::formattable::{BsonFormattable, ConvError, Expected, mismatch};
use crate::sequence::{all_accepted, first_rejection, is_first_rejected, lemma_first_rejection};
use crate::json::{StrMap, entry_keys_unique, entry_position, entries_model};

verus! {

broadcast use vstd::std_specs::vec::group_vec_axioms, vstd::seq::group_seq_axioms;

/// The fields of a mapping value, or `None` for other kinds.
pub open spec fn mapping_fields(d: DocumentModel) -> Option<Seq<(Seq<char>, DocumentModel)>> {
    match d {
        DocumentModel::Embedded(fs) => Some(fs),
        DocumentModel::Array(fs) => Some(fs),
        _ => None,
    }
}

impl<V: BsonFormattable> BsonFormattable for StrMap<V> {
    open spec fn spec_to_bson(&self) -> DocumentModel {
        DocumentModel::Embedded(self@.map_values(|e: (Seq<char>, V)| (e.0, e.1.spec_to_bson())))
    }

    open spec fn accepts(d: DocumentModel) -> bool {
        match mapping_fields(d) {
            Some(fs) => all_accepted::<V>(fs),
            None => false,
        }
    }

    open spec fn rejection(d: DocumentModel) -> ConvError {
        match mapping_fields(d) {
            Some(fs) => first_rejection::<V>(fs),
            None => mismatch(Expected::EmbeddedOrArray, d),
        }
    }

    open spec fn reads_as(d: DocumentModel, m: StrMap<V>) -> bool {
        match mapping_fields(d) {
            Some(fs) => {
                &&& m@.len() == fs.len()
                &&& forall|i: int|
                    0 <= i < fs.len() ==> (#[trigger] m@[i]).0 == fs[i].0 && V::reads_as(
                        fs[i].1,
                        m@[i].1,
                    )
            },
            None => false,
        }
    }

    fn to_bson_t(&self) -> (r: Document) {
        let entries = self.entries();
        let mut doc = BsonDocument::new();
        let n = entries.len();
        let mut i: usize = 0;
        while i < n
            invariant
                n == entries@.len(),
                entries_model(entries@) == self@,
                entry_keys_unique(self@),
                i <= n,
                doc@.len() == i,
                forall|k: int|
                    0 <= k < i ==> #[trigger] doc@[k] == (
                        self@[k].0,
                        self@[k].1.spec_to_bson(),
                    ),
            decreases n - i,
        {
            let key = entries[i].0.clone();
            let value = entries[i].1.to_bson_t();
            proof {
                assert(self@[i as int].0 == key@);
                assert forall|k: int| 0 <= k < doc@.len() implies #[trigger] doc@[k].0 != key@ by {
                    assert(self@[k].0 != self@[i as int].0);
                }
                assert(key_position(doc@, key@).is_none());
            }
            doc.put(key, value);
            i = i + 1;
        }
        proof {
            assert(doc@ =~= self@.map_values(|e: (Seq<char>, V)| (e.0, e.1.spec_to_bson())));
        }
        Document::Embedded(Box::new(doc))
    }

    fn from_bson_t(doc: Document) -> (r: Result<StrMap<V>, ConvError>) {
        let ghost dm = doc@;
        let b = match doc {
            Document::Embedded(b) => b,
            Document::Array(b) => b,
            other => {
                return Err(
                    ConvError::TypeMismatch {
                        expected: Expected::EmbeddedOrArray,
                        actual: other.kind(),
                    },
                );
            },
        };
        let ghost fs = b@;
        proof {
            b.lemma_view();
            assert(mapping_fields(dm) == Some(fs));
        }
        let mut fields = (*b).into_fields();
        let ghost all = fields@;
        let n = fields.len();
        let mut out: StrMap<V> = StrMap::new();
        let mut i: usize = 0;
        while i < n
            invariant
                n == all.len(),
                mapping_fields(dm) == Some(fs),
                dm == doc@,
                keys_unique(fs),
                fs.len() == n,
                i <= n,
                forall|k: int| 0 <= k < n ==> #[trigger] fs[k] == (all[k].0@, all[k].1@),
                fields@ == all.subrange(i as int, n as int),
                out@.len() == i,
                forall|k: int| 0 <= k < i ==> V::accepts(#[trigger] fs[k].1),
                forall|k: int|
                    0 <= k < i ==> (#[trigger] out@[k]).0 == fs[k].0 && V::reads_as(
                        fs[k].1,
                        out@[k].1,
                    ),
            decreases n - i,
        {
            let (key, value) = fields.remove(0);
            proof {
                assert(value == all[i as int].1);
                assert(key == all[i as int].0);
            }
            match V::from_bson_t(value) {
                Ok(x) => {
                    proof {
                        assert forall|k: int| 0 <= k < out@.len() implies #[trigger] out@[k].0
                            != key@ by {
                            assert(fs[k].0 != fs[i as int].0);
                        }
                        assert(entry_position(out@, key@).is_none());
                    }
                    out.insert(key, x);
                },
                Err(e) => {
                    proof {
                        assert(is_first_rejected::<V>(fs, i as int));
                        lemma_first_rejection::<V>(fs, i as int);
                    }
                    return Err(e);
                },
            }
            i = i + 1;
        }
        proof {
            assert(Self::reads_as(dm, out));
        }
        Ok(out)
    }
}

impl BsonFormattable for BsonDocument {
    open spec fn spec_to_bson(&self) -> DocumentModel {
        DocumentModel::Embedded(self@)
    }

    open spec fn accepts(d: DocumentModel) -> bool {
        mapping_fields(d) is Some
    }

    open spec fn rejection(d: DocumentModel) -> ConvError {
        mismatch(Expected::EmbeddedOrArray, d)
    }

    open spec fn reads_as(d: DocumentModel, b: BsonDocument) -> bool {
        mapping_fields(d) == Some(b@)
    }

    fn to_bson_t(&self) -> (r: Document) {
        Document::Embedded(Box::new(self.duplicate()))
    }

    fn from_bson_t(doc: Document) -> (r: Result<BsonDocument, ConvError>) {
        match doc {
            Document::Embedded(b) => Ok(*b),
            Document::Array(b) => Ok(*b),
            other => Err(
                ConvError::TypeMismatch { expected: Expected::EmbeddedOrArray, actual: other.kind() },
            ),
        }
    }
}

} // verus!
