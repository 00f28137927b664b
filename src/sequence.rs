use vstd::prelude::*;

use crate::document::{BsonDocument, Document, DocumentModel, key_position};
use crate::formattable::{BsonFormattable, ConvError, Expected, mismatch};
use crate::keys::{index_key, index_key_string, lemma_index_key_injective};

verus! {

broadcast use vstd::std_specs::vec::group_vec_axioms, vstd::seq::group_seq_axioms;

/// Every value of `fs` can be read as a `T`.
pub open spec fn all_accepted<T: BsonFormattable>(fs: Seq<(Seq<char>, DocumentModel)>) -> bool {
    forall|i: int| 0 <= i < fs.len() ==> T::accepts(#[trigger] fs[i].1)
}

/// `j` is the first position of `fs` whose value cannot be read as a `T`.
pub open spec fn is_first_rejected<T: BsonFormattable>(
    fs: Seq<(Seq<char>, DocumentModel)>,
    j: int,
) -> bool {
    &&& 0 <= j < fs.len()
    &&& !T::accepts(fs[j].1)
    &&& forall|i: int| 0 <= i < j ==> T::accepts(#[trigger] fs[i].1)
}

/// The error of the first value of `fs` that cannot be read as a `T`.
pub open spec fn first_rejection<T: BsonFormattable>(fs: Seq<(Seq<char>, DocumentModel)>) -> ConvError {
    T::rejection(fs[choose|j: int| is_first_rejected::<T>(fs, j)].1)
}

/// The first rejected position is unique, so `first_rejection` is its error.
pub proof fn lemma_first_rejection<T: BsonFormattable>(fs: Seq<(Seq<char>, DocumentModel)>, j: int)
    requires
        is_first_rejected::<T>(fs, j),
    ensures
        first_rejection::<T>(fs) == T::rejection(fs[j].1),
{
    let k = choose|k: int| is_first_rejected::<T>(fs, k);
    assert(is_first_rejected::<T>(fs, k));
    if k < j {
        assert(T::accepts(fs[k].1));
    } else if j < k {
        assert(T::accepts(fs[j].1));
    }
}

/// The array of `items`, each under its position as key.
pub open spec fn array_of(items: Seq<DocumentModel>) -> DocumentModel {
    DocumentModel::Array(Seq::new(items.len(), |k: int| (index_key(k as nat), items[k])))
}

impl<T: BsonFormattable> BsonFormattable for Vec<T> {
    open spec fn spec_to_bson(&self) -> DocumentModel {
        array_of(self@.map_values(|x: T| x.spec_to_bson()))
    }

    open spec fn accepts(d: DocumentModel) -> bool {
        match d {
            DocumentModel::Array(fs) => all_accepted::<T>(fs),
            _ => false,
        }
    }

    open spec fn rejection(d: DocumentModel) -> ConvError {
        match d {
            DocumentModel::Array(fs) => first_rejection::<T>(fs),
            _ => mismatch(Expected::Array, d),
        }
    }

    open spec fn reads_as(d: DocumentModel, v: Vec<T>) -> bool {
        match d {
            DocumentModel::Array(fs) => {
                &&& v@.len() == fs.len()
                &&& forall|i: int| 0 <= i < fs.len() ==> T::reads_as(fs[i].1, #[trigger] v@[i])
            },
            _ => false,
        }
    }

    fn to_bson_t(&self) -> (r: Document) {
        let mut doc = BsonDocument::new();
        let n = self.len();
        let mut i: usize = 0;
        while i < n
            invariant
                n == self@.len(),
                i <= n,
                doc@.len() == i,
                forall|k: int|
                    0 <= k < i ==> #[trigger] doc@[k] == (
                        index_key(k as nat),
                        self@[k].spec_to_bson(),
                    ),
            decreases n - i,
        {
            let key = index_key_string(i);
            let value = self[i].to_bson_t();
            proof {
                assert forall|k: int| 0 <= k < doc@.len() implies #[trigger] doc@[k].0 != key@ by {
                    lemma_index_key_injective(k as nat, i as nat);
                }
                assert(key_position(doc@, key@).is_none());
            }
            doc.put(key, value);
            i = i + 1;
        }
        proof {
            let items = self@.map_values(|x: T| x.spec_to_bson());
            assert(doc@ =~= Seq::new(items.len(), |k: int| (index_key(k as nat), items[k])));
        }
        Document::Array(Box::new(doc))
    }

    fn from_bson_t(doc: Document) -> (r: Result<Vec<T>, ConvError>) {
        let ghost dm = doc@;
        match doc {
            Document::Array(b) => {
                let ghost fs = b@;
                proof {
                    b.lemma_view();
                }
                let mut fields = (*b).into_fields();
                let ghost all = fields@;
                let n = fields.len();
                let mut out: Vec<T> = Vec::new();
                let mut i: usize = 0;
                while i < n
                    invariant
                        n == all.len(),
                        dm == DocumentModel::Array(fs),
                        dm == doc@,
                        fs.len() == n,
                        i <= n,
                        forall|k: int| 0 <= k < n ==> #[trigger] fs[k] == (all[k].0@, all[k].1@),
                        fields@ == all.subrange(i as int, n as int),
                        out@.len() == i,
                        forall|k: int| 0 <= k < i ==> T::accepts(#[trigger] fs[k].1),
                        forall|k: int| 0 <= k < i ==> T::reads_as(fs[k].1, #[trigger] out@[k]),
                    decreases n - i,
                {
                    let (_key, value) = fields.remove(0);
                    proof {
                        assert(value == all[i as int].1);
                    }
                    match T::from_bson_t(value) {
                        Ok(x) => {
                            out.push(x);
                        },
                        Err(e) => {
                            proof {
                                assert(is_first_rejected::<T>(fs, i as int));
                                lemma_first_rejection::<T>(fs, i as int);
                            }
                            return Err(e);
                        },
                    }
                    i = i + 1;
                }
                Ok(out)
            },
            other => Err(ConvError::TypeMismatch { expected: Expected::Array, actual: other.kind() }),
        }
    }
}

} // verus!
