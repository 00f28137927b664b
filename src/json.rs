use vstd::prelude::*;

use crate::document::{BsonDocument, Document, DocumentModel, key_position, keys_unique};
use crate::formattable::{BsonFormattable, ConvError};
use crate::keys::{index_key, index_key_string, lemma_index_key_injective};
use crate::number::{double_bits_of_i64, double_bits_of_int};

verus! {

broadcast use vstd::std_specs::vec::group_vec_axioms, vstd::seq::group_seq_axioms;

/// No two entries of `s` have the same key.
pub open spec fn entry_keys_unique<V>(s: Seq<(Seq<char>, V)>) -> bool {
    forall|i: int, j: int|
        0 <= i < s.len() && 0 <= j < s.len() && i != j ==> #[trigger] s[i].0 != #[trigger] s[j].0
}

/// The position of the first entry of `s` whose key is `k`, if any.
pub open spec fn entry_position<V>(s: Seq<(Seq<char>, V)>, k: Seq<char>) -> Option<int> {
    if exists|i: int| 0 <= i < s.len() && #[trigger] s[i].0 == k {
        Some(choose|i: int| 0 <= i < s.len() && #[trigger] s[i].0 == k)
    } else {
        None
    }
}

/// The entries of `s` with each key as its characters.
pub open spec fn entries_model<V>(s: Seq<(String, V)>) -> Seq<(Seq<char>, V)> {
    s.map_values(|e: (String, V)| (e.0@, e.1))
}

/// A map from string keys to values that keeps the order in which keys were
/// first inserted.
#[derive(Debug, PartialEq)]
pub struct StrMap<V> {
    entries: Vec<(String, V)>,
}

impl<V> View for StrMap<V> {
    type V = Seq<(Seq<char>, V)>;

    closed spec fn view(&self) -> Seq<(Seq<char>, V)> {
        entries_model(self.entries@)
    }
}

impl<V> StrMap<V> {
    #[verifier::type_invariant]
    closed spec fn inv(self) -> bool {
        entry_keys_unique(entries_model(self.entries@))
    }

    pub fn new() -> (r: StrMap<V>)
        ensures
            r@ == Seq::<(Seq<char>, V)>::empty(),
    {
        let r = StrMap { entries: Vec::new() };
        proof {
            assert(entries_model(r.entries@) =~= Seq::<(Seq<char>, V)>::empty());
        }
        r
    }

    pub fn len(&self) -> (r: usize)
        ensures
            r == self@.len(),
    {
        self.entries.len()
    }

    /// The entries in insertion order; their keys are unique.
    pub fn entries(&self) -> (r: &Vec<(String, V)>)
        ensures
            entries_model(r@) == self@,
            entry_keys_unique(self@),
    {
        proof {
            use_type_invariant(self);
        }
        &self.entries
    }

    /// Inserts a value. A key already present keeps its position and takes the
    /// new value; a new key goes at the end.
    pub fn insert(&mut self, key: String, value: V)
        ensures
            final(self)@ == match entry_position(old(self)@, key@) {
                Some(i) => old(self)@.update(i, (key@, value)),
                None => old(self)@.push((key@, value)),
            },
    {
        proof {
            use_type_invariant(&*self);
        }
        let ghost old_model = old(self)@;
        let mut taken = StrMap { entries: Vec::new() };
        proof {
            assert(entries_model(taken.entries@) =~= Seq::<(Seq<char>, V)>::empty());
        }
        core::mem::swap(self, &mut taken);
        let StrMap { entries: mut entries } = taken;
        let n = entries.len();
        let mut i: usize = 0;
        while i < n
            invariant
                n == entries@.len(),
                old_model == old(self)@,
                old_model == entries_model(entries@),
                entry_keys_unique(old_model),
                forall|k: int| 0 <= k < i ==> #[trigger] old_model[k].0 != key@,
            decreases n - i,
        {
            if entries[i].0 == key {
                proof {
                    assert(old_model[i as int].0 == key@);
                    let j = choose|j: int| 0 <= j < old_model.len() && #[trigger] old_model[j].0 == key@;
                    if j != i {
                        assert(old_model[j].0 != old_model[i as int].0);
                    }
                }
                let ghost pos = i as int;
                entries.set(i, (key, value));
                proof {
                    let m = entries_model(entries@);
                    assert(m =~= old_model.update(pos, (key@, value)));
                    assert forall|a: int, b: int|
                        0 <= a < m.len() && 0 <= b < m.len() && a != b implies #[trigger] m[a].0
                        != #[trigger] m[b].0 by {
                        assert(old_model[a].0 != old_model[b].0);
                    }
                }
                *self = StrMap { entries };
                return;
            }
            i = i + 1;
        }
        entries.push((key, value));
        proof {
            let m = entries_model(entries@);
            assert(m =~= old_model.push((key@, value)));
            assert forall|a: int, b: int|
                0 <= a < m.len() && 0 <= b < m.len() && a != b implies #[trigger] m[a].0
                != #[trigger] m[b].0 by {
                if a < n && b < n {
                    assert(old_model[a].0 != old_model[b].0);
                }
            }
        }
        *self = StrMap { entries };
    }
}

/// A JSON value. A number holds the IEEE-754 binary64 bit pattern of its
/// value.
#[derive(Debug, PartialEq)]
pub enum Json {
    Null,
    Number(u64),
    String(String),
    Boolean(bool),
    List(Vec<Json>),
    Object(Box<StrMap<Json>>),
}

/// The mathematical value of a JSON value.
pub enum JsonModel {
    Null,
    Number(u64),
    String(Seq<char>),
    Boolean(bool),
    List(Seq<JsonModel>),
    Object(Seq<(Seq<char>, JsonModel)>),
}

/// The model of a JSON value.
pub open spec fn json_model(j: Json) -> JsonModel
    decreases j, 0nat,
{
    match j {
        Json::Null => JsonModel::Null,
        Json::Number(b) => JsonModel::Number(b),
        Json::String(s) => JsonModel::String(s@),
        Json::Boolean(b) => JsonModel::Boolean(b),
        Json::List(v) => JsonModel::List(
            Seq::new(
                v@.len(),
                |k: int|
                    if 0 <= k < v@.len() {
                        json_model(v@[k])
                    } else {
                        JsonModel::Null
                    },
            ),
        ),
        Json::Object(m) => JsonModel::Object(object_model(*m)),
    }
}

/// The model of a JSON object: its entries' keys and models, in order.
pub closed spec fn object_model(m: StrMap<Json>) -> Seq<(Seq<char>, JsonModel)>
    decreases m, 1nat,
{
    Seq::new(
        m.entries@.len(),
        |k: int|
            if 0 <= k < m.entries@.len() {
                (m.entries@[k].0@, json_model(m.entries@[k].1))
            } else {
                (Seq::empty(), JsonModel::Null)
            },
    )
}

/// An object's model lists its entries' keys and values' models, in order.
pub proof fn lemma_object_model(m: StrMap<Json>)
    ensures
        object_model(m).len() == m@.len(),
        forall|k: int|
            0 <= k < m@.len() ==> #[trigger] object_model(m)[k] == (m@[k].0, json_model(m@[k].1)),
{
}

impl View for Json {
    type V = JsonModel;

    open spec fn view(&self) -> JsonModel {
        json_model(*self)
    }
}

/// The document value that a JSON value is written as: arrays keyed by
/// position, objects keyed by their own keys.
pub open spec fn json_to_doc(j: JsonModel) -> DocumentModel
    decreases j,
{
    match j {
        JsonModel::Null => DocumentModel::Null,
        JsonModel::Number(b) => DocumentModel::Double(b),
        JsonModel::String(s) => DocumentModel::UString(s),
        JsonModel::Boolean(b) => DocumentModel::Bool(b),
        JsonModel::List(items) => DocumentModel::Array(
            Seq::new(
                items.len(),
                |k: int|
                    (
                        index_key(k as nat),
                        if 0 <= k < items.len() {
                            json_to_doc(items[k])
                        } else {
                            DocumentModel::Null
                        },
                    ),
            ),
        ),
        JsonModel::Object(es) => DocumentModel::Embedded(
            Seq::new(
                es.len(),
                |k: int|
                    (
                        es[k].0,
                        if 0 <= k < es.len() {
                            json_to_doc(es[k].1)
                        } else {
                            DocumentModel::Null
                        },
                    ),
            ),
        ),
    }
}

/// Reads a JSON value from a document value. Numbers of every kind become
/// binary64 numbers; strings and code become strings; containers are read
/// element by element and the first failure is the result. Kinds with no JSON
/// counterpart fail.
pub open spec fn doc_to_json(d: DocumentModel) -> Result<JsonModel, ConvError>
    decreases d, 0nat,
{
    match d {
        DocumentModel::Double(b) => Ok(JsonModel::Number(b)),
        DocumentModel::Int32(i) => Ok(JsonModel::Number(double_bits_of_int(i as int))),
        DocumentModel::Int64(i) => Ok(JsonModel::Number(double_bits_of_int(i as int))),
        DocumentModel::UTCDate(i) => Ok(JsonModel::Number(double_bits_of_int(i as int))),
        DocumentModel::Timestamp(i) => Ok(JsonModel::Number(double_bits_of_int(i as int))),
        DocumentModel::UString(s) => Ok(JsonModel::String(s)),
        DocumentModel::JScript(s) => Ok(JsonModel::String(s)),
        DocumentModel::Bool(b) => Ok(JsonModel::Boolean(b)),
        DocumentModel::Null => Ok(JsonModel::Null),
        DocumentModel::Embedded(fs) => match fields_to_json(fs, fs.len()) {
            Ok(es) => Ok(JsonModel::Object(es)),
            Err(e) => Err(e),
        },
        DocumentModel::Array(fs) => match fields_to_json(fs, fs.len()) {
            Ok(es) => Ok(JsonModel::List(es.map_values(|e: (Seq<char>, JsonModel)| e.1))),
            Err(e) => Err(e),
        },
        _ => Err(ConvError::Unrepresentable { variant: crate::document::kind_of(d) }),
    }
}

/// Reads the first `n` fields of a container as JSON values, keeping their
/// keys; the first field that fails gives the result.
pub open spec fn fields_to_json(fs: Seq<(Seq<char>, DocumentModel)>, n: nat) -> Result<
    Seq<(Seq<char>, JsonModel)>,
    ConvError,
>
    decreases fs, n,
{
    if n == 0 || n > fs.len() {
        Ok(Seq::empty())
    } else {
        match fields_to_json(fs, (n - 1) as nat) {
            Err(e) => Err(e),
            Ok(prev) => match doc_to_json(fs[n - 1].1) {
                Ok(x) => Ok(prev.push((fs[n - 1].0, x))),
                Err(e) => Err(e),
            },
        }
    }
}

proof fn lemma_fields_to_json_len(fs: Seq<(Seq<char>, DocumentModel)>, n: nat)
    requires
        n <= fs.len(),
    ensures
        fields_to_json(fs, n) is Ok ==> fields_to_json(fs, n)->Ok_0.len() == n,
    decreases n,
{
    if n > 0 {
        lemma_fields_to_json_len(fs, (n - 1) as nat);
    }
}

/// Writes a JSON value as a document value.
pub fn json_to_bson(j: &Json) -> (r: Document)
    ensures
        r@ == json_to_doc(j@),
    decreases j,
{
    match j {
        Json::Null => Document::Null,
        Json::Number(b) => Document::Double(*b),
        Json::String(s) => Document::UString(s.clone()),
        Json::Boolean(b) => Document::Bool(*b),
        Json::List(v) => {
            let ghost items = Seq::new(
                v@.len(),
                |k: int|
                    if 0 <= k < v@.len() {
                        json_model(v@[k])
                    } else {
                        JsonModel::Null
                    },
            );
            proof {
                if let JsonModel::List(s) = j@ {
                    assert(s =~= items);
                }
            }
            let mut doc = BsonDocument::new();
            let n = v.len();
            let mut i: usize = 0;
            while i < n
                invariant
                    n == v@.len(),
                    *j == Json::List(*v),
                    j@ == JsonModel::List(items),
                    items.len() == n,
                    forall|k: int| 0 <= k < n ==> #[trigger] items[k] == json_model(v@[k]),
                    i <= n,
                    doc@.len() == i,
                    forall|k: int|
                        0 <= k < i ==> #[trigger] doc@[k] == (
                            index_key(k as nat),
                            json_to_doc(items[k]),
                        ),
                decreases n - i,
            {
                let key = index_key_string(i);
                proof {
                    assert(items[i as int] == json_model(v@[i as int]));
                }
                let value = json_to_bson(&v[i]);
                proof {
                    assert forall|k: int| 0 <= k < doc@.len() implies #[trigger] doc@[k].0
                        != key@ by {
                        lemma_index_key_injective(k as nat, i as nat);
                    }
                    assert(key_position(doc@, key@).is_none());
                }
                doc.put(key, value);
                i = i + 1;
            }
            proof {
                if let DocumentModel::Array(fs) = json_to_doc(j@) {
                    assert(doc@ =~= fs);
                }
            }
            Document::Array(Box::new(doc))
        },
        Json::Object(m) => {
            let entries = &m.entries;
            proof {
                use_type_invariant(&**m);
                lemma_object_model(**m);
            }
            let ghost es = object_model(**m);
            let mut doc = BsonDocument::new();
            let n = entries.len();
            let mut i: usize = 0;
            while i < n
                invariant
                    n == entries@.len(),
                    *j == Json::Object(*m),
                    *entries == m.entries,
                    entries_model(entries@) == m@,
                    entry_keys_unique(m@),
                    j@ == JsonModel::Object(es),
                    es.len() == n,
                    forall|k: int|
                        0 <= k < n ==> #[trigger] es[k] == (m@[k].0, json_model(m@[k].1)),
                    i <= n,
                    doc@.len() == i,
                    forall|k: int|
                        0 <= k < i ==> #[trigger] doc@[k] == (es[k].0, json_to_doc(es[k].1)),
                decreases n - i,
            {
                let key = entries[i].0.clone();
                proof {
                    assert(es[i as int] == (m@[i as int].0, json_model(m@[i as int].1)));
                    assert(m@[i as int] == (entries@[i as int].0@, entries@[i as int].1));
                }
                let value = json_to_bson(&entries[i].1);
                proof {
                    assert forall|k: int| 0 <= k < doc@.len() implies #[trigger] doc@[k].0
                        != key@ by {
                        assert(m@[k].0 != m@[i as int].0);
                    }
                    assert(key_position(doc@, key@).is_none());
                }
                doc.put(key, value);
                i = i + 1;
            }
            proof {
                if let DocumentModel::Embedded(fs) = json_to_doc(j@) {
                    assert(doc@ =~= fs);
                }
            }
            Document::Embedded(Box::new(doc))
        },
    }
}

/// Reads a JSON value back from a document value.
pub fn bson_to_json(doc: Document) -> (r: Result<Json, ConvError>)
    ensures
        match r {
            Ok(j) => doc_to_json(doc@) == Ok::<JsonModel, ConvError>(j@),
            Err(e) => doc_to_json(doc@) == Err::<JsonModel, ConvError>(e),
        },
    decreases doc, 0nat,
{
    match doc {
        Document::Double(b) => Ok(Json::Number(b)),
        Document::Int32(i) => Ok(Json::Number(double_bits_of_i64(i as i64))),
        Document::Int64(i) => Ok(Json::Number(double_bits_of_i64(i))),
        Document::UTCDate(i) => Ok(Json::Number(double_bits_of_i64(i))),
        Document::Timestamp(i) => Ok(Json::Number(double_bits_of_i64(i))),
        Document::UString(s) => Ok(Json::String(s)),
        Document::JScript(s) => Ok(Json::String(s)),
        Document::Bool(b) => Ok(Json::Boolean(b)),
        Document::Null => Ok(Json::Null),
        Document::Embedded(b) => fields_to_json_value(*b, true),
        Document::Array(b) => fields_to_json_value(*b, false),
        other => Err(ConvError::Unrepresentable { variant: other.kind() }),
    }
}

/// Reads the fields of a container as a JSON object (`as_object`) or list.
fn fields_to_json_value(b: BsonDocument, as_object: bool) -> (r: Result<Json, ConvError>)
    ensures
        ({
            let d = if as_object {
                DocumentModel::Embedded(b@)
            } else {
                DocumentModel::Array(b@)
            };
            match r {
                Ok(j) => doc_to_json(d) == Ok::<JsonModel, ConvError>(j@),
                Err(e) => doc_to_json(d) == Err::<JsonModel, ConvError>(e),
            }
        }),
    decreases b, 1nat,
{
    let ghost fs = b@;
    proof {
        b.lemma_view();
    }
    let ghost bb = b;
    let mut fields = b.into_fields();
    let ghost all = fields@;
    let n = fields.len();
    let mut list: Vec<Json> = Vec::new();
    let mut obj: StrMap<Json> = StrMap::new();
    let mut i: usize = 0;
    proof {
        lemma_fields_to_json_len(fs, 0);
    }
    while i < n
        invariant
            n == all.len(),
            bb == b,
            fs == b@,
            fs.len() == n,
            keys_unique(fs),
            i <= n,
            forall|k: int| 0 <= k < n ==> #[trigger] fs[k] == (all[k].0@, all[k].1@),
            forall|k: int| 0 <= k < n ==> decreases_to!(bb => (#[trigger] all[k]).1),
            fields@ == all.subrange(i as int, n as int),
            fields_to_json(fs, i as nat) is Ok,
            fields_to_json(fs, i as nat)->Ok_0.len() == i,
            as_object ==> obj@.len() == i,
            as_object ==> forall|k: int|
                0 <= k < i ==> (#[trigger] obj@[k]).0 == fields_to_json(fs, i as nat)->Ok_0[k].0
                    && json_model(obj@[k].1) == fields_to_json(fs, i as nat)->Ok_0[k].1,
            !as_object ==> list@.len() == i,
            !as_object ==> forall|k: int|
                0 <= k < i ==> json_model(#[trigger] list@[k]) == fields_to_json(
                    fs,
                    i as nat,
                )->Ok_0[k].1,
        decreases n - i,
    {
        let (key, value) = fields.remove(0);
        proof {
            assert(value == all[i as int].1);
            assert(key == all[i as int].0);
            assert(decreases_to!(bb => all[i as int].1));
        }
        let ghost prev = fields_to_json(fs, i as nat)->Ok_0;
        match bson_to_json(value) {
            Ok(x) => {
                proof {
                    assert(fields_to_json(fs, (i + 1) as nat) == Ok::<
                        Seq<(Seq<char>, JsonModel)>,
                        ConvError,
                    >(prev.push((fs[i as int].0, x@))));
                }
                if as_object {
                    proof {
                        lemma_fields_to_json_keys(fs, i as nat);
                        assert forall|k: int| 0 <= k < obj@.len() implies #[trigger] obj@[k].0
                            != key@ by {
                            assert(prev[k].0 == fs[k].0);
                            assert(fs[k].0 != fs[i as int].0);
                        }
                        assert(entry_position(obj@, key@).is_none());
                    }
                    obj.insert(key, x);
                } else {
                    list.push(x);
                }
            },
            Err(e) => {
                proof {
                    lemma_fields_to_json_err(fs, (i + 1) as nat, n as nat);
                }
                return Err(e);
            },
        }
        i = i + 1;
    }
    let ghost es = fields_to_json(fs, n as nat)->Ok_0;
    if as_object {
        let m = Box::new(obj);
        proof {
            lemma_object_model(*m);
            assert(object_model(*m) =~= es);
        }
        Ok(Json::Object(m))
    } else {
        let j = Json::List(list);
        proof {
            if let JsonModel::List(s) = j@ {
                assert(s =~= es.map_values(|e: (Seq<char>, JsonModel)| e.1));
            }
        }
        Ok(j)
    }
}

proof fn lemma_fields_to_json_keys(fs: Seq<(Seq<char>, DocumentModel)>, n: nat)
    requires
        n <= fs.len(),
        fields_to_json(fs, n) is Ok,
    ensures
        fields_to_json(fs, n)->Ok_0.len() == n,
        forall|k: int|
            0 <= k < n ==> (#[trigger] fields_to_json(fs, n)->Ok_0[k]).0 == fs[k].0,
    decreases n,
{
    lemma_fields_to_json_len(fs, n);
    if n > 0 {
        lemma_fields_to_json_keys(fs, (n - 1) as nat);
    }
}

/// Once reading the first `n` fields fails, reading more fails the same way.
proof fn lemma_fields_to_json_err(fs: Seq<(Seq<char>, DocumentModel)>, n: nat, m: nat)
    requires
        1 <= n <= m <= fs.len(),
        fields_to_json(fs, n) is Err,
    ensures
        fields_to_json(fs, m) == fields_to_json(fs, n),
    decreases m - n,
{
    if n < m {
        lemma_fields_to_json_err(fs, n, (m - 1) as nat);
    }
}

impl BsonFormattable for Json {
    open spec fn spec_to_bson(&self) -> DocumentModel {
        json_to_doc(self@)
    }

    open spec fn accepts(d: DocumentModel) -> bool {
        doc_to_json(d) is Ok
    }

    open spec fn rejection(d: DocumentModel) -> ConvError {
        doc_to_json(d)->Err_0
    }

    open spec fn reads_as(d: DocumentModel, v: Json) -> bool {
        doc_to_json(d) == Ok::<JsonModel, ConvError>(v@)
    }

    fn to_bson_t(&self) -> (r: Document) {
        json_to_bson(self)
    }

    fn from_bson_t(doc: Document) -> (r: Result<Json, ConvError>) {
        bson_to_json(doc)
    }
}

} // verus!
