use vstd::prelude::*;

verus! {

broadcast use vstd::std_specs::vec::group_vec_axioms, vstd::seq::group_seq_axioms;

/// The mathematical value of a document: strings and byte strings as sequences,
/// containers as ordered sequences of (key, value) pairs.
pub enum DocumentModel {
    Double(u64),
    Int32(i32),
    Int64(i64),
    UString(Seq<char>),
    Embedded(Seq<(Seq<char>, DocumentModel)>),
    Array(Seq<(Seq<char>, DocumentModel)>),
    Binary(u8, Seq<u8>),
    ObjectId(Seq<u8>),
    Bool(bool),
    UTCDate(i64),
    Null,
    Regex(Seq<char>, Seq<char>),
    JScript(Seq<char>),
    JScriptWithScope(Seq<char>, Seq<(Seq<char>, DocumentModel)>),
    Timestamp(i64),
    MinKey,
    MaxKey,
}

/// The name of each kind of document value, used in conversion errors.
#[derive(PartialEq, Eq, Structural, Clone, Copy, Debug)]
pub enum DocKind {
    Double,
    Int32,
    Int64,
    UString,
    Embedded,
    Array,
    Binary,
    ObjectId,
    Bool,
    UTCDate,
    Null,
    Regex,
    JScript,
    JScriptWithScope,
    Timestamp,
    MinKey,
    MaxKey,
}

/// One document value. A `Double` holds the IEEE-754 binary64 bit pattern of
/// the number.
#[derive(Debug, PartialEq)]
pub enum Document {
    Double(u64),
    Int32(i32),
    Int64(i64),
    UString(String),
    Embedded(Box<BsonDocument>),
    Array(Box<BsonDocument>),
    Binary(u8, Vec<u8>),
    ObjectId(Vec<u8>),
    Bool(bool),
    UTCDate(i64),
    Null,
    Regex(String, String),
    JScript(String),
    JScriptWithScope(String, Box<BsonDocument>),
    Timestamp(i64),
    MinKey,
    MaxKey,
}

/// An ordered container of fields with unique keys.
#[derive(Debug, PartialEq)]
pub struct BsonDocument {
    fields: Vec<(String, Document)>,
}

/// No two entries of `s` have keys with the same characters.
pub open spec fn keys_unique(s: Seq<(Seq<char>, DocumentModel)>) -> bool {
    forall|i: int, j: int|
        0 <= i < s.len() && 0 <= j < s.len() && i != j ==> #[trigger] s[i].0 != #[trigger] s[j].0
}

/// The position of the first entry of `s` whose key is `k`, if any.
pub open spec fn key_position(s: Seq<(Seq<char>, DocumentModel)>, k: Seq<char>) -> Option<int> {
    if exists|i: int| 0 <= i < s.len() && #[trigger] s[i].0 == k {
        Some(choose|i: int| 0 <= i < s.len() && #[trigger] s[i].0 == k)
    } else {
        None
    }
}

/// The model of the first `n` fields of a container.
pub open spec fn fields_model(s: Seq<(String, Document)>, n: nat) -> Seq<(Seq<char>, DocumentModel)>
    decreases s, n,
{
    if n == 0 || n > s.len() {
        Seq::empty()
    } else {
        fields_model(s, (n - 1) as nat).push((s[n - 1].0@, document_model(s[n - 1].1)))
    }
}

/// The model of a document value.
pub open spec fn document_model(d: Document) -> DocumentModel
    decreases d, 0nat,
{
    match d {
        Document::Double(x) => DocumentModel::Double(x),
        Document::Int32(x) => DocumentModel::Int32(x),
        Document::Int64(x) => DocumentModel::Int64(x),
        Document::UString(s) => DocumentModel::UString(s@),
        Document::Embedded(b) => DocumentModel::Embedded(container_model(*b)),
        Document::Array(b) => DocumentModel::Array(container_model(*b)),
        Document::Binary(t, v) => DocumentModel::Binary(t, v@),
        Document::ObjectId(v) => DocumentModel::ObjectId(v@),
        Document::Bool(x) => DocumentModel::Bool(x),
        Document::UTCDate(x) => DocumentModel::UTCDate(x),
        Document::Null => DocumentModel::Null,
        Document::Regex(p, o) => DocumentModel::Regex(p@, o@),
        Document::JScript(s) => DocumentModel::JScript(s@),
        Document::JScriptWithScope(s, b) => DocumentModel::JScriptWithScope(s@, container_model(*b)),
        Document::Timestamp(x) => DocumentModel::Timestamp(x),
        Document::MinKey => DocumentModel::MinKey,
        Document::MaxKey => DocumentModel::MaxKey,
    }
}

/// The model of a container: its fields' models, in order.
pub closed spec fn container_model(b: BsonDocument) -> Seq<(Seq<char>, DocumentModel)>
    decreases b, 1nat,
{
    fields_model(b.fields@, b.fields@.len())
}

pub proof fn lemma_fields_model_len(s: Seq<(String, Document)>, n: nat)
    requires
        n <= s.len(),
    ensures
        fields_model(s, n).len() == n,
    decreases n,
{
    if n > 0 {
        lemma_fields_model_len(s, (n - 1) as nat);
    }
}

pub proof fn lemma_fields_model_index(s: Seq<(String, Document)>, n: nat, i: int)
    requires
        n <= s.len(),
        0 <= i < n,
    ensures
        fields_model(s, n).len() == n,
        fields_model(s, n)[i] == (s[i].0@, document_model(s[i].1)),
    decreases n,
{
    lemma_fields_model_len(s, n);
    if i < n - 1 {
        lemma_fields_model_index(s, (n - 1) as nat, i);
    }
}

pub proof fn lemma_fields_model_all(s: Seq<(String, Document)>)
    ensures
        fields_model(s, s.len()).len() == s.len(),
        forall|i: int|
            0 <= i < s.len() ==> #[trigger] fields_model(s, s.len())[i] == (
                s[i].0@,
                document_model(s[i].1),
            ),
{
    lemma_fields_model_len(s, s.len());
    assert forall|i: int| 0 <= i < s.len() implies #[trigger] fields_model(s, s.len())[i] == (
        s[i].0@,
        document_model(s[i].1),
    ) by {
        lemma_fields_model_index(s, s.len(), i);
    }
}

impl View for Document {
    type V = DocumentModel;

    open spec fn view(&self) -> DocumentModel {
        document_model(*self)
    }
}

impl Document {
    /// The kind of this value.
    pub fn kind(&self) -> (r: DocKind)
        ensures
            r == kind_of(self@),
    {
        match self {
            Document::Double(_) => DocKind::Double,
            Document::Int32(_) => DocKind::Int32,
            Document::Int64(_) => DocKind::Int64,
            Document::UString(_) => DocKind::UString,
            Document::Embedded(_) => DocKind::Embedded,
            Document::Array(_) => DocKind::Array,
            Document::Binary(_, _) => DocKind::Binary,
            Document::ObjectId(_) => DocKind::ObjectId,
            Document::Bool(_) => DocKind::Bool,
            Document::UTCDate(_) => DocKind::UTCDate,
            Document::Null => DocKind::Null,
            Document::Regex(_, _) => DocKind::Regex,
            Document::JScript(_) => DocKind::JScript,
            Document::JScriptWithScope(_, _) => DocKind::JScriptWithScope,
            Document::Timestamp(_) => DocKind::Timestamp,
            Document::MinKey => DocKind::MinKey,
            Document::MaxKey => DocKind::MaxKey,
        }
    }
}

impl Document {
    /// A copy of this value.
    pub fn duplicate(&self) -> (r: Document)
        ensures
            r@ == self@,
        decreases self, 0nat,
    {
        match self {
            Document::Double(x) => Document::Double(*x),
            Document::Int32(x) => Document::Int32(*x),
            Document::Int64(x) => Document::Int64(*x),
            Document::UString(s) => Document::UString(s.clone()),
            Document::Embedded(b) => Document::Embedded(Box::new(b.duplicate())),
            Document::Array(b) => Document::Array(Box::new(b.duplicate())),
            Document::Binary(t, v) => Document::Binary(*t, copy_bytes(v)),
            Document::ObjectId(v) => Document::ObjectId(copy_bytes(v)),
            Document::Bool(x) => Document::Bool(*x),
            Document::UTCDate(x) => Document::UTCDate(*x),
            Document::Null => Document::Null,
            Document::Regex(p, o) => Document::Regex(p.clone(), o.clone()),
            Document::JScript(s) => Document::JScript(s.clone()),
            Document::JScriptWithScope(s, b) => Document::JScriptWithScope(
                s.clone(),
                Box::new(b.duplicate()),
            ),
            Document::Timestamp(x) => Document::Timestamp(*x),
            Document::MinKey => Document::MinKey,
            Document::MaxKey => Document::MaxKey,
        }
    }
}

fn copy_bytes(v: &Vec<u8>) -> (r: Vec<u8>)
    ensures
        r@ == v@,
{
    let mut r: Vec<u8> = Vec::new();
    let mut i: usize = 0;
    while i < v.len()
        invariant
            i <= v@.len(),
            r@ == v@.subrange(0, i as int),
        decreases v@.len() - i,
    {
        r.push(v[i]);
        i = i + 1;
    }
    proof {
        assert(r@ =~= v@);
    }
    r
}

/// The kind of a document model.
pub open spec fn kind_of(d: DocumentModel) -> DocKind {
    match d {
        DocumentModel::Double(_) => DocKind::Double,
        DocumentModel::Int32(_) => DocKind::Int32,
        DocumentModel::Int64(_) => DocKind::Int64,
        DocumentModel::UString(_) => DocKind::UString,
        DocumentModel::Embedded(_) => DocKind::Embedded,
        DocumentModel::Array(_) => DocKind::Array,
        DocumentModel::Binary(_, _) => DocKind::Binary,
        DocumentModel::ObjectId(_) => DocKind::ObjectId,
        DocumentModel::Bool(_) => DocKind::Bool,
        DocumentModel::UTCDate(_) => DocKind::UTCDate,
        DocumentModel::Null => DocKind::Null,
        DocumentModel::Regex(_, _) => DocKind::Regex,
        DocumentModel::JScript(_) => DocKind::JScript,
        DocumentModel::JScriptWithScope(_, _) => DocKind::JScriptWithScope,
        DocumentModel::Timestamp(_) => DocKind::Timestamp,
        DocumentModel::MinKey => DocKind::MinKey,
        DocumentModel::MaxKey => DocKind::MaxKey,
    }
}

impl View for BsonDocument {
    type V = Seq<(Seq<char>, DocumentModel)>;

    open spec fn view(&self) -> Seq<(Seq<char>, DocumentModel)> {
        container_model(*self)
    }
}

impl BsonDocument {
    #[verifier::type_invariant]
    closed spec fn inv(self) -> bool {
        keys_unique(fields_model(self.fields@, self.fields@.len()))
    }

    /// The fields in their stored order.
    pub closed spec fn spec_fields(&self) -> Seq<(String, Document)> {
        self.fields@
    }

    /// The model is the fields' models, in order.
    pub proof fn lemma_view(&self)
        ensures
            self@.len() == self.spec_fields().len(),
            forall|i: int|
                0 <= i < self@.len() ==> #[trigger] self@[i] == (
                    self.spec_fields()[i].0@,
                    self.spec_fields()[i].1@,
                ),
    {
        lemma_fields_model_all(self.fields@);
    }

    pub fn new() -> (r: BsonDocument)
        ensures
            r@ == Seq::<(Seq<char>, DocumentModel)>::empty(),
    {
        let r = BsonDocument { fields: Vec::new() };
        proof {
            lemma_fields_model_len(r.fields@, 0);
        }
        r
    }

    pub fn len(&self) -> (r: usize)
        ensures
            r == self@.len(),
    {
        proof {
            self.lemma_view();
        }
        self.fields.len()
    }

    /// The fields in their stored order; their keys are unique.
    pub fn fields(&self) -> (r: &Vec<(String, Document)>)
        ensures
            r@ == self.spec_fields(),
            keys_unique(self@),
    {
        proof {
            use_type_invariant(self);
        }
        &self.fields
    }

    /// A copy of this container.
    pub fn duplicate(&self) -> (r: BsonDocument)
        ensures
            r@ == self@,
        decreases self, 1nat,
    {
        proof {
            use_type_invariant(self);
            lemma_fields_model_all(self.fields@);
        }
        let n = self.fields.len();
        let mut fields: Vec<(String, Document)> = Vec::new();
        let mut i: usize = 0;
        while i < n
            invariant
                n == self.fields@.len(),
                i <= n,
                fields@.len() == i,
                forall|k: int|
                    0 <= k < i ==> #[trigger] fields@[k].0@ == self.fields@[k].0@
                        && fields@[k].1@ == self.fields@[k].1@,
            decreases n - i,
        {
            let key = self.fields[i].0.clone();
            let value = self.fields[i].1.duplicate();
            fields.push((key, value));
            i = i + 1;
        }
        proof {
            lemma_fields_model_all(fields@);
            assert(fields_model(fields@, fields@.len()) =~= self@);
        }
        BsonDocument { fields }
    }

    /// Gives up the container for its fields, in their stored order; their keys
    /// are unique.
    pub fn into_fields(self) -> (r: Vec<(String, Document)>)
        ensures
            r@ == self.spec_fields(),
            keys_unique(self@),
            forall|i: int| 0 <= i < r@.len() ==> decreases_to!(self => (#[trigger] r@[i]).1),
    {
        proof {
            use_type_invariant(&self);
            assert forall|i: int| 0 <= i < self.fields@.len() implies decreases_to!(self => (
            #[trigger] self.fields@[i]).1) by {
                assert(decreases_to!(self.fields => self.fields[i]));
            }
        }
        self.fields
    }

    /// Inserts a field. A key already present keeps its position and takes the
    /// new value; a new key goes at the end.
    pub fn put(&mut self, key: String, value: Document)
        ensures
            final(self)@ == match key_position(old(self)@, key@) {
                Some(i) => old(self)@.update(i, (key@, value@)),
                None => old(self)@.push((key@, value@)),
            },
    {
        proof {
            use_type_invariant(&*self);
            self.lemma_view();
        }
        let ghost old_model = old(self)@;
        let mut taken = BsonDocument { fields: Vec::new() };
        proof {
            lemma_fields_model_len(taken.fields@, 0);
        }
        core::mem::swap(self, &mut taken);
        let BsonDocument { fields: mut fields } = taken;
        let n = fields.len();
        let mut i: usize = 0;
        while i < n
            invariant
                n == fields@.len(),
                old_model == old(self)@,
                old_model == fields_model(fields@, fields@.len()),
                old_model.len() == n,
                keys_unique(old_model),
                forall|k: int|
                    0 <= k < n ==> #[trigger] old_model[k] == (fields@[k].0@, fields@[k].1@),
                forall|k: int| 0 <= k < i ==> #[trigger] old_model[k].0 != key@,
            decreases n - i,
        {
            if fields[i].0 == key {
                proof {
                    assert(old_model[i as int].0 == key@);
                    let j = choose|j: int| 0 <= j < old_model.len() && #[trigger] old_model[j].0 == key@;
                    assert(old_model[j].0 == key@);
                    if j != i {
                        assert(old_model[j].0 != old_model[i as int].0);
                    }
                    assert(key_position(old_model, key@) == Some(i as int));
                }
                fields.set(i, (key, value));
                proof {
                    lemma_fields_model_all(fields@);
                    let m = fields_model(fields@, fields@.len());
                    assert(m =~= old_model.update(i as int, (key@, value@)));
                    assert forall|a: int, b: int|
                        0 <= a < m.len() && 0 <= b < m.len() && a != b implies #[trigger] m[a].0
                        != #[trigger] m[b].0 by {
                        assert(old_model[a].0 != old_model[b].0);
                    }
                }
                let ghost pos = i as int;
                *self = BsonDocument { fields };
                proof {
                    assert(self@ == old_model.update(pos, (key@, value@)));
                    assert(key_position(old_model, key@) == Some(pos));
                }
                return;
            }
            i = i + 1;
        }
        proof {
            assert(key_position(old_model, key@).is_none());
        }
        fields.push((key, value));
        proof {
            lemma_fields_model_all(fields@);
            let m = fields_model(fields@, fields@.len());
            assert(m =~= old_model.push((key@, value@)));
            assert forall|a: int, b: int|
                0 <= a < m.len() && 0 <= b < m.len() && a != b implies #[trigger] m[a].0
                != #[trigger] m[b].0 by {
                if a < n && b < n {
                    assert(old_model[a].0 != old_model[b].0);
                }
            }
        }
        *self = BsonDocument { fields };
    }
}

} // verus!
