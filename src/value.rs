use vstd::prelude::*;

verus! {

/// Declared semantic type of one projected column.
#[derive(Clone, Copy, Debug, PartialEq, Eq, Structural)]
pub enum TypeIdentifier {
    String,
    Int,
    Boolean,
    Enum,
    Json,
    GraphQLID,
    UUID,
    Relation,
}

/// An untyped column value as the storage engine hands it out.
#[derive(Debug, PartialEq)]
pub enum RawValue {
    Null,
    Integer(i64),
    Text(String),
    Blob(Vec<u8>),
}

/// Identifier of a record.
#[derive(Debug)]
pub enum GraphqlId {
    String(String),
    Int(u64),
    Uuid(Vec<u8>),
}

/// A typed domain value.
#[derive(Debug, PartialEq)]
pub enum PrismaValue {
    Null,
    String(String),
    Int(i64),
    Boolean(bool),
    Enum(String),
    Json(String),
    GraphqlId(GraphqlId),
    Uuid(Vec<u8>),
}

pub enum RawView {
    Null,
    Integer(int),
    Text(Seq<char>),
    Blob(Seq<u8>),
}

pub enum IdView {
    Text(Seq<char>),
    Int(nat),
    Uuid(Seq<u8>),
}

pub enum ValueView {
    Null,
    String(Seq<char>),
    Int(int),
    Boolean(bool),
    Enum(Seq<char>),
    Json(Seq<char>),
    Id(IdView),
    Uuid(Seq<u8>),
}

impl View for RawValue {
    type V = RawView;

    open spec fn view(&self) -> RawView {
        match self {
            RawValue::Null => RawView::Null,
            RawValue::Integer(i) => RawView::Integer(*i as int),
            RawValue::Text(s) => RawView::Text(s@),
            RawValue::Blob(b) => RawView::Blob(b@),
        }
    }
}

impl View for GraphqlId {
    type V = IdView;

    open spec fn view(&self) -> IdView {
        match self {
            GraphqlId::String(s) => IdView::Text(s@),
            GraphqlId::Int(n) => IdView::Int(*n as nat),
            GraphqlId::Uuid(b) => IdView::Uuid(b@),
        }
    }
}

impl View for PrismaValue {
    type V = ValueView;

    open spec fn view(&self) -> ValueView {
        match self {
            PrismaValue::Null => ValueView::Null,
            PrismaValue::String(s) => ValueView::String(s@),
            PrismaValue::Int(i) => ValueView::Int(*i as int),
            PrismaValue::Boolean(b) => ValueView::Boolean(*b),
            PrismaValue::Enum(s) => ValueView::Enum(s@),
            PrismaValue::Json(s) => ValueView::Json(s@),
            PrismaValue::GraphqlId(id) => ValueView::Id(id@),
            PrismaValue::Uuid(b) => ValueView::Uuid(b@),
        }
    }
}

/// Number of bytes in a UUID.
pub const UUID_LEN: usize = 16;

/// The identifier that a column value stands for, if any.
pub open spec fn raw_id(raw: RawView) -> Option<IdView> {
    match raw {
        RawView::Text(s) => Some(IdView::Text(s)),
        RawView::Integer(i) => if i >= 0 { Some(IdView::Int(i as nat)) } else { None },
        RawView::Blob(b) => if b.len() == UUID_LEN { Some(IdView::Uuid(b)) } else { None },
        RawView::Null => None,
    }
}

/// What a column value decodes to under a type tag; `None` where the two do not fit.
pub open spec fn decode_spec(raw: RawView, tag: TypeIdentifier) -> Option<ValueView> {
    match raw {
        RawView::Null => Some(ValueView::Null),
        _ => match tag {
            TypeIdentifier::String => match raw {
                RawView::Text(s) => Some(ValueView::String(s)),
                _ => None,
            },
            TypeIdentifier::Enum => match raw {
                RawView::Text(s) => Some(ValueView::Enum(s)),
                _ => None,
            },
            TypeIdentifier::Json => match raw {
                RawView::Text(s) => Some(ValueView::Json(s)),
                _ => None,
            },
            TypeIdentifier::Int => match raw {
                RawView::Integer(i) => Some(ValueView::Int(i)),
                _ => None,
            },
            TypeIdentifier::Boolean => match raw {
                RawView::Integer(i) => Some(ValueView::Boolean(i != 0)),
                _ => None,
            },
            TypeIdentifier::UUID => match raw {
                RawView::Blob(b) => if b.len() == UUID_LEN { Some(ValueView::Uuid(b)) } else { None },
                _ => None,
            },
            TypeIdentifier::GraphQLID | TypeIdentifier::Relation => match raw_id(raw) {
                Some(id) => Some(ValueView::Id(id)),
                None => None,
            },
        },
    }
}

/// The column value that a domain value is stored as.
pub open spec fn encode_spec(v: ValueView) -> RawView {
    match v {
        ValueView::Null => RawView::Null,
        ValueView::String(s) => RawView::Text(s),
        ValueView::Enum(s) => RawView::Text(s),
        ValueView::Json(s) => RawView::Text(s),
        ValueView::Int(i) => RawView::Integer(i),
        ValueView::Boolean(b) => RawView::Integer(if b { 1 } else { 0 }),
        ValueView::Uuid(b) => RawView::Blob(b),
        ValueView::Id(IdView::Text(s)) => RawView::Text(s),
        ValueView::Id(IdView::Int(n)) => RawView::Integer(n as int),
        ValueView::Id(IdView::Uuid(b)) => RawView::Blob(b),
    }
}

/// A value that the engine can store: integers within 64 bits, UUIDs of sixteen bytes.
pub open spec fn storable(v: ValueView) -> bool {
    match v {
        ValueView::Int(i) => i64::MIN <= i <= i64::MAX,
        ValueView::Uuid(b) => b.len() == UUID_LEN,
        ValueView::Id(IdView::Int(n)) => n <= i64::MAX,
        ValueView::Id(IdView::Uuid(b)) => b.len() == UUID_LEN,
        _ => true,
    }
}

/// The type tags under which a value decodes back to itself.
pub open spec fn tag_fits(v: ValueView, tag: TypeIdentifier) -> bool {
    match v {
        ValueView::Null => true,
        ValueView::String(_) => tag == TypeIdentifier::String,
        ValueView::Enum(_) => tag == TypeIdentifier::Enum,
        ValueView::Json(_) => tag == TypeIdentifier::Json,
        ValueView::Int(_) => tag == TypeIdentifier::Int,
        ValueView::Boolean(_) => tag == TypeIdentifier::Boolean,
        ValueView::Uuid(_) => tag == TypeIdentifier::UUID,
        ValueView::Id(_) => tag == TypeIdentifier::GraphQLID || tag == TypeIdentifier::Relation,
    }
}

/// Decoding what a storable value was encoded to, under a tag that fits it,
/// gives back that value.
pub proof fn lemma_round_trip(v: ValueView, tag: TypeIdentifier)
    requires
        storable(v),
        tag_fits(v, tag),
    ensures
        decode_spec(encode_spec(v), tag) == Some(v),
{
}

/// Relies on uuid::Uuid::from_slice, which accepts exactly sixteen bytes and
/// keeps them as they are, and on uuid::Uuid::as_bytes, which hands them back.
#[verifier::external_body]
fn uuid_bytes(b: &[u8]) -> (r: Option<Vec<u8>>)
    ensures
        r is Some <==> b@.len() == UUID_LEN,
        r matches Some(u) ==> u@ == b@,
{
    match uuid::Uuid::from_slice(b) {
        Ok(u) => Some(u.as_bytes().to_vec()),
        Err(_) => None,
    }
}

fn copy_bytes(b: &Vec<u8>) -> (r: Vec<u8>)
    ensures
        r@ == b@,
{
    let mut r: Vec<u8> = Vec::new();
    let mut i: usize = 0;
    while i < b.len()
        invariant
            i <= b.len(),
            r@ == b@.take(i as int),
        decreases b.len() - i,
    {
        r.push(b[i]);
        i = i + 1;
        assert(r@ =~= b@.take(i as int));
    }
    assert(b@.take(b.len() as int) =~= b@);
    r
}

fn same_bytes(a: &Vec<u8>, b: &Vec<u8>) -> (r: bool)
    ensures
        r == (a@ == b@),
{
    if a.len() != b.len() {
        assert(a@.len() != b@.len());
        return false;
    }
    let mut i: usize = 0;
    while i < a.len()
        invariant
            a@.len() == b@.len(),
            i <= a.len(),
            forall|j: int| 0 <= j < i ==> a@[j] == b@[j],
        decreases a.len() - i,
    {
        if a[i] != b[i] {
            assert(a@[i as int] != b@[i as int]);
            return false;
        }
        i = i + 1;
    }
    assert(a@ =~= b@);
    true
}

impl GraphqlId {
    /// A copy of this identifier.
    pub fn duplicate(&self) -> (r: GraphqlId)
        ensures
            r@ == self@,
    {
        match self {
            GraphqlId::String(s) => GraphqlId::String(s.clone()),
            GraphqlId::Int(n) => GraphqlId::Int(*n),
            GraphqlId::Uuid(b) => GraphqlId::Uuid(copy_bytes(b)),
        }
    }

    /// Whether two identifiers are the same.
    pub fn same_as(&self, other: &GraphqlId) -> (r: bool)
        ensures
            r == (self@ == other@),
    {
        match self {
            GraphqlId::String(a) => match other {
                GraphqlId::String(b) => a.eq(b),
                _ => false,
            },
            GraphqlId::Int(a) => match other {
                GraphqlId::Int(b) => *a == *b,
                _ => false,
            },
            GraphqlId::Uuid(a) => match other {
                GraphqlId::Uuid(b) => same_bytes(a, b),
                _ => false,
            },
        }
    }
}

impl PartialEq for GraphqlId {
    fn eq(&self, other: &GraphqlId) -> (r: bool) {
        self.same_as(other)
    }
}

impl vstd::std_specs::cmp::PartialEqSpecImpl for GraphqlId {
    open spec fn obeys_eq_spec() -> bool {
        true
    }

    open spec fn eq_spec(&self, other: &GraphqlId) -> bool {
        self@ == other@
    }
}

impl PrismaValue {
    /// A copy of this value.
    pub fn duplicate(&self) -> (r: PrismaValue)
        ensures
            r@ == self@,
    {
        match self {
            PrismaValue::Null => PrismaValue::Null,
            PrismaValue::String(s) => PrismaValue::String(s.clone()),
            PrismaValue::Int(i) => PrismaValue::Int(*i),
            PrismaValue::Boolean(b) => PrismaValue::Boolean(*b),
            PrismaValue::Enum(s) => PrismaValue::Enum(s.clone()),
            PrismaValue::Json(s) => PrismaValue::Json(s.clone()),
            PrismaValue::GraphqlId(id) => PrismaValue::GraphqlId(id.duplicate()),
            PrismaValue::Uuid(b) => PrismaValue::Uuid(copy_bytes(b)),
        }
    }
}

/// The identifier that a column value stands for, if any.
fn id_from_raw(raw: &RawValue) -> (r: Option<GraphqlId>)
    ensures
        r matches Some(id) ==> raw_id(raw@) == Some(id@),
        r is None ==> raw_id(raw@) is None,
{
    match raw {
        RawValue::Text(s) => Some(GraphqlId::String(s.clone())),
        RawValue::Integer(i) => if *i >= 0 { Some(GraphqlId::Int(*i as u64)) } else { None },
        RawValue::Blob(b) => match uuid_bytes(b.as_slice()) {
            Some(u) => Some(GraphqlId::Uuid(u)),
            None => None,
        },
        RawValue::Null => None,
    }
}

/// Decodes one column value against its declared type tag.
pub fn decode_value(raw: &RawValue, tag: TypeIdentifier) -> (r: Option<PrismaValue>)
    ensures
        r matches Some(v) ==> decode_spec(raw@, tag) == Some(v@),
        r is None ==> decode_spec(raw@, tag) is None,
{
    match raw {
        RawValue::Null => Some(PrismaValue::Null),
        _ => match tag {
            TypeIdentifier::String => match raw {
                RawValue::Text(s) => Some(PrismaValue::String(s.clone())),
                _ => None,
            },
            TypeIdentifier::Enum => match raw {
                RawValue::Text(s) => Some(PrismaValue::Enum(s.clone())),
                _ => None,
            },
            TypeIdentifier::Json => match raw {
                RawValue::Text(s) => Some(PrismaValue::Json(s.clone())),
                _ => None,
            },
            TypeIdentifier::Int => match raw {
                RawValue::Integer(i) => Some(PrismaValue::Int(*i)),
                _ => None,
            },
            TypeIdentifier::Boolean => match raw {
                RawValue::Integer(i) => Some(PrismaValue::Boolean(*i != 0)),
                _ => None,
            },
            TypeIdentifier::UUID => match raw {
                RawValue::Blob(b) => match uuid_bytes(b.as_slice()) {
                    Some(u) => Some(PrismaValue::Uuid(u)),
                    None => None,
                },
                _ => None,
            },
            TypeIdentifier::GraphQLID | TypeIdentifier::Relation => match id_from_raw(raw) {
                Some(id) => Some(PrismaValue::GraphqlId(id)),
                None => None,
            },
        },
    }
}

/// Encodes a storable domain value as a column value.
pub fn encode_value(v: &PrismaValue) -> (r: RawValue)
    requires
        storable(v@),
    ensures
        r@ == encode_spec(v@),
{
    match v {
        PrismaValue::Null => RawValue::Null,
        PrismaValue::String(s) => RawValue::Text(s.clone()),
        PrismaValue::Enum(s) => RawValue::Text(s.clone()),
        PrismaValue::Json(s) => RawValue::Text(s.clone()),
        PrismaValue::Int(i) => RawValue::Integer(*i),
        PrismaValue::Boolean(b) => RawValue::Integer(if *b { 1 } else { 0 }),
        PrismaValue::Uuid(b) => RawValue::Blob(copy_bytes(b)),
        PrismaValue::GraphqlId(GraphqlId::String(s)) => RawValue::Text(s.clone()),
        PrismaValue::GraphqlId(GraphqlId::Int(n)) => RawValue::Integer(*n as i64),
        PrismaValue::GraphqlId(GraphqlId::Uuid(b)) => RawValue::Blob(copy_bytes(b)),
    }
}

} // verus!
