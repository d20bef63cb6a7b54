use vstd::prelude::*;

verus! {

/// A COSEM value. Floating-point payloads are carried as their IEEE-754 bit
/// patterns, since this library never interprets them.
#[derive(Debug, PartialEq)]
pub enum CosemData {
    NullData,
    Array(Vec<CosemData>),
    Structure(Vec<CosemData>),
    Boolean(bool),
    BitString(Vec<u8>),
    DoubleLong(i32),
    DoubleLongUnsigned(u32),
    OctetString(Vec<u8>),
    VisibleString(String),
    Utf8String(String),
    Bcd(i8),
    Integer(i8),
    Long(i16),
    Unsigned(u8),
    LongUnsigned(u16),
    Long64(i64),
    Long64Unsigned(u64),
    Enum(u8),
    Float32(u32),
    Float64(u64),
    DateTime(Vec<u8>),
    Date(Vec<u8>),
    Time(Vec<u8>),
    DontCare,
}

/// The mathematical value of a `CosemData`: the same tree with sequences in
/// place of vectors and strings.
pub enum DataModel {
    NullData,
    Array(Seq<DataModel>),
    Structure(Seq<DataModel>),
    Boolean(bool),
    BitString(Seq<u8>),
    DoubleLong(i32),
    DoubleLongUnsigned(u32),
    OctetString(Seq<u8>),
    VisibleString(Seq<char>),
    Utf8String(Seq<char>),
    Bcd(i8),
    Integer(i8),
    Long(i16),
    Unsigned(u8),
    LongUnsigned(u16),
    Long64(i64),
    Long64Unsigned(u64),
    Enum(u8),
    Float32(u32),
    Float64(u64),
    DateTime(Seq<u8>),
    Date(Seq<u8>),
    Time(Seq<u8>),
    DontCare,
}

pub open spec fn data_model(d: CosemData) -> DataModel
    decreases d,
{
    match d {
        CosemData::NullData => DataModel::NullData,
        CosemData::Array(v) => DataModel::Array(elems_model(v@)),
        CosemData::Structure(v) => DataModel::Structure(elems_model(v@)),
        CosemData::Boolean(b) => DataModel::Boolean(b),
        CosemData::BitString(v) => DataModel::BitString(v@),
        CosemData::DoubleLong(x) => DataModel::DoubleLong(x),
        CosemData::DoubleLongUnsigned(x) => DataModel::DoubleLongUnsigned(x),
        CosemData::OctetString(v) => DataModel::OctetString(v@),
        CosemData::VisibleString(s) => DataModel::VisibleString(s@),
        CosemData::Utf8String(s) => DataModel::Utf8String(s@),
        CosemData::Bcd(x) => DataModel::Bcd(x),
        CosemData::Integer(x) => DataModel::Integer(x),
        CosemData::Long(x) => DataModel::Long(x),
        CosemData::Unsigned(x) => DataModel::Unsigned(x),
        CosemData::LongUnsigned(x) => DataModel::LongUnsigned(x),
        CosemData::Long64(x) => DataModel::Long64(x),
        CosemData::Long64Unsigned(x) => DataModel::Long64Unsigned(x),
        CosemData::Enum(x) => DataModel::Enum(x),
        CosemData::Float32(x) => DataModel::Float32(x),
        CosemData::Float64(x) => DataModel::Float64(x),
        CosemData::DateTime(v) => DataModel::DateTime(v@),
        CosemData::Date(v) => DataModel::Date(v@),
        CosemData::Time(v) => DataModel::Time(v@),
        CosemData::DontCare => DataModel::DontCare,
    }
}

/// The models of a sequence of values, element by element.
pub open spec fn elems_model(s: Seq<CosemData>) -> Seq<DataModel>
    decreases s,
{
    if s.len() == 0 {
        Seq::empty()
    } else {
        seq![data_model(s[0])] + elems_model(s.subrange(1, s.len() as int))
    }
}

impl View for CosemData {
    type V = DataModel;

    open spec fn view(&self) -> DataModel {
        data_model(*self)
    }
}

pub proof fn lemma_elems_model_len(s: Seq<CosemData>)
    ensures
        elems_model(s).len() == s.len(),
    decreases s.len(),
{
    if s.len() > 0 {
        lemma_elems_model_len(s.subrange(1, s.len() as int));
    }
}

pub proof fn lemma_elems_model_index(s: Seq<CosemData>, i: int)
    requires
        0 <= i < s.len(),
    ensures
        elems_model(s).len() == s.len(),
        elems_model(s)[i] == data_model(s[i]),
    decreases s.len(),
{
    lemma_elems_model_len(s);
    if i > 0 {
        lemma_elems_model_index(s.subrange(1, s.len() as int), i - 1);
    }
}

/// The model of a sequence grown by one element grows by that element's model.
pub proof fn lemma_elems_model_push(s: Seq<CosemData>, d: CosemData)
    ensures
        elems_model(s.push(d)) == elems_model(s).push(data_model(d)),
{
    let t = s.push(d);
    lemma_elems_model_len(s);
    lemma_elems_model_len(t);
    assert forall|i: int| 0 <= i < t.len() implies #[trigger] elems_model(t)[i]
        == elems_model(s).push(data_model(d))[i] by {
        lemma_elems_model_index(t, i);
        if i < s.len() {
            lemma_elems_model_index(s, i);
        }
    }
    assert(elems_model(t) =~= elems_model(s).push(data_model(d)));
}

impl Clone for CosemData {
    fn clone(&self) -> (r: Self)
        ensures
            r@ == self@,
    {
        copy_data(self)
    }
}

/// A deep copy of a value, with the same model.
pub fn copy_data(d: &CosemData) -> (r: CosemData)
    ensures
        r@ == d@,
    decreases d,
{
    match d {
        CosemData::NullData => CosemData::NullData,
        CosemData::Array(v) => CosemData::Array(copy_elems(v)),
        CosemData::Structure(v) => CosemData::Structure(copy_elems(v)),
        CosemData::Boolean(b) => CosemData::Boolean(*b),
        CosemData::BitString(v) => CosemData::BitString(copy_bytes(v.as_slice())),
        CosemData::DoubleLong(x) => CosemData::DoubleLong(*x),
        CosemData::DoubleLongUnsigned(x) => CosemData::DoubleLongUnsigned(*x),
        CosemData::OctetString(v) => CosemData::OctetString(copy_bytes(v.as_slice())),
        CosemData::VisibleString(s) => CosemData::VisibleString(copy_string(s)),
        CosemData::Utf8String(s) => CosemData::Utf8String(copy_string(s)),
        CosemData::Bcd(x) => CosemData::Bcd(*x),
        CosemData::Integer(x) => CosemData::Integer(*x),
        CosemData::Long(x) => CosemData::Long(*x),
        CosemData::Unsigned(x) => CosemData::Unsigned(*x),
        CosemData::LongUnsigned(x) => CosemData::LongUnsigned(*x),
        CosemData::Long64(x) => CosemData::Long64(*x),
        CosemData::Long64Unsigned(x) => CosemData::Long64Unsigned(*x),
        CosemData::Enum(x) => CosemData::Enum(*x),
        CosemData::Float32(x) => CosemData::Float32(*x),
        CosemData::Float64(x) => CosemData::Float64(*x),
        CosemData::DateTime(v) => CosemData::DateTime(copy_bytes(v.as_slice())),
        CosemData::Date(v) => CosemData::Date(copy_bytes(v.as_slice())),
        CosemData::Time(v) => CosemData::Time(copy_bytes(v.as_slice())),
        CosemData::DontCare => CosemData::DontCare,
    }
}

pub fn copy_elems(v: &Vec<CosemData>) -> (r: Vec<CosemData>)
    ensures
        elems_model(r@) == elems_model(v@),
    decreases v,
{
    let mut out: Vec<CosemData> = Vec::new();
    let mut i: usize = 0;
    while i < v.len()
        invariant
            i <= v.len(),
            elems_model(out@) == elems_model(v@.subrange(0, i as int)),
        decreases v.len() - i,
    {
        proof {
            assert(decreases_to!(v => v@[i as int]));
        }
        let e = copy_data(&v[i]);
        proof {
            lemma_elems_model_push(out@, e);
            lemma_elems_model_push(v@.subrange(0, i as int), v@[i as int]);
            assert(v@.subrange(0, i as int).push(v@[i as int]) =~= v@.subrange(0, i + 1));
        }
        out.push(e);
        i = i + 1;
    }
    assert(v@.subrange(0, v@.len() as int) =~= v@);
    out
}

/// A copy of a byte slice.
pub fn copy_bytes(s: &[u8]) -> (r: Vec<u8>)
    ensures
        r@ == s@,
{
    vstd::slice::slice_to_vec(s)
}

fn copy_string(s: &String) -> (r: String)
    ensures
        r@ == s@,
{
    s.clone()
}

} // verus!
