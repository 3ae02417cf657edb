use vstd::prelude::*;

verus! {

/// A field of a JSON object, as far as the protocol reads it.
#[derive(Debug, PartialEq, Eq)]
pub enum JsonField {
    Str(String),
    UInt(u64),
    UIntArray(Vec<u64>),
    /// Anything else: null, a boolean, a signed or fractional number,
    /// a nested object, or an array holding something other than
    /// unsigned integers.
    Other,
}

/// The mathematical model of a field.
pub enum FieldModel {
    Str(Seq<char>),
    UInt(u64),
    UIntArray(Seq<u64>),
    Other,
}

impl View for JsonField {
    type V = FieldModel;

    open spec fn view(&self) -> FieldModel {
        match self {
            JsonField::Str(s) => FieldModel::Str(s@),
            JsonField::UInt(n) => FieldModel::UInt(*n),
            JsonField::UIntArray(v) => FieldModel::UIntArray(v@),
            JsonField::Other => FieldModel::Other,
        }
    }
}

/// A complete JSON value as the protocol sees it: an object with its
/// fields in order, or something that is not an object.
#[derive(Debug, PartialEq, Eq)]
pub enum JsonValue {
    Object(Vec<(String, JsonField)>),
    NotObject,
}

pub type Entries = Seq<(Seq<char>, FieldModel)>;

pub open spec fn entries_view(e: Seq<(String, JsonField)>) -> Entries {
    e.map_values(|p: (String, JsonField)| (p.0@, p.1@))
}

impl View for JsonValue {
    type V = Option<Entries>;

    open spec fn view(&self) -> Option<Entries> {
        match self {
            JsonValue::Object(e) => Some(entries_view(e@)),
            JsonValue::NotObject => None,
        }
    }
}

/// The first field named `key`, if any.
pub open spec fn lookup(e: Entries, key: Seq<char>) -> Option<FieldModel>
    decreases e.len(),
{
    if e.len() == 0 {
        None
    } else if e[0].0 == key {
        Some(e[0].1)
    } else {
        lookup(e.drop_first(), key)
    }
}

pub open spec fn str_field(e: Entries, key: Seq<char>) -> Option<Seq<char>> {
    match lookup(e, key) {
        Some(FieldModel::Str(s)) => Some(s),
        _ => None,
    }
}

pub open spec fn uint_field(e: Entries, key: Seq<char>) -> Option<u64> {
    match lookup(e, key) {
        Some(FieldModel::UInt(n)) => Some(n),
        _ => None,
    }
}

pub open spec fn all_bytes(a: Seq<u64>) -> bool {
    forall|i: int| 0 <= i < a.len() ==> a[i] <= 255
}

pub open spec fn bytes_of(a: Seq<u64>) -> Seq<u8> {
    a.map_values(|x: u64| x as u8)
}

pub open spec fn widen(b: Seq<u8>) -> Seq<u64> {
    b.map_values(|x: u8| x as u64)
}

/// A field that is an array of numbers from 0 to 255, read as bytes.
pub open spec fn bytes_field(e: Entries, key: Seq<char>) -> Option<Seq<u8>> {
    match lookup(e, key) {
        Some(FieldModel::UIntArray(a)) => if all_bytes(a) {
            Some(bytes_of(a))
        } else {
            None
        },
        _ => None,
    }
}

pub proof fn lemma_widen_bytes(b: Seq<u8>)
    ensures
        all_bytes(widen(b)),
        bytes_of(widen(b)) == b,
{
    assert(bytes_of(widen(b)) =~= b);
}

pub open spec fn distinct_keys(e: Entries) -> bool {
    forall|i: int, j: int| 0 <= i < j < e.len() ==> e[i].0 != e[j].0
}

proof fn lemma_lookup_index(e: Entries, i: int)
    requires
        0 <= i < e.len(),
        forall|j: int| 0 <= j < i ==> e[j].0 != e[i].0,
    ensures
        lookup(e, e[i].0) == Some(e[i].1),
    decreases i,
{
    if i > 0 {
        let t = e.drop_first();
        assert(t[i - 1] == e[i]);
        assert forall|j: int| 0 <= j < i - 1 implies #[trigger] t[j].0 != t[i - 1].0 by {
            assert(t[j] == e[j + 1]);
        }
        lemma_lookup_index(t, i - 1);
    }
}

/// In an object whose keys are distinct, each key finds its own field.
pub proof fn lemma_lookup_distinct(e: Entries)
    requires
        distinct_keys(e),
    ensures
        forall|i: int| 0 <= i < e.len() ==> #[trigger] lookup(e, e[i].0) == Some(e[i].1),
{
    assert forall|i: int| 0 <= i < e.len() implies #[trigger] lookup(e, e[i].0) == Some(e[i].1) by {
        lemma_lookup_index(e, i);
    }
}

/// Whether `a` holds the same text as `b`.
pub fn str_eq(a: &String, b: &str) -> (r: bool)
    ensures
        r == (a@ == b@),
{
    let owned: String = b.to_owned();
    *a == owned
}

proof fn lemma_lookup_step(e: Entries, i: int, key: Seq<char>)
    requires
        0 <= i < e.len(),
        e[i].0 != key,
    ensures
        lookup(e.subrange(i, e.len() as int), key) == lookup(e.subrange(i + 1, e.len() as int), key),
{
    assert(e.subrange(i, e.len() as int).drop_first() =~= e.subrange(i + 1, e.len() as int));
}

/// The first field named `key`.
pub fn find_field<'a>(e: &'a Vec<(String, JsonField)>, key: &str) -> (r: Option<&'a JsonField>)
    ensures
        match r {
            Some(f) => lookup(entries_view(e@), key@) == Some(f@),
            None => lookup(entries_view(e@), key@) is None,
        },
{
    let ghost ev = entries_view(e@);
    let mut i: usize = 0;
    assert(ev.subrange(0, ev.len() as int) =~= ev);
    while i < e.len()
        invariant
            0 <= i <= e.len(),
            ev == entries_view(e@),
            ev.len() == e.len(),
            lookup(ev, key@) == lookup(ev.subrange(i as int, ev.len() as int), key@),
        decreases e.len() - i,
    {
        if str_eq(&e[i].0, key) {
            assert(ev.subrange(i as int, ev.len() as int)[0] == ev[i as int]);
            return Some(&e[i].1);
        }
        proof {
            lemma_lookup_step(ev, i as int, key@);
        }
        i = i + 1;
    }
    None
}

pub fn get_str(e: &Vec<(String, JsonField)>, key: &str) -> (r: Option<String>)
    ensures
        match r {
            Some(s) => str_field(entries_view(e@), key@) == Some(s@),
            None => str_field(entries_view(e@), key@) is None,
        },
{
    match find_field(e, key) {
        Some(JsonField::Str(s)) => Some(s.clone()),
        _ => None,
    }
}

pub fn get_uint(e: &Vec<(String, JsonField)>, key: &str) -> (r: Option<u64>)
    ensures
        r == uint_field(entries_view(e@), key@),
{
    match find_field(e, key) {
        Some(JsonField::UInt(n)) => Some(*n),
        _ => None,
    }
}

pub fn get_bytes(e: &Vec<(String, JsonField)>, key: &str) -> (r: Option<Vec<u8>>)
    ensures
        match r {
            Some(b) => bytes_field(entries_view(e@), key@) == Some(b@),
            None => bytes_field(entries_view(e@), key@) is None,
        },
{
    let found = find_field(e, key);
    match found {
        Some(JsonField::UIntArray(a)) => {
            assert(lookup(entries_view(e@), key@) == Some(FieldModel::UIntArray(a@)));
            let mut out: Vec<u8> = Vec::new();
            let mut i: usize = 0;
            while i < a.len()
                invariant
                    0 <= i <= a.len(),
                    out@ == bytes_of(a@.subrange(0, i as int)),
                    all_bytes(a@.subrange(0, i as int)),
                    lookup(entries_view(e@), key@) == Some(FieldModel::UIntArray(a@)),
                decreases a.len() - i,
            {
                if a[i] > 255 {
                    assert(!all_bytes(a@)) by {
                        assert(a@[i as int] > 255);
                    }
                    return None;
                }
                out.push(a[i] as u8);
                assert(a@.subrange(0, i + 1) =~= a@.subrange(0, i as int).push(a[i as int]));
                assert(out@ =~= bytes_of(a@.subrange(0, i + 1)));
                i = i + 1;
            }
            assert(a@.subrange(0, a.len() as int) =~= a@);
            Some(out)
        },
        _ => None,
    }
}

pub fn widen_bytes(b: &Vec<u8>) -> (r: Vec<u64>)
    ensures
        r@ == widen(b@),
{
    let mut out: Vec<u64> = Vec::new();
    let mut i: usize = 0;
    while i < b.len()
        invariant
            0 <= i <= b.len(),
            out@ == widen(b@.subrange(0, i as int)),
        decreases b.len() - i,
    {
        out.push(b[i] as u64);
        assert(b@.subrange(0, i + 1) =~= b@.subrange(0, i as int).push(b[i as int]));
        assert(out@ =~= widen(b@.subrange(0, i + 1)));
        i = i + 1;
    }
    assert(b@.subrange(0, b.len() as int) =~= b@);
    out
}

/// A copy of a field.
pub fn copy_field(f: &JsonField) -> (r: JsonField)
    ensures
        r@ == f@,
{
    match f {
        JsonField::Str(s) => JsonField::Str(s.clone()),
        JsonField::UInt(n) => JsonField::UInt(*n),
        JsonField::UIntArray(a) => {
            let mut out: Vec<u64> = Vec::new();
            let mut i: usize = 0;
            while i < a.len()
                invariant
                    0 <= i <= a.len(),
                    out@ == a@.subrange(0, i as int),
                decreases a.len() - i,
            {
                out.push(a[i]);
                assert(out@ =~= a@.subrange(0, i + 1));
                i = i + 1;
            }
            assert(a@.subrange(0, a.len() as int) =~= a@);
            JsonField::UIntArray(out)
        },
        JsonField::Other => JsonField::Other,
    }
}

/// A copy of the fields of an object.
pub fn copy_entries(e: &Vec<(String, JsonField)>) -> (r: Vec<(String, JsonField)>)
    ensures
        entries_view(r@) == entries_view(e@),
{
    let mut out: Vec<(String, JsonField)> = Vec::new();
    let mut i: usize = 0;
    assert(entries_view(out@) =~= entries_view(e@.subrange(0, 0)));
    while i < e.len()
        invariant
            0 <= i <= e.len(),
            entries_view(out@) == entries_view(e@.subrange(0, i as int)),
        decreases e.len() - i,
    {
        let key = e[i].0.clone();
        let f = copy_field(&e[i].1);
        let ghost before = out@;
        out.push((key, f));
        assert(out@ == before.push((key, f)));
        assert(e@.subrange(0, i + 1) =~= e@.subrange(0, i as int).push(e@[i as int]));
        assert(entries_view(out@) =~= entries_view(before).push((key@, f@)));
        assert(entries_view(e@.subrange(0, i + 1)) =~= entries_view(e@.subrange(0, i as int)).push(
            (e@[i as int].0@, e@[i as int].1@),
        ));
        i = i + 1;
    }
    assert(e@.subrange(0, e.len() as int) =~= e@);
    out
}

} // verus!
