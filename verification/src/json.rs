//! JSON values as the workflow logic sees them.
//!
//! Task inputs and outputs are JSON documents. The logic looks into object
//! members and copies values; it never computes with numbers, so a number
//! is held as the text of its decimal notation.
use vstd::prelude::*;

verus! {

/// A JSON value.
#[derive(Debug)]
pub enum JsonValue {
    Null,
    Bool(bool),
    /// A number, as the text of its decimal notation.
    Number(String),
    Str(String),
    Array(Vec<JsonValue>),
    /// An object: its members in order, each key at most once.
    Object(Vec<(String, JsonValue)>),
}

/// The mathematical value of a JSON document.
pub enum JsonModel {
    Null,
    Bool(bool),
    Number(Seq<char>),
    Str(Seq<char>),
    Array(Seq<JsonModel>),
    Object(Seq<(Seq<char>, JsonModel)>),
}

/// The models of a sequence of values.
pub open spec fn model_seq(s: Seq<JsonValue>) -> Seq<JsonModel>
    decreases s,
{
    if s.len() == 0 {
        Seq::empty()
    } else {
        model_seq(s.drop_last()).push(model_of(s.last()))
    }
}

/// The models of a sequence of object members.
pub open spec fn model_members(s: Seq<(String, JsonValue)>) -> Seq<(Seq<char>, JsonModel)>
    decreases s,
{
    if s.len() == 0 {
        Seq::empty()
    } else {
        model_members(s.drop_last()).push((s.last().0@, model_of(s.last().1)))
    }
}

/// The model of a value.
pub open spec fn model_of(v: JsonValue) -> JsonModel
    decreases v,
{
    match v {
        JsonValue::Null => JsonModel::Null,
        JsonValue::Bool(b) => JsonModel::Bool(b),
        JsonValue::Number(n) => JsonModel::Number(n@),
        JsonValue::Str(s) => JsonModel::Str(s@),
        JsonValue::Array(items) => JsonModel::Array(model_seq(items@)),
        JsonValue::Object(ms) => JsonModel::Object(model_members(ms@)),
    }
}

impl View for JsonValue {
    type V = JsonModel;

    open spec fn view(&self) -> JsonModel {
        model_of(*self)
    }
}

pub proof fn lemma_model_seq(s: Seq<JsonValue>)
    ensures
        model_seq(s).len() == s.len(),
        forall|i: int| 0 <= i < s.len() ==> #[trigger] model_seq(s)[i] == model_of(s[i]),
    decreases s.len(),
{
    if s.len() > 0 {
        lemma_model_seq(s.drop_last());
    }
}

pub proof fn lemma_model_members(s: Seq<(String, JsonValue)>)
    ensures
        model_members(s).len() == s.len(),
        forall|i: int|
            0 <= i < s.len() ==> #[trigger] model_members(s)[i] == (s[i].0@, model_of(s[i].1)),
    decreases s.len(),
{
    if s.len() > 0 {
        lemma_model_members(s.drop_last());
    }
}

/// The index of the first member with key `k`, if there is one.
pub open spec fn model_member_index(ms: Seq<(Seq<char>, JsonModel)>, k: Seq<char>) -> Option<int> {
    if exists|i: int| 0 <= i < ms.len() && ms[i].0 == k {
        Some(
            choose|i: int|
                0 <= i < ms.len() && ms[i].0 == k && forall|j: int| 0 <= j < i ==> ms[j].0 != k,
        )
    } else {
        None
    }
}

/// The value of the first member with key `k`, if there is one.
pub open spec fn model_member(ms: Seq<(Seq<char>, JsonModel)>, k: Seq<char>) -> Option<JsonModel> {
    match model_member_index(ms, k) {
        Some(i) => Some(ms[i].1),
        None => None,
    }
}

/// The members after setting key `k` to `v`: an existing member keeps its
/// place and takes the new value, a new key is added at the end.
pub open spec fn model_members_insert(
    ms: Seq<(Seq<char>, JsonModel)>,
    k: Seq<char>,
    v: JsonModel,
) -> Seq<(Seq<char>, JsonModel)> {
    match model_member_index(ms, k) {
        Some(i) => ms.update(i, (k, v)),
        None => ms.push((k, v)),
    }
}

/// Whether no key occurs twice among the members.
pub open spec fn keys_distinct(ms: Seq<(Seq<char>, JsonModel)>) -> bool {
    forall|i: int, j: int| 0 <= i < ms.len() && 0 <= j < ms.len() && i != j ==> ms[i].0 != ms[j].0
}

impl JsonModel {
    /// The value of member `key` of an object; `None` for a missing key or
    /// a value that is not an object.
    pub open spec fn get(self, key: Seq<char>) -> Option<JsonModel> {
        match self {
            JsonModel::Object(ms) => model_member(ms, key),
            _ => None,
        }
    }

    /// The value with member `key` set to `v` when it is an object; any
    /// other value is unchanged.
    pub open spec fn insert(self, key: Seq<char>, v: JsonModel) -> JsonModel {
        match self {
            JsonModel::Object(ms) => JsonModel::Object(model_members_insert(ms, key, v)),
            _ => self,
        }
    }

    /// Whether this value is an object whose keys are distinct.
    pub open spec fn is_well_formed_object(self) -> bool {
        match self {
            JsonModel::Object(ms) => keys_distinct(ms),
            _ => false,
        }
    }
}

/// Under distinct keys, the member found for a key is the one holding it.
pub proof fn lemma_member_index_unique(ms: Seq<(Seq<char>, JsonModel)>, i: int)
    requires
        keys_distinct(ms),
        0 <= i < ms.len(),
    ensures
        model_member_index(ms, ms[i].0) == Some(i),
{
    let k = ms[i].0;
    assert(0 <= i < ms.len() && ms[i].0 == k);
    let c = model_member_index(ms, k).unwrap();
    assert(ms[c].0 == k);
}

/// Under distinct keys, setting a key of an object gives the key its new
/// value, keeps every other key's value, and keeps the keys distinct.
pub proof fn lemma_insert_get(o: JsonModel, k: Seq<char>, v: JsonModel)
    requires
        o.is_well_formed_object(),
    ensures
        o.insert(k, v).is_well_formed_object(),
        o.insert(k, v).get(k) == Some(v),
        forall|k2: Seq<char>| k2 != k ==> #[trigger] o.insert(k, v).get(k2) == o.get(k2),
{
    let ms = o->Object_0;
    let r = model_members_insert(ms, k, v);
    let p = match model_member_index(ms, k) {
        Some(i) => i,
        None => ms.len() as int,
    };
    assert(forall|j: int| 0 <= j < ms.len() && j != p ==> r[j] == ms[j]);
    assert(r[p].0 == k);
    assert(forall|j: int| 0 <= j < r.len() && j != p ==> r[j].0 != k) by {
        if model_member_index(ms, k) is Some {
            assert(ms[p].0 == k);
        } else {
            assert(forall|j: int| 0 <= j < ms.len() ==> ms[j].0 != k);
        }
    }
    assert(keys_distinct(r));
    lemma_member_index_unique(r, p);
    assert forall|k2: Seq<char>| k2 != k implies #[trigger] model_member(r, k2) == model_member(
        ms,
        k2,
    ) by {
        if model_member_index(ms, k2) is Some {
            let a = model_member_index(ms, k2).unwrap();
            assert(ms[a].0 == k2);
            assert(a != p);
            assert(r[a] == ms[a]);
            lemma_member_index_unique(r, a);
        } else {
            if model_member_index(r, k2) is Some {
                let b = model_member_index(r, k2).unwrap();
                assert(r[b].0 == k2);
                assert(b != p);
                assert(ms[b].0 == k2);
            }
        }
    }
}

/// Finds the first member with key `key`.
fn find_member(ms: &Vec<(String, JsonValue)>, key: &String) -> (r: Option<usize>)
    ensures
        r matches Some(i) ==> i < ms.len() && model_member_index(model_members(ms@), key@) == Some(
            i as int,
        ),
        r is None ==> model_member_index(model_members(ms@), key@) is None,
{
    proof {
        lemma_model_members(ms@);
    }
    let ghost mm = model_members(ms@);
    for i in 0..ms.len()
        invariant
            mm == model_members(ms@),
            mm.len() == ms@.len(),
            forall|j: int| 0 <= j < ms@.len() ==> #[trigger] mm[j] == (ms@[j].0@, model_of(ms@[j].1)),
            forall|j: int| 0 <= j < i ==> mm[j].0 != key@,
    {
        if ms[i].0 == *key {
            assert(mm[i as int].0 == key@);
            let ghost w = model_member_index(mm, key@).unwrap();
            assert(w == i) by {
                if w < i {
                } else if i < w {
                }
            }
            return Some(i);
        }
    }
    None
}

impl JsonValue {
    /// Whether this value is an object.
    pub fn is_object(&self) -> (r: bool)
        ensures
            r == (self@ is Object),
            r == (self is Object),
    {
        match self {
            JsonValue::Object(_) => true,
            _ => false,
        }
    }

    /// The empty object `{}`.
    pub fn empty_object() -> (r: JsonValue)
        ensures
            r@ == JsonModel::Object(Seq::empty()),
    {
        let ms: Vec<(String, JsonValue)> = Vec::new();
        proof {
            lemma_model_members(ms@);
        }
        assert(model_members(ms@) =~= Seq::empty());
        JsonValue::Object(ms)
    }

    /// The value of member `key` of an object.
    #[verifier::rlimit(50)]
    pub fn get(&self, key: &String) -> (r: Option<&JsonValue>)
        ensures
            match r {
                Some(v) => self@.get(key@) == Some(v@),
                None => self@.get(key@) is None,
            },
    {
        match self {
            JsonValue::Object(ms) => {
                proof {
                    lemma_model_members(ms@);
                }
                match find_member(ms, key) {
                    Some(i) => {
                        let ghost mm = model_members(ms@);
                        assert(mm[i as int] == (ms@[i as int].0@, model_of(ms@[i as int].1)));
                        assert(model_member(mm, key@) == Some(model_of(ms@[i as int].1)));
                        assert(model_of(*self) == JsonModel::Object(mm));
                        let r = &ms[i].1;
                        assert(model_of(*r) == model_of(ms@[i as int].1));
                        Some(r)
                    },
                    None => None,
                }
            },
            _ => None,
        }
    }

    /// Sets member `key` of an object to `value`; a value that is not an
    /// object is left as it is.
    #[verifier::rlimit(50)]
    pub fn insert(&mut self, key: String, value: JsonValue)
        ensures
            final(self)@ == old(self)@.insert(key@, value@),
    {
        match self {
            JsonValue::Object(ms) => {
                let ghost before = model_members(ms@);
                proof {
                    lemma_model_members(ms@);
                }
                let ghost value_model = value@;
                let ghost key_model = key@;
                match find_member(ms, &key) {
                    Some(i) => {
                        ms.set(i, (key, value));
                        proof {
                            lemma_model_members(ms@);
                        }
                        assert(model_members(ms@) =~= model_members_insert(
                            before,
                            key_model,
                            value_model,
                        ));
                    },
                    None => {
                        ms.push((key, value));
                        proof {
                            lemma_model_members(ms@);
                        }
                        assert(model_members(ms@) =~= model_members_insert(
                            before,
                            key_model,
                            value_model,
                        ));
                    },
                }
            },
            _ => {},
        }
    }

    /// A copy of this value.
    #[verifier::loop_isolation(false)]
    pub fn duplicate(&self) -> (r: JsonValue)
        ensures
            r@ == self@,
        decreases self,
    {
        match self {
            JsonValue::Null => {
                assert(model_of(JsonValue::Null) == JsonModel::Null);
                JsonValue::Null
            },
            JsonValue::Bool(b) => JsonValue::Bool(*b),
            JsonValue::Number(n) => JsonValue::Number(n.clone()),
            JsonValue::Str(s) => JsonValue::Str(s.clone()),
            JsonValue::Array(items) => {
                let mut out: Vec<JsonValue> = Vec::new();
                proof {
                    lemma_model_seq(items@);
                }
                for i in 0..items.len()
                    invariant
                        out@.len() == i,
                        i <= items@.len(),
                        forall|j: int|
                            #![trigger out@[j]]
                            0 <= j < i ==> model_of(out@[j]) == model_of(items@[j]),
                {
                    assert(decreases_to!(*self => (*self)->Array_0));
                    assert((*self)->Array_0 == *items);
                    assert(decreases_to!(*items => items@));
                    assert(decreases_to!(items@ => items@[i as int]));
                    let c = items[i].duplicate();
                    out.push(c);
                }
                proof {
                    lemma_model_seq(items@);
                    lemma_model_seq(out@);
                }
                assert(model_seq(out@) =~= model_seq(items@));
                JsonValue::Array(out)
            },
            JsonValue::Object(ms) => {
                let mut out: Vec<(String, JsonValue)> = Vec::new();
                for i in 0..ms.len()
                    invariant
                        out@.len() == i,
                        i <= ms@.len(),
                        forall|j: int|
                            #![trigger out@[j]]
                            0 <= j < i ==> out@[j].0@ == ms@[j].0@ && model_of(out@[j].1)
                                == model_of(ms@[j].1),
                {
                    assert(decreases_to!(*self => (*self)->Object_0));
                    assert((*self)->Object_0 == *ms);
                    assert(decreases_to!(*ms => ms@));
                    assert(decreases_to!(ms@ => ms@[i as int]));
                    assert(decreases_to!(ms@[i as int] => ms@[i as int].1));
                    let c = ms[i].1.duplicate();
                    out.push((ms[i].0.clone(), c));
                }
                proof {
                    lemma_model_members(ms@);
                    lemma_model_members(out@);
                }
                assert(model_members(out@) =~= model_members(ms@));
                JsonValue::Object(out)
            },
        }
    }
}

} // verus!

