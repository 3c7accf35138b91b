//! The engine's JSON values: token claims, request contexts, resource
//! attributes and schema fragments are all held in this shape, so that the
//! logic that reads them is ordinary verified code.
//!
//! Numbers are integers: every number the engine reads (expiry times, issued-
//! at times, ports, counts) is one, and a non-integer number in a document is
//! out of the engine's model.

use vstd::prelude::*;
use vstd::string::*;

verus! {

broadcast use
    vstd::seq::axiom_seq_index_decreases,
    vstd::std_specs::vec::axiom_vec_decreases_to_view,
    vstd::std_specs::vec::axiom_vec_index_decreases,
;

/// The mathematical shape of a JSON value.
pub ghost enum JsonV {
    Null,
    Bool(bool),
    Int(int),
    Str(Seq<char>),
    Arr(Seq<JsonV>),
    Obj(Seq<(Seq<char>, JsonV)>),
}

/// A JSON value.
#[derive(Debug, PartialEq)]
pub enum Json {
    Null,
    Bool(bool),
    Int(i128),
    Str(String),
    Arr(Vec<Json>),
    Obj(Vec<(String, Json)>),
}

impl Json {
    /// The mathematical value.
    pub open spec fn v(self) -> JsonV
        decreases self,
    {
        match self {
            Json::Null => JsonV::Null,
            Json::Bool(b) => JsonV::Bool(b),
            Json::Int(i) => JsonV::Int(i as int),
            Json::Str(s) => JsonV::Str(s@),
            Json::Arr(items) => JsonV::Arr(seq_v(items@)),
            Json::Obj(entries) => JsonV::Obj(entries_v(entries@)),
        }
    }
}

/// The mathematical values of a sequence of JSON values.
pub open spec fn seq_v(items: Seq<Json>) -> Seq<JsonV>
    decreases items,
{
    if items.len() == 0 {
        Seq::empty()
    } else {
        seq![items[0].v()] + seq_v(items.subrange(1, items.len() as int))
    }
}

/// The mathematical values of an object's entries.
pub open spec fn entries_v(entries: Seq<(String, Json)>) -> Seq<(Seq<char>, JsonV)>
    decreases entries,
{
    if entries.len() == 0 {
        Seq::empty()
    } else {
        seq![(entries[0].0@, entries[0].1.v())] + entries_v(
            entries.subrange(1, entries.len() as int),
        )
    }
}

/// `seq_v` is the element-wise view.
pub proof fn lemma_seq_v(items: Seq<Json>)
    ensures
        seq_v(items).len() == items.len(),
        forall|i: int| 0 <= i < items.len() ==> #[trigger] seq_v(items)[i] == items[i]@,
    decreases items.len(),
{
    if items.len() > 0 {
        lemma_seq_v(items.subrange(1, items.len() as int));
        assert forall|i: int| 0 <= i < items.len() implies #[trigger] seq_v(items)[i]
            == items[i]@ by {
            if i > 0 {
                assert(items.subrange(1, items.len() as int)[i - 1] == items[i]);
            }
        }
    }
}

/// `entries_v` is the element-wise view.
pub proof fn lemma_entries_v(entries: Seq<(String, Json)>)
    ensures
        entries_v(entries).len() == entries.len(),
        forall|i: int|
            0 <= i < entries.len() ==> #[trigger] entries_v(entries)[i] == (entries[i].0@,
            entries[i].1@),
    decreases entries.len(),
{
    if entries.len() > 0 {
        lemma_entries_v(entries.subrange(1, entries.len() as int));
        assert forall|i: int|
            0 <= i < entries.len() implies #[trigger] entries_v(entries)[i] == (entries[i].0@,
        entries[i].1@) by {
            if i > 0 {
                assert(entries.subrange(1, entries.len() as int)[i - 1] == entries[i]);
            }
        }
    }
}

impl View for Json {
    type V = JsonV;

    open spec fn view(&self) -> JsonV {
        self.v()
    }
}

impl DeepView for Json {
    type V = JsonV;

    open spec fn deep_view(&self) -> JsonV {
        self.v()
    }
}

/// The value under `key`, at its first occurrence.
pub open spec fn lookup_obj(entries: Seq<(Seq<char>, JsonV)>, key: Seq<char>) -> Option<JsonV>
    decreases entries.len(),
{
    if entries.len() == 0 {
        None
    } else if entries[0].0 == key {
        Some(entries[0].1)
    } else {
        lookup_obj(entries.skip(1), key)
    }
}

/// The value under `key` in a JSON value, when it is an object with that key.
pub open spec fn field_of(v: JsonV, key: Seq<char>) -> Option<JsonV> {
    match v {
        JsonV::Obj(entries) => lookup_obj(entries, key),
        _ => None,
    }
}

pub proof fn lemma_lookup_obj_at(entries: Seq<(Seq<char>, JsonV)>, i: int)
    requires
        0 <= i < entries.len(),
        forall|j: int| 0 <= j < i ==> (#[trigger] entries[j]).0 != entries[i].0,
    ensures
        lookup_obj(entries, entries[i].0) == Some(entries[i].1),
    decreases i,
{
    if i > 0 {
        lemma_lookup_obj_at(entries.skip(1), i - 1);
        assert(entries.skip(1)[i - 1] == entries[i]);
        assert forall|j: int| 0 <= j < i - 1 implies (#[trigger] entries.skip(1)[j]).0 != entries.skip(
            1,
        )[i - 1].0 by {
            assert(entries.skip(1)[j] == entries[j + 1]);
        }
    }
}

pub proof fn lemma_lookup_obj_none(entries: Seq<(Seq<char>, JsonV)>, key: Seq<char>)
    requires
        forall|j: int| 0 <= j < entries.len() ==> (#[trigger] entries[j]).0 != key,
    ensures
        lookup_obj(entries, key) is None,
    decreases entries.len(),
{
    if entries.len() > 0 {
        lemma_lookup_obj_none(entries.skip(1), key);
    }
}

/// Appending an entry leaves every other key's lookup alone, and fills a
/// key that was absent.
pub proof fn lemma_lookup_obj_push(entries: Seq<(Seq<char>, JsonV)>, key: Seq<char>, val: JsonV)
    ensures
        forall|k: Seq<char>|
            k != key ==> #[trigger] lookup_obj(entries.push((key, val)), k) == lookup_obj(
                entries,
                k,
            ),
        lookup_obj(entries, key) is None ==> lookup_obj(entries.push((key, val)), key) == Some(val),
        lookup_obj(entries, key) is Some ==> lookup_obj(entries.push((key, val)), key) == lookup_obj(
            entries,
            key,
        ),
    decreases entries.len(),
{
    let pushed = entries.push((key, val));
    if entries.len() == 0 {
        assert(pushed[0] == (key, val));
        assert(pushed[0].0 == key);
        assert(pushed.skip(1) =~= Seq::<(Seq<char>, JsonV)>::empty());
        assert forall|k: Seq<char>| k != key implies #[trigger] lookup_obj(pushed, k) == lookup_obj(
            entries,
            k,
        ) by {
            assert(lookup_obj(pushed.skip(1), k) is None);
            assert(lookup_obj(entries, k) is None);
        }
        assert(lookup_obj(pushed, key) == Some(val));
    } else {
        lemma_lookup_obj_push(entries.skip(1), key, val);
        assert(pushed[0] == entries[0]);
        assert(pushed.skip(1) =~= entries.skip(1).push((key, val)));
        assert forall|k: Seq<char>| k != key implies #[trigger] lookup_obj(pushed, k) == lookup_obj(
            entries,
            k,
        ) by {
            if entries[0].0 != k {
                assert(lookup_obj(pushed, k) == lookup_obj(pushed.skip(1), k));
                assert(lookup_obj(entries, k) == lookup_obj(entries.skip(1), k));
            }
        }
        if lookup_obj(entries, key) is None {
            assert(entries[0].0 != key);
            assert(lookup_obj(entries.skip(1), key) is None);
            assert(lookup_obj(pushed, key) == lookup_obj(pushed.skip(1), key));
        }
        if lookup_obj(entries, key) is Some {
            if entries[0].0 != key {
                assert(lookup_obj(pushed, key) == lookup_obj(pushed.skip(1), key));
                assert(lookup_obj(entries, key) == lookup_obj(entries.skip(1), key));
            }
        }
    }
}

/// The entries with every occurrence of `bad` removed.
pub open spec fn remove_key(entries: Seq<(Seq<char>, JsonV)>, bad: Seq<char>) -> Seq<
    (Seq<char>, JsonV),
>
    decreases entries.len(),
{
    if entries.len() == 0 {
        Seq::empty()
    } else if entries[0].0 == bad {
        remove_key(entries.skip(1), bad)
    } else {
        seq![entries[0]] + remove_key(entries.skip(1), bad)
    }
}

/// Removing a key empties its lookup and leaves every other key's alone.
pub proof fn lemma_lookup_remove_key(entries: Seq<(Seq<char>, JsonV)>, bad: Seq<char>)
    ensures
        lookup_obj(remove_key(entries, bad), bad) is None,
        forall|k: Seq<char>|
            k != bad ==> #[trigger] lookup_obj(remove_key(entries, bad), k) == lookup_obj(
                entries,
                k,
            ),
    decreases entries.len(),
{
    if entries.len() > 0 {
        lemma_lookup_remove_key(entries.skip(1), bad);
        if entries[0].0 == bad {
            assert forall|k: Seq<char>| k != bad implies #[trigger] lookup_obj(
                remove_key(entries, bad),
                k,
            ) == lookup_obj(entries, k) by {
                assert(lookup_obj(entries, k) == lookup_obj(entries.skip(1), k));
            }
        } else {
            let rest = remove_key(entries.skip(1), bad);
            let whole = seq![entries[0]] + rest;
            assert(whole[0] == entries[0]);
            assert(whole.skip(1) =~= rest);
            assert(lookup_obj(whole, bad) == lookup_obj(rest, bad));
            assert forall|k: Seq<char>| k != bad implies #[trigger] lookup_obj(
                remove_key(entries, bad),
                k,
            ) == lookup_obj(entries, k) by {
                if entries[0].0 != k {
                    assert(lookup_obj(whole, k) == lookup_obj(rest, k));
                    assert(lookup_obj(entries, k) == lookup_obj(entries.skip(1), k));
                }
            }
        }
    }
}

/// Removal distributes over appending one entry.
pub proof fn lemma_remove_key_snoc(
    entries: Seq<(Seq<char>, JsonV)>,
    bad: Seq<char>,
    x: (Seq<char>, JsonV),
)
    ensures
        remove_key(entries.push(x), bad) == remove_key(entries, bad) + (if x.0 == bad {
            Seq::<(Seq<char>, JsonV)>::empty()
        } else {
            seq![x]
        }),
    decreases entries.len(),
{
    let tail: Seq<(Seq<char>, JsonV)> = if x.0 == bad {
        Seq::empty()
    } else {
        seq![x]
    };
    if entries.len() == 0 {
        assert(entries.push(x)[0] == x);
        assert(entries.push(x).skip(1) =~= Seq::<(Seq<char>, JsonV)>::empty());
        assert(remove_key(entries.push(x).skip(1), bad) =~= Seq::<(Seq<char>, JsonV)>::empty());
        assert(remove_key(entries, bad) =~= Seq::<(Seq<char>, JsonV)>::empty());
        assert(remove_key(entries.push(x), bad) =~= remove_key(entries, bad) + tail);
    } else {
        lemma_remove_key_snoc(entries.skip(1), bad, x);
        assert(entries.push(x)[0] == entries[0]);
        assert(entries.push(x).skip(1) =~= entries.skip(1).push(x));
        assert(remove_key(entries.push(x), bad) =~= remove_key(entries, bad) + tail);
    }
}

impl Json {
    /// An exact copy.
    pub fn duplicate(&self) -> (r: Json)
        ensures
            r@ == self@,
        decreases self,
    {
        match self {
            Json::Null => Json::Null,
            Json::Bool(b) => Json::Bool(*b),
            Json::Int(i) => Json::Int(*i),
            Json::Str(s) => Json::Str(s.clone()),
            Json::Arr(items) => {
                let mut out: Vec<Json> = Vec::new();
                let n = items.len();
                let mut i: usize = 0;
                while i < n
                    invariant
                        0 <= i <= n,
                        n == items@.len(),
                        out@.len() == i,
                        *self == Json::Arr(*items),
                        forall|j: int| 0 <= j < i ==> (#[trigger] out@[j])@ == items@[j]@,
                    decreases n - i,
                {
                    proof {
                        assert(*items == self->Arr_0);
                        assert(decreases_to!(*self => self->Arr_0));
                        assert(decreases_to!(self->Arr_0 => items@));
                        assert(decreases_to!(items@ => items@[i as int]));
                    }
                    out.push(items[i].duplicate());
                    i = i + 1;
                }
                let r = Json::Arr(out);
                proof {
                    lemma_seq_v(out@);
                    lemma_seq_v(items@);
                    assert(seq_v(out@) =~= seq_v(items@));
                    assert(r@ == self@);
                }
                r
            },
            Json::Obj(entries) => {
                let mut out: Vec<(String, Json)> = Vec::new();
                let n = entries.len();
                let mut i: usize = 0;
                while i < n
                    invariant
                        0 <= i <= n,
                        n == entries@.len(),
                        out@.len() == i,
                        *self == Json::Obj(*entries),
                        forall|j: int|
                            0 <= j < i ==> (#[trigger] out@[j]).0@ == entries@[j].0@ && out@[j].1@
                                == entries@[j].1@,
                    decreases n - i,
                {
                    proof {
                        assert(*entries == self->Obj_0);
                        assert(decreases_to!(*self => self->Obj_0));
                        assert(decreases_to!(self->Obj_0 => entries@));
                        assert(decreases_to!(entries@ => entries@[i as int]));
                        assert(decreases_to!(entries@[i as int] => entries@[i as int].1));
                    }
                    let key = entries[i].0.clone();
                    let val = entries[i].1.duplicate();
                    out.push((key, val));
                    i = i + 1;
                }
                let r = Json::Obj(out);
                proof {
                    lemma_entries_v(out@);
                    lemma_entries_v(entries@);
                    assert(entries_v(out@) =~= entries_v(entries@));
                    assert(r@ == self@);
                }
                r
            },
        }
    }

    /// The value under `key`, when this is an object that has it.
    pub fn get<'a>(&'a self, key: &str) -> (r: Option<&'a Json>)
        ensures
            r matches Some(j) ==> field_of(self@, key@) == Some(j@),
            r is None ==> field_of(self@, key@) is None,
    {
        match self {
            Json::Obj(entries) => {
                proof {
                    lemma_entries_v(entries@);
                }
                let wanted = String::from_str(key);
                let n = entries.len();
                let mut i: usize = 0;
                while i < n
                    invariant
                        0 <= i <= n,
                        n == entries@.len(),
                        wanted@ == key@,
                        self@ is Obj,
                        self@->Obj_0 == entries_v(entries@),
                        entries_v(entries@).len() == entries@.len(),
                        forall|j: int|
                            0 <= j < entries@.len() ==> #[trigger] entries_v(entries@)[j] == (
                            entries@[j].0@, entries@[j].1@),
                        forall|j: int| 0 <= j < i ==> (#[trigger] entries@[j]).0@ != key@,
                    decreases n - i,
                {
                    if entries[i].0 == wanted {
                        proof {
                            lemma_lookup_obj_at(self@->Obj_0, i as int);
                        }
                        return Some(&entries[i].1);
                    }
                    i = i + 1;
                }
                proof {
                    lemma_lookup_obj_none(self@->Obj_0, key@);
                }
                None
            },
            _ => None,
        }
    }

    /// The characters of this value, when it is a string.
    pub fn as_str(&self) -> (r: Option<&String>)
        ensures
            r matches Some(s) ==> self@ == JsonV::Str(s@),
            r is None ==> !(self@ is Str),
    {
        match self {
            Json::Str(s) => Some(s),
            _ => None,
        }
    }

    /// The integer this value holds, when it is a number.
    pub fn as_int(&self) -> (r: Option<i128>)
        ensures
            r matches Some(i) ==> self@ == JsonV::Int(i as int),
            r is None ==> !(self@ is Int),
    {
        match self {
            Json::Int(i) => Some(*i),
            _ => None,
        }
    }

    pub fn as_bool(&self) -> (r: Option<bool>)
        ensures
            r matches Some(b) ==> self@ == JsonV::Bool(b),
            r is None ==> !(self@ is Bool),
    {
        match self {
            Json::Bool(b) => Some(*b),
            _ => None,
        }
    }

    /// The string under `key`, cloned out, when this object holds one.
    pub fn get_str(&self, key: &str) -> (r: Option<String>)
        ensures
            r matches Some(s) ==> field_of(self@, key@) == Some(JsonV::Str(s@)),
            r is None ==> match field_of(self@, key@) {
                Some(v) => !(v is Str),
                None => true,
            },
    {
        match self.get(key) {
            Some(j) => match j.as_str() {
                Some(s) => Some(s.clone()),
                None => None,
            },
            None => None,
        }
    }

    /// Whether this is an object that has `key`.
    pub fn has_key(&self, key: &str) -> (r: bool)
        ensures
            r == (field_of(self@, key@) is Some),
    {
        match self.get(key) {
            Some(_) => true,
            None => false,
        }
    }
}

} // verus!
