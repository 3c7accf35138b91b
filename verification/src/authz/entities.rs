//! Construction of the typed Cedar entities an authorization request needs:
//! the workload and user principals, their roles, one entity per presented
//! token, and the resource — all built from token claims and caller input,
//! as JSON in the shape Cedar's entity parser takes.

use vstd::prelude::*;
use vstd::string::*;

use crate::json::entries_v;
use crate::json::field_of;
use crate::json::lemma_entries_v;
use crate::json::lemma_lookup_obj_none;
use crate::json::lookup_obj;
use crate::json::seq_v;
use crate::json::Json;
use crate::json::JsonV;
use crate::text::push_char;

verus! {

/// The caller-supplied resource: its id, entity type, and a free-form
/// attribute payload that is coerced against the schema.
pub struct ResourceData {
    pub id: String,
    pub resource_type: String,
    pub payload: Vec<(String, Json)>,
}

/// One entity: its type, id, attributes, and parent entity uids.
pub struct EntityData {
    pub entity_type: String,
    pub id: String,
    pub attrs: Vec<(String, Json)>,
    pub parents: Vec<(String, String)>,
}

/// The mathematical shape of an entity.
pub ghost struct EntityV {
    pub entity_type: Seq<char>,
    pub id: Seq<char>,
    pub attrs: Seq<(Seq<char>, JsonV)>,
    pub parents: Seq<(Seq<char>, Seq<char>)>,
}

impl View for EntityData {
    type V = EntityV;

    open spec fn view(&self) -> EntityV {
        EntityV {
            entity_type: self.entity_type@,
            id: self.id@,
            attrs: entries_v(self.attrs@),
            parents: Seq::new(
                self.parents@.len(),
                |i: int| (self.parents@[i].0@, self.parents@[i].1@),
            ),
        }
    }
}

/// A `{"type": ..., "id": ...}` reference.
pub open spec fn uid_json(entity_type: Seq<char>, id: Seq<char>) -> JsonV {
    JsonV::Obj(
        seq![("type"@, JsonV::Str(entity_type)), ("id"@, JsonV::Str(id))],
    )
}

/// The JSON form of one entity, as Cedar's entity parser takes it.
pub open spec fn entity_json(e: EntityV) -> JsonV {
    JsonV::Obj(
        seq![
            ("uid"@, uid_json(e.entity_type, e.id)),
            ("attrs"@, JsonV::Obj(e.attrs)),
            (
                "parents"@,
                JsonV::Arr(Seq::new(e.parents.len(), |i: int| uid_json(e.parents[i].0, e.parents[i].1))),
            ),
        ],
    )
}

fn uid_json_exec(entity_type: &String, id: &String) -> (r: Json)
    ensures
        r@ == uid_json(entity_type@, id@),
{
    let mut fields: Vec<(String, Json)> = Vec::new();
    fields.push((String::from_str("type"), Json::Str(entity_type.clone())));
    fields.push((String::from_str("id"), Json::Str(id.clone())));
    let r = Json::Obj(fields);
    proof {
        lemma_entries_v(r->Obj_0@);
        assert(r@->Obj_0 =~= uid_json(entity_type@, id@)->Obj_0);
        assert(r@ == uid_json(entity_type@, id@));
    }
    r
}

/// The JSON form of one entity.
pub fn entity_to_json(e: &EntityData) -> (r: Json)
    ensures
        r@ == entity_json(e@),
{
    let mut fields: Vec<(String, Json)> = Vec::new();
    fields.push((String::from_str("uid"), uid_json_exec(&e.entity_type, &e.id)));
    let mut attrs: Vec<(String, Json)> = Vec::new();
    let n = e.attrs.len();
    let mut i: usize = 0;
    while i < n
        invariant
            0 <= i <= n,
            n == e.attrs@.len(),
            attrs@.len() == i,
            forall|a: int|
                0 <= a < i ==> (#[trigger] attrs@[a]).0@ == e.attrs@[a].0@ && attrs@[a].1@
                    == e.attrs@[a].1@,
        decreases n - i,
    {
        let key = e.attrs[i].0.clone();
        let val = e.attrs[i].1.duplicate();
        attrs.push((key, val));
        i = i + 1;
    }
    proof {
        lemma_entries_v(attrs@);
        lemma_entries_v(e.attrs@);
        assert(entries_v(attrs@) =~= entries_v(e.attrs@));
    }
    fields.push((String::from_str("attrs"), Json::Obj(attrs)));
    let mut parents: Vec<Json> = Vec::new();
    let m = e.parents.len();
    let mut j: usize = 0;
    while j < m
        invariant
            0 <= j <= m,
            m == e.parents@.len(),
            parents@.len() == j,
            forall|a: int|
                0 <= a < j ==> (#[trigger] parents@[a])@ == uid_json(
                    e.parents@[a].0@,
                    e.parents@[a].1@,
                ),
        decreases m - j,
    {
        parents.push(uid_json_exec(&e.parents[j].0, &e.parents[j].1));
        j = j + 1;
    }
    proof {
        crate::json::lemma_seq_v(parents@);
        assert(seq_v(parents@) =~= Seq::new(
            e@.parents.len(),
            |i: int| uid_json(e@.parents[i].0, e@.parents[i].1),
        ));
    }
    fields.push((String::from_str("parents"), Json::Arr(parents)));
    let r = Json::Obj(fields);
    proof {
        lemma_entries_v(r->Obj_0@);
        assert(r@->Obj_0 =~= entity_json(e@)->Obj_0);
        assert(r@ == entity_json(e@));
    }
    r
}

/// A double quote or backslash in an entity id is escaped in uid text.
pub open spec fn escape_id(s: Seq<char>) -> Seq<char>
    decreases s.len(),
{
    if s.len() == 0 {
        Seq::empty()
    } else {
        let head: Seq<char> = if s[0] == '"' || s[0] == '\\' {
            seq!['\\', s[0]]
        } else {
            seq![s[0]]
        };
        head + escape_id(s.skip(1))
    }
}

/// The uid text `Type::"id"`, with the id escaped.
pub open spec fn uid_text(entity_type: Seq<char>, id: Seq<char>) -> Seq<char> {
    entity_type + seq![':', ':', '"'] + escape_id(id) + seq!['"']
}

proof fn lemma_escape_id_snoc(s: Seq<char>, c: char)
    ensures
        escape_id(s.push(c)) == escape_id(s) + (if c == '"' || c == '\\' {
            seq!['\\', c]
        } else {
            seq![c]
        }),
    decreases s.len(),
{
    let tail: Seq<char> = if c == '"' || c == '\\' {
        seq!['\\', c]
    } else {
        seq![c]
    };
    if s.len() == 0 {
        assert(s.push(c)[0] == c);
        assert(s =~= Seq::<char>::empty());
        assert(s.push(c).skip(1) =~= s);
        assert(escape_id(s.push(c)) == tail + escape_id(s));
        assert(escape_id(s) =~= Seq::<char>::empty());
        assert(escape_id(s.push(c)) =~= escape_id(s) + tail);
    } else {
        lemma_escape_id_snoc(s.skip(1), c);
        assert(s.push(c)[0] == s[0]);
        assert(s.push(c).skip(1) =~= s.skip(1).push(c));
        assert(escape_id(s.push(c)) =~= escape_id(s) + tail);
    }
}

/// The uid text for an entity reference, e.g. `Ns::User::"alice"`.
pub fn entity_uid_string(etype: &String, id: &String) -> (r: String)
    ensures
        r@ == uid_text(etype@, id@),
{
    let mut out = etype.clone();
    push_char(&mut out, ':');
    push_char(&mut out, ':');
    push_char(&mut out, '"');
    let len = id.as_str().unicode_len();
    let mut i: usize = 0;
    while i < len
        invariant
            0 <= i <= len,
            len == id@.len(),
            out@ =~= etype@ + seq![':', ':', '"'] + escape_id(id@.take(i as int)),
        decreases len - i,
    {
        let c = id.as_str().get_char(i);
        if c == '"' || c == '\\' {
            push_char(&mut out, '\\');
        }
        push_char(&mut out, c);
        proof {
            lemma_escape_id_snoc(id@.take(i as int), c);
            assert(id@.take(i as int).push(c) =~= id@.take(i + 1));
        }
        i = i + 1;
    }
    push_char(&mut out, '"');
    proof {
        assert(id@.take(len as int) =~= id@);
        assert(out@ =~= uid_text(etype@, id@));
    }
    out
}

/// The claim entries of a decoded token: the entries of its claim object,
/// or nothing when it is not an object.
pub open spec fn claims_of(v: JsonV) -> Seq<(Seq<char>, JsonV)> {
    match v {
        JsonV::Obj(entries) => entries,
        _ => Seq::empty(),
    }
}

/// The claim a merged view holds under `k`: the primary token's value when
/// it has the claim, else the secondary token's.
pub open spec fn merged_lookup(
    primary: Seq<(Seq<char>, JsonV)>,
    secondary: Seq<(Seq<char>, JsonV)>,
    k: Seq<char>,
) -> Option<JsonV> {
    match lookup_obj(primary, k) {
        Some(v) => Some(v),
        None => lookup_obj(secondary, k),
    }
}

fn vec_has_key(entries: &Vec<(String, Json)>, key: &String) -> (r: bool)
    ensures
        r == (lookup_obj(entries_v(entries@), key@) is Some),
{
    proof {
        lemma_entries_v(entries@);
    }
    let n = entries.len();
    let mut i: usize = 0;
    while i < n
        invariant
            0 <= i <= n,
            n == entries@.len(),
            entries_v(entries@).len() == n,
            forall|a: int|
                0 <= a < n ==> #[trigger] entries_v(entries@)[a] == (entries@[a].0@,
                entries@[a].1@),
            forall|a: int| 0 <= a < i ==> (#[trigger] entries_v(entries@)[a]).0 != key@,
        decreases n - i,
    {
        if entries[i].0 == *key {
            proof {
                crate::json::lemma_lookup_obj_at(entries_v(entries@), i as int);
            }
            return true;
        }
        assert(entries_v(entries@)[i as int].0 != key@);
        i = i + 1;
    }
    proof {
        lemma_lookup_obj_none(entries_v(entries@), key@);
    }
    false
}

/// Merges two tokens' claims; on every claim both carry, the primary
/// token's value wins.
pub fn merge_claims(primary: &Json, secondary: &Json) -> (r: Vec<(String, Json)>)
    ensures
        forall|k: Seq<char>|
            #[trigger] lookup_obj(entries_v(r@), k) == merged_lookup(
                claims_of(primary@),
                claims_of(secondary@),
                k,
            ),
{
    let mut out: Vec<(String, Json)> = Vec::new();
    let ghost pv = claims_of(primary@);
    let ghost sv = claims_of(secondary@);
    match primary {
        Json::Obj(entries) => {
            proof {
                lemma_entries_v(entries@);
            }
            let n = entries.len();
            let mut i: usize = 0;
            while i < n
                invariant
                    0 <= i <= n,
                    n == entries@.len(),
                    out@.len() == i,
                    pv == entries_v(entries@),
                    forall|a: int|
                        0 <= a < i ==> (#[trigger] out@[a]).0@ == entries@[a].0@ && out@[a].1@
                            == entries@[a].1@,
                decreases n - i,
            {
                let key = entries[i].0.clone();
                let val = entries[i].1.duplicate();
                out.push((key, val));
                i = i + 1;
            }
            proof {
                lemma_entries_v(out@);
                assert(entries_v(out@) =~= pv);
            }
        },
        _ => {
            proof {
                assert(entries_v(out@) =~= pv);
            }
        },
    }
    assert(entries_v(out@) == pv);
    match secondary {
        Json::Obj(entries) => {
            proof {
                lemma_entries_v(entries@);
            }
            let n = entries.len();
            let mut j: usize = 0;
            while j < n
                invariant
                    0 <= j <= n,
                    n == entries@.len(),
                    sv == entries_v(entries@),
                    sv.len() == n,
                    forall|a: int|
                        0 <= a < n ==> #[trigger] sv[a] == (entries@[a].0@, entries@[a].1@),
                    forall|k: Seq<char>|
                        #[trigger] lookup_obj(entries_v(out@), k) == merged_lookup(
                            pv,
                            sv.take(j as int),
                            k,
                        ),
                decreases n - j,
            {
                let key = entries[j].0.clone();
                let ghost k0 = key@;
                let ghost pre_vec = out@;
                let ghost pre = entries_v(pre_vec);
                proof {
                    lemma_entries_v(pre_vec);
                    crate::json::lemma_lookup_obj_push(pre, k0, entries@[j as int].1@);
                    crate::json::lemma_lookup_obj_push(sv.take(j as int), k0, entries@[j as int].1@);
                    assert(sv.take(j as int).push(sv[j as int]) =~= sv.take(j + 1));
                }
                if !vec_has_key(&out, &key) {
                    let val = entries[j].1.duplicate();
                    out.push((key, val));
                    proof {
                        lemma_entries_v(out@);
                        assert(out@ == pre_vec.push((out@[pre_vec.len() as int].0, out@[pre_vec.len() as int].1)));
                        assert(entries_v(out@) =~= pre.push((k0, entries@[j as int].1@)));
                        assert forall|k: Seq<char>| true implies #[trigger] lookup_obj(
                            entries_v(out@),
                            k,
                        ) == merged_lookup(pv, sv.take(j + 1), k) by {
                            if k == k0 {
                                assert(lookup_obj(pre, k0) is None);
                                assert(lookup_obj(pv, k0) is None);
                                assert(lookup_obj(sv.take(j as int), k0) is None);
                            }
                        }
                    }
                } else {
                    proof {
                        assert forall|k: Seq<char>| true implies #[trigger] lookup_obj(
                            entries_v(out@),
                            k,
                        ) == merged_lookup(pv, sv.take(j + 1), k) by {
                            if k == k0 {
                                assert(lookup_obj(entries_v(out@), k0) is Some);
                            }
                        }
                    }
                }
                j = j + 1;
            }
            proof {
                assert(sv.take(n as int) =~= sv);
            }
        },
        _ => {
            proof {
                assert forall|k: Seq<char>| true implies #[trigger] lookup_obj(
                    entries_v(out@),
                    k,
                ) == merged_lookup(pv, sv, k) by {
                    assert(lookup_obj(sv, k) is None) by {
                        assert(sv =~= Seq::<(Seq<char>, JsonV)>::empty());
                    }
                }
            }
        },
    }
    out
}

/// Builds one token entity: its id is the claim named by `id_claim`, its
/// attributes are the remaining claims.
pub fn create_token_entity(etype: &String, claims: &Json, id_claim: &String) -> (r: Result<
    EntityData,
    String,
>)
    ensures
        r matches Ok(e) ==> {
            &&& e@.entity_type == etype@
            &&& lookup_obj(claims_of(claims@), id_claim@) == Some(JsonV::Str(e@.id))
            &&& e@.attrs == crate::json::remove_key(claims_of(claims@), id_claim@)
            &&& e@.parents.len() == 0
        },
        r is Err ==> !(lookup_obj(claims_of(claims@), id_claim@) matches Some(v) && v is Str),
{
    let entries = match claims {
        Json::Obj(entries) => entries,
        _ => {
            proof {
                assert(claims_of(claims@) =~= Seq::<(Seq<char>, JsonV)>::empty());
            }
            return Err(String::from_str("token claims are not an object"));
        },
    };
    proof {
        lemma_entries_v(entries@);
    }
    let ghost cv = entries_v(entries@);
    let id = match claims.get_str(id_claim.as_str()) {
        Some(s) => s,
        None => {
            return Err(String::from_str("token has no usable id claim"));
        },
    };
    let mut attrs: Vec<(String, Json)> = Vec::new();
    let n = entries.len();
    let mut i: usize = 0;
    while i < n
        invariant
            0 <= i <= n,
            n == entries@.len(),
            cv == entries_v(entries@),
            cv.len() == n,
            forall|a: int| 0 <= a < n ==> #[trigger] cv[a] == (entries@[a].0@, entries@[a].1@),
            entries_v(attrs@) =~= crate::json::remove_key(cv.take(i as int), id_claim@),
        decreases n - i,
    {
        proof {
            crate::json::lemma_remove_key_snoc(cv.take(i as int), id_claim@, cv[i as int]);
            assert(cv.take(i as int).push(cv[i as int]) =~= cv.take(i + 1));
        }
        if !(entries[i].0 == *id_claim) {
            let key = entries[i].0.clone();
            let val = entries[i].1.duplicate();
            let ghost pre_vec = attrs@;
            let ghost pre = entries_v(pre_vec);
            attrs.push((key, val));
            proof {
                lemma_entries_v(pre_vec);
                lemma_entries_v(attrs@);
                assert(entries_v(attrs@) =~= pre.push((cv[i as int].0, cv[i as int].1)));
                assert(entries_v(attrs@) =~= crate::json::remove_key(cv.take(i + 1), id_claim@));
            }
        }
        i = i + 1;
    }
    proof {
        assert(cv.take(n as int) =~= cv);
    }
    let parents: Vec<(String, String)> = Vec::new();
    let e = EntityData { entity_type: etype.clone(), id, attrs, parents };
    proof {
        assert(e@.parents =~= Seq::<(Seq<char>, Seq<char>)>::empty());
    }
    Ok(e)
}

/// The value an entry list holds under `key`, when it holds one.
fn entries_get<'a>(entries: &'a Vec<(String, Json)>, key: &String) -> (r: Option<&'a Json>)
    ensures
        r matches Some(j) ==> lookup_obj(entries_v(entries@), key@) == Some(j@),
        r is None ==> lookup_obj(entries_v(entries@), key@) is None,
{
    proof {
        lemma_entries_v(entries@);
    }
    let n = entries.len();
    let mut i: usize = 0;
    while i < n
        invariant
            0 <= i <= n,
            n == entries@.len(),
            entries_v(entries@).len() == n,
            forall|a: int|
                0 <= a < n ==> #[trigger] entries_v(entries@)[a] == (entries@[a].0@,
                entries@[a].1@),
            forall|a: int| 0 <= a < i ==> (#[trigger] entries_v(entries@)[a]).0 != key@,
        decreases n - i,
    {
        if entries[i].0 == *key {
            proof {
                crate::json::lemma_lookup_obj_at(entries_v(entries@), i as int);
            }
            return Some(&entries[i].1);
        }
        assert(entries_v(entries@)[i as int].0 != key@);
        i = i + 1;
    }
    proof {
        lemma_lookup_obj_none(entries_v(entries@), key@);
    }
    None
}

/// Whether every element is a string.
pub open spec fn all_strings(items: Seq<JsonV>) -> bool {
    forall|i: int| 0 <= i < items.len() ==> (#[trigger] items[i]) is Str
}

/// The strings of a sequence of string values.
pub open spec fn string_values(items: Seq<JsonV>) -> Seq<Seq<char>> {
    Seq::new(items.len(), |i: int| items[i]->Str_0)
}

/// The role names a token's role claim assigns: none when absent, one for a
/// string claim, all of them for an array of strings; anything else is a
/// shape error.
pub open spec fn role_values_of(claims: JsonV, role_claim: Seq<char>) -> Option<Seq<Seq<char>>> {
    match field_of(claims, role_claim) {
        None => Some(Seq::empty()),
        Some(JsonV::Str(s)) => Some(seq![s]),
        Some(JsonV::Arr(items)) => if all_strings(items) {
            Some(string_values(items))
        } else {
            None
        },
        Some(_) => None,
    }
}

/// Reads the role names a token's role claim assigns.
pub fn extract_role_values(claims: &Json, role_claim: &String) -> (r: Result<Vec<String>, String>)
    ensures
        r matches Ok(v) ==> role_values_of(claims@, role_claim@) == Some(v.deep_view()),
        r is Err ==> role_values_of(claims@, role_claim@) is None,
{
    match claims.get(role_claim.as_str()) {
        None => {
            let out: Vec<String> = Vec::new();
            proof {
                assert(out.deep_view() =~= Seq::<Seq<char>>::empty());
            }
            Ok(out)
        },
        Some(j) => match j {
            Json::Str(s) => {
                let mut out: Vec<String> = Vec::new();
                out.push(s.clone());
                proof {
                    assert(out.deep_view() =~= seq![s@]);
                }
                Ok(out)
            },
            Json::Arr(items) => {
                proof {
                    crate::json::lemma_seq_v(items@);
                }
                let mut out: Vec<String> = Vec::new();
                let n = items.len();
                let mut i: usize = 0;
                while i < n
                    invariant
                        0 <= i <= n,
                        n == items@.len(),
                        seq_v(items@).len() == n,
                        field_of(claims@, role_claim@) == Some(JsonV::Arr(seq_v(items@))),
                        forall|a: int| 0 <= a < n ==> #[trigger] seq_v(items@)[a] == items@[a]@,
                        out@.len() == i,
                        forall|a: int| 0 <= a < i ==> (#[trigger] seq_v(items@)[a]) is Str,
                        forall|a: int|
                            0 <= a < i ==> (#[trigger] out@[a])@ == seq_v(items@)[a]->Str_0,
                    decreases n - i,
                {
                    match &items[i] {
                        Json::Str(s) => {
                            out.push(s.clone());
                        },
                        _ => {
                            assert(!(seq_v(items@)[i as int] is Str));
                            return Err(String::from_str("role claim array holds a non-string"));
                        },
                    }
                    i = i + 1;
                }
                proof {
                    assert(all_strings(seq_v(items@)));
                    assert(out.deep_view() =~= string_values(seq_v(items@)));
                }
                Ok(out)
            },
            _ => Err(String::from_str("role claim is neither string nor array")),
        },
    }
}

/// Whether some element spells `x`.
pub open spec fn contains_str(v: Seq<Seq<char>>, x: Seq<char>) -> bool {
    exists|i: int| 0 <= i < v.len() && #[trigger] v[i] == x
}

proof fn lemma_contains_push(v: Seq<Seq<char>>, x: Seq<char>, y: Seq<char>)
    ensures
        contains_str(v.push(y), x) == (contains_str(v, x) || x == y),
{
    if contains_str(v.push(y), x) {
        let w = choose|w: int| 0 <= w < v.push(y).len() && #[trigger] v.push(y)[w] == x;
        if w < v.len() {
            assert(v[w] == x);
        } else {
            assert(x == y);
        }
    }
    if contains_str(v, x) {
        let w = choose|w: int| 0 <= w < v.len() && #[trigger] v[w] == x;
        assert(v.push(y)[w] == x);
    }
    if x == y {
        assert(v.push(y)[v.len() as int] == x);
    }
}

/// Removes duplicate names, keeping each name's first occurrence: the
/// result holds each name once, and exactly the names of the input.
pub fn dedup_strings(values: Vec<String>) -> (r: Vec<String>)
    ensures
        forall|a: int, b: int|
            0 <= a < b < r.deep_view().len() ==> r.deep_view()[a] != r.deep_view()[b],
        forall|x: Seq<char>|
            #[trigger] contains_str(r.deep_view(), x) == contains_str(values.deep_view(), x),
{
    let mut out: Vec<String> = Vec::new();
    let n = values.len();
    let mut i: usize = 0;
    while i < n
        invariant
            0 <= i <= n,
            n == values@.len(),
            forall|a: int, b: int|
                0 <= a < b < out.deep_view().len() ==> out.deep_view()[a] != out.deep_view()[b],
            forall|x: Seq<char>|
                #[trigger] contains_str(out.deep_view(), x) == contains_str(
                    values.deep_view().take(i as int),
                    x,
                ),
        decreases n - i,
    {
        let mut seen = false;
        let m = out.len();
        let mut j: usize = 0;
        while j < m
            invariant
                0 <= j <= m,
                0 <= i < n,
                n == values@.len(),
                m == out@.len(),
                seen ==> contains_str(out.deep_view(), values@[i as int]@),
                !seen ==> forall|a: int|
                    0 <= a < j ==> #[trigger] out.deep_view()[a] != values@[i as int]@,
            decreases m - j,
        {
            if out[j] == values[i] {
                seen = true;
                proof {
                    assert(out.deep_view()[j as int] == values@[i as int]@);
                }
            }
            j = j + 1;
        }
        let ghost pre = out.deep_view();
        let ghost taken = values.deep_view().take(i as int);
        let ghost vi = values@[i as int]@;
        proof {
            assert(taken.push(vi) =~= values.deep_view().take(i + 1));
        }
        if !seen {
            assert(forall|a: int| 0 <= a < pre.len() ==> #[trigger] pre[a] != vi);
            out.push(values[i].clone());
            proof {
                assert(out.deep_view() =~= pre.push(vi));
                assert(!contains_str(pre, vi));
                assert forall|x: Seq<char>| #[trigger] contains_str(out.deep_view(), x)
                    == contains_str(values.deep_view().take(i + 1), x) by {
                    lemma_contains_push(pre, x, vi);
                    lemma_contains_push(taken, x, vi);
                    assert(contains_str(out.deep_view(), x) == contains_str(pre.push(vi), x));
                    assert(contains_str(values.deep_view().take(i + 1), x) == contains_str(
                        taken.push(vi),
                        x,
                    ));
                }
                assert forall|a: int, b: int|
                    0 <= a < b < out.deep_view().len() implies out.deep_view()[a]
                    != out.deep_view()[b] by {
                    if b == pre.len() {
                        assert(out.deep_view()[a] == pre[a]);
                    }
                }
            }
        } else {
            proof {
                assert forall|x: Seq<char>| #[trigger] contains_str(out.deep_view(), x)
                    == contains_str(values.deep_view().take(i + 1), x) by {
                    lemma_contains_push(taken, x, vi);
                    assert(contains_str(values.deep_view().take(i + 1), x) == contains_str(
                        taken.push(vi),
                        x,
                    ));
                    if x == vi {
                        assert(contains_str(out.deep_view(), x));
                    }
                }
            }
        }
        i = i + 1;
    }
    proof {
        assert(values.deep_view().take(n as int) =~= values.deep_view());
    }
    out
}

/// The ids of a list of role entities.
pub open spec fn role_ids(roles: Seq<EntityData>) -> Seq<Seq<char>> {
    Seq::new(roles.len(), |i: int| roles[i]@.id)
}

/// Builds one role entity per role name.
pub fn roles_from_names(role_type: &String, names: &Vec<String>) -> (r: Vec<EntityData>)
    ensures
        r@.len() == names@.len(),
        forall|a: int|
            0 <= a < r@.len() ==> {
                &&& (#[trigger] r@[a])@.entity_type == role_type@
                &&& r@[a]@.id == names@[a]@
                &&& r@[a]@.attrs.len() == 0
                &&& r@[a]@.parents.len() == 0
            },
{
    let mut out: Vec<EntityData> = Vec::new();
    let n = names.len();
    let mut i: usize = 0;
    while i < n
        invariant
            0 <= i <= n,
            n == names@.len(),
            out@.len() == i,
            forall|a: int|
                0 <= a < i ==> {
                    &&& (#[trigger] out@[a])@.entity_type == role_type@
                    &&& out@[a]@.id == names@[a]@
                    &&& out@[a]@.attrs.len() == 0
                    &&& out@[a]@.parents.len() == 0
                },
        decreases n - i,
    {
        let attrs: Vec<(String, Json)> = Vec::new();
        let parents: Vec<(String, String)> = Vec::new();
        let e = EntityData {
            entity_type: role_type.clone(),
            id: names[i].clone(),
            attrs,
            parents,
        };
        proof {
            assert(e@.attrs =~= Seq::<(Seq<char>, JsonV)>::empty());
            assert(e@.parents =~= Seq::<(Seq<char>, Seq<char>)>::empty());
        }
        out.push(e);
        i = i + 1;
    }
    out
}

/// The claims a token contributes, as its claim object's entries.
pub open spec fn opt_claims(t: Option<JsonV>) -> Seq<(Seq<char>, JsonV)> {
    match t {
        Some(v) => claims_of(v),
        None => Seq::empty(),
    }
}

/// Builds the workload principal from the access and id tokens: its id is
/// the `client_id` claim, its attributes are the merged claims with the
/// access token winning conflicts. With no source token there is no
/// workload entity.
pub fn create_workload(etype: &String, access: Option<&Json>, id_tok: Option<&Json>) -> (r: Result<
    Option<EntityData>,
    String,
>)
    ensures
        ({
            let pv = opt_claims(match access {
                Some(j) => Some(j@),
                None => None,
            });
            let sv = opt_claims(match id_tok {
                Some(j) => Some(j@),
                None => None,
            });
            &&& (r is Err <==> (access is Some || id_tok is Some) && !(merged_lookup(
                pv,
                sv,
                "client_id"@,
            ) matches Some(v) && v is Str))
            &&& (r matches Ok(oe) ==> {
                &&& (oe is None <==> access is None && id_tok is None)
                &&& (oe matches Some(e) ==> {
                    &&& e@.entity_type == etype@
                    &&& merged_lookup(pv, sv, "client_id"@) == Some(JsonV::Str(e@.id))
                    &&& forall|k: Seq<char>|
                        #[trigger] lookup_obj(e@.attrs, k) == merged_lookup(pv, sv, k)
                    &&& e@.parents.len() == 0
                })
            })
        }),
{
    if access.is_none() && id_tok.is_none() {
        return Ok(None);
    }
    let null_claims = Json::Null;
    let primary: &Json = match access {
        Some(j) => j,
        None => &null_claims,
    };
    let secondary: &Json = match id_tok {
        Some(j) => j,
        None => &null_claims,
    };
    let attrs = merge_claims(primary, secondary);
    let id = match entries_get(&attrs, &String::from_str("client_id")) {
        Some(j) => match j.as_str() {
            Some(s) => s.clone(),
            None => {
                return Err(String::from_str("client_id claim is not a string"));
            },
        },
        None => {
            return Err(String::from_str("tokens carry no client_id claim"));
        },
    };
    let parents: Vec<(String, String)> = Vec::new();
    let e = EntityData { entity_type: etype.clone(), id, attrs, parents };
    proof {
        assert(e@.parents =~= Seq::<(Seq<char>, Seq<char>)>::empty());
    }
    Ok(Some(e))
}

/// Builds the user principal from the userinfo and id tokens: its id is the
/// configured user-id claim, its attributes are the merged claims with the
/// userinfo token winning conflicts, and its parents are the role entities.
/// With no source token there is no user entity.
pub fn create_user(
    etype: &String,
    id_claim: &String,
    userinfo: Option<&Json>,
    id_tok: Option<&Json>,
    roles: &Vec<EntityData>,
) -> (r: Result<Option<EntityData>, String>)
    ensures
        ({
            let pv = opt_claims(match userinfo {
                Some(j) => Some(j@),
                None => None,
            });
            let sv = opt_claims(match id_tok {
                Some(j) => Some(j@),
                None => None,
            });
            &&& (r is Err <==> (userinfo is Some || id_tok is Some) && !(merged_lookup(
                pv,
                sv,
                id_claim@,
            ) matches Some(v) && v is Str))
            &&& (r matches Ok(oe) ==> {
                &&& (oe is None <==> userinfo is None && id_tok is None)
                &&& (oe matches Some(e) ==> {
                    &&& e@.entity_type == etype@
                    &&& merged_lookup(pv, sv, id_claim@) == Some(JsonV::Str(e@.id))
                    &&& forall|k: Seq<char>|
                        #[trigger] lookup_obj(e@.attrs, k) == merged_lookup(pv, sv, k)
                    &&& e@.parents == Seq::new(
                        roles@.len(),
                        |i: int| (roles@[i]@.entity_type, roles@[i]@.id),
                    )
                })
            })
        }),
{
    if userinfo.is_none() && id_tok.is_none() {
        return Ok(None);
    }
    let null_claims = Json::Null;
    let primary: &Json = match userinfo {
        Some(j) => j,
        None => &null_claims,
    };
    let secondary: &Json = match id_tok {
        Some(j) => j,
        None => &null_claims,
    };
    let attrs = merge_claims(primary, secondary);
    let id = match entries_get(&attrs, id_claim) {
        Some(j) => match j.as_str() {
            Some(s) => s.clone(),
            None => {
                return Err(String::from_str("user id claim is not a string"));
            },
        },
        None => {
            return Err(String::from_str("tokens carry no user id claim"));
        },
    };
    let mut parents: Vec<(String, String)> = Vec::new();
    let n = roles.len();
    let mut i: usize = 0;
    while i < n
        invariant
            0 <= i <= n,
            n == roles@.len(),
            parents@.len() == i,
            forall|a: int|
                0 <= a < i ==> (#[trigger] parents@[a]).0@ == roles@[a]@.entity_type
                    && parents@[a].1@ == roles@[a]@.id,
        decreases n - i,
    {
        parents.push((roles[i].entity_type.clone(), roles[i].id.clone()));
        i = i + 1;
    }
    let e = EntityData { entity_type: etype.clone(), id, attrs, parents };
    proof {
        assert(e@.parents =~= Seq::new(
            roles@.len(),
            |i: int| (roles@[i]@.entity_type, roles@[i]@.id),
        ));
    }
    Ok(Some(e))
}



/// The qualified name of an entity type declared in a namespace.
pub open spec fn qualified_type_text(ns: Seq<char>, name: Seq<char>) -> Seq<char> {
    ns + "::"@ + name
}

/// The first entity type in this namespace whose qualified name matches.
pub open spec fn find_type_in(
    types: Seq<(Seq<char>, JsonV)>,
    ns: Seq<char>,
    wanted: Seq<char>,
) -> Option<JsonV>
    decreases types.len(),
{
    if types.len() == 0 {
        None
    } else if qualified_type_text(ns, types[0].0) == wanted {
        Some(types[0].1)
    } else {
        find_type_in(types.skip(1), ns, wanted)
    }
}

/// The first namespace declaring this entity type, with its declaration.
pub open spec fn find_entity_decl_spec(
    namespaces: Seq<(Seq<char>, JsonV)>,
    wanted: Seq<char>,
) -> Option<JsonV>
    decreases namespaces.len(),
{
    if namespaces.len() == 0 {
        None
    } else {
        match (match field_of(namespaces[0].1, "entityTypes"@) {
            Some(JsonV::Obj(types)) => find_type_in(types, namespaces[0].0, wanted),
            _ => None,
        }) {
            Some(d) => Some(d),
            None => find_entity_decl_spec(namespaces.skip(1), wanted),
        }
    }
}

/// The declaration the schema resolves for this entity type.
pub open spec fn resolved_entity_decl(schema: JsonV, wanted: Seq<char>) -> Option<JsonV> {
    match schema {
        JsonV::Obj(namespaces) => find_entity_decl_spec(namespaces, wanted),
        _ => None,
    }
}

/// The attribute declarations an entity declaration carries; none when its
/// shape declares none.
pub open spec fn decl_attrs_of(decl: JsonV) -> Seq<(Seq<char>, JsonV)> {
    match field_of(decl, "shape"@) {
        Some(sh) => match field_of(sh, "attributes"@) {
            Some(JsonV::Obj(entries)) => entries,
            _ => Seq::empty(),
        },
        None => Seq::empty(),
    }
}

/// A payload satisfies the attribute declarations: every required declared
/// attribute is present with its declared kind, and every present declared
/// attribute matches its kind.
pub open spec fn payload_accepts(
    decls: Seq<(Seq<char>, JsonV)>,
    payload: Seq<(Seq<char>, JsonV)>,
) -> bool {
    forall|i: int|
        0 <= i < decls.len() ==> (match lookup_obj(payload, (#[trigger] decls[i]).0) {
            Some(v) => attr_kind_matches(decls[i].1, v),
            None => !attr_required(decls[i].1),
        })
}

/// The schema accepts this resource: its entity type is declared and the
/// payload satisfies the declared attributes.
pub open spec fn resource_acceptable(
    schema: JsonV,
    etype: Seq<char>,
    payload: Seq<(Seq<char>, JsonV)>,
) -> bool {
    match resolved_entity_decl(schema, etype) {
        Some(d) => payload_accepts(decl_attrs_of(d), payload),
        None => false,
    }
}

proof fn lemma_find_type_in_at(
    types: Seq<(Seq<char>, JsonV)>,
    ns: Seq<char>,
    wanted: Seq<char>,
    j: int,
)
    requires
        0 <= j <= types.len(),
        forall|b: int| 0 <= b < j ==> qualified_type_text(ns, (#[trigger] types[b]).0) != wanted,
        j < types.len() ==> qualified_type_text(ns, types[j].0) == wanted,
    ensures
        j == types.len() ==> find_type_in(types, ns, wanted) is None,
        j < types.len() ==> find_type_in(types, ns, wanted) == Some(types[j].1),
    decreases types.len(),
{
    if types.len() > 0 && qualified_type_text(ns, types[0].0) != wanted {
        assert(j > 0);
        lemma_find_type_in_at(types.skip(1), ns, wanted, j - 1);
        assert forall|b: int| 0 <= b < j - 1 implies qualified_type_text(
            ns,
            (#[trigger] types.skip(1)[b]).0,
        ) != wanted by {
            assert(types.skip(1)[b] == types[b + 1]);
        }
        if j < types.len() {
            assert(types.skip(1)[j - 1] == types[j]);
        }
    }
}

proof fn lemma_find_entity_decl_at(namespaces: Seq<(Seq<char>, JsonV)>, wanted: Seq<char>, i: int)
    requires
        0 <= i <= namespaces.len(),
        forall|a: int|
            0 <= a < i ==> (match field_of((#[trigger] namespaces[a]).1, "entityTypes"@) {
                Some(JsonV::Obj(types)) => find_type_in(types, namespaces[a].0, wanted) is None,
                _ => true,
            }),
    ensures
        i == namespaces.len() ==> find_entity_decl_spec(namespaces, wanted) is None,
        i < namespaces.len() ==> find_entity_decl_spec(namespaces, wanted)
            == find_entity_decl_spec(namespaces.skip(i), wanted),
    decreases i,
{
    if i > 0 {
        lemma_find_entity_decl_at(namespaces.skip(1), wanted, i - 1);
        assert forall|a: int|
            0 <= a < i - 1 implies (match field_of(
            (#[trigger] namespaces.skip(1)[a]).1,
            "entityTypes"@,
        ) {
            Some(JsonV::Obj(types)) => find_type_in(
                types,
                namespaces.skip(1)[a].0,
                wanted,
            ) is None,
            _ => true,
        }) by {
            assert(namespaces.skip(1)[a] == namespaces[a + 1]);
        }
        assert(namespaces.skip(1).skip(i - 1) =~= namespaces.skip(i));
    } else {
        assert(namespaces.skip(0) =~= namespaces);
    }
}

/// Builds the resource entity from caller input: accepted exactly when the
/// schema declares the resource's entity type and the payload satisfies the
/// declared attributes. Every attribute placed on the entity comes from the
/// payload.
pub fn create_resource_entity(resource: &ResourceData, schema_json: &Json) -> (r: Result<
    EntityData,
    String,
>)
    ensures
        r is Ok <==> resource_acceptable(
            schema_json@,
            resource.resource_type@,
            entries_v(resource.payload@),
        ),
        r matches Ok(e) ==> {
            &&& e@.entity_type == resource.resource_type@
            &&& e@.id == resource.id@
            &&& e@.parents.len() == 0
            &&& forall|k: Seq<char>|
                #[trigger] lookup_obj(e@.attrs, k) is Some ==> lookup_obj(
                    entries_v(resource.payload@),
                    k,
                ) is Some
        },
{
    proof {
        lemma_entries_v(resource.payload@);
    }
    let ghost payload_v = entries_v(resource.payload@);
    let decl = match find_entity_decl(schema_json, &resource.resource_type) {
        Some(d) => d,
        None => {
            return Err(String::from_str("resource entity type is not declared in the schema"));
        },
    };
    let mut attrs: Vec<(String, Json)> = Vec::new();
    let attr_decls: Vec<(String, Json)> = match decl.get("shape") {
        Some(shape) => match shape.get("attributes") {
            Some(Json::Obj(decls)) => {
                proof {
                    lemma_entries_v(decls@);
                }
                let mut copied: Vec<(String, Json)> = Vec::new();
                let n = decls.len();
                let mut i: usize = 0;
                while i < n
                    invariant
                        0 <= i <= n,
                        n == decls@.len(),
                        copied@.len() == i,
                        forall|a: int|
                            0 <= a < i ==> (#[trigger] copied@[a]).0@ == decls@[a].0@
                                && copied@[a].1@ == decls@[a].1@,
                    decreases n - i,
                {
                    copied.push((decls[i].0.clone(), decls[i].1.duplicate()));
                    i = i + 1;
                }
                proof {
                    lemma_entries_v(copied@);
                    assert(entries_v(copied@) =~= decl_attrs_of(decl@));
                }
                copied
            },
            _ => {
                let copied: Vec<(String, Json)> = Vec::new();
                proof {
                    assert(entries_v(copied@) =~= decl_attrs_of(decl@));
                }
                copied
            },
        },
        None => {
            let copied: Vec<(String, Json)> = Vec::new();
            proof {
                assert(entries_v(copied@) =~= decl_attrs_of(decl@));
            }
            copied
        },
    };
    proof {
        lemma_entries_v(attr_decls@);
    }
    let ghost decls_v = decl_attrs_of(decl@);
    let n = attr_decls.len();
    let mut i: usize = 0;
    while i < n
        invariant
            0 <= i <= n,
            n == attr_decls@.len(),
            decls_v.len() == n,
            decls_v == entries_v(attr_decls@),
            payload_v == entries_v(resource.payload@),
            resolved_entity_decl(schema_json@, resource.resource_type@) == Some(decl@),
            decls_v == decl_attrs_of(decl@),
            forall|a: int|
                0 <= a < n ==> #[trigger] decls_v[a] == (attr_decls@[a].0@, attr_decls@[a].1@),
            forall|a: int|
                0 <= a < i ==> (match lookup_obj(payload_v, (#[trigger] decls_v[a]).0) {
                    Some(v) => attr_kind_matches(decls_v[a].1, v),
                    None => !attr_required(decls_v[a].1),
                }),
            forall|k: Seq<char>|
                #[trigger] lookup_obj(entries_v(attrs@), k) is Some ==> lookup_obj(
                    payload_v,
                    k,
                ) is Some,
        decreases n - i,
    {
        let name = &attr_decls[i].0;
        let spec_obj = &attr_decls[i].1;
        proof {
            assert(decls_v[i as int] == (attr_decls@[i as int].0@, attr_decls@[i as int].1@));
        }
        let required = match spec_obj.get("required") {
            Some(j) => match j.as_bool() {
                Some(b) => b,
                None => true,
            },
            None => true,
        };
        proof {
            assert(required == attr_required(decls_v[i as int].1));
        }
        let value = match find_payload_value(&resource.payload, name) {
            Some(v) => v,
            None => {
                proof {
                    assert(lookup_obj(payload_v, decls_v[i as int].0) is None);
                }
                if required {
                    proof {
                        assert(!payload_accepts(decls_v, payload_v));
                    }
                    return Err(String::from_str("resource payload lacks a required attribute"));
                }
                proof {
                    assert(match lookup_obj(payload_v, decls_v[i as int].0) {
                        Some(v) => attr_kind_matches(decls_v[i as int].1, v),
                        None => !attr_required(decls_v[i as int].1),
                    });
                }
                i = i + 1;
                continue ;
            },
        };
        proof {
            assert(lookup_obj(payload_v, decls_v[i as int].0) == Some(value@));
        }
        if !value_matches_kind(spec_obj, value) {
            proof {
                assert(!attr_kind_matches(decls_v[i as int].1, value@));
                assert(!payload_accepts(decls_v, payload_v));
            }
            return Err(String::from_str("resource attribute does not match its declared type"));
        }
        let ghost pre = entries_v(attrs@);
        let ghost pre_vec = attrs@;
        let ghost k0 = name@;
        proof {
            lemma_entries_v(pre_vec);
            crate::json::lemma_lookup_obj_push(pre, k0, value@);
        }
        attrs.push((name.clone(), value.duplicate()));
        proof {
            lemma_entries_v(attrs@);
            assert(entries_v(attrs@) =~= pre.push((k0, value@)));
            assert forall|k: Seq<char>| #[trigger] lookup_obj(entries_v(attrs@), k)
                is Some implies lookup_obj(payload_v, k) is Some by {
                if k != k0 {
                    assert(lookup_obj(pre, k) == lookup_obj(entries_v(attrs@), k));
                }
            }
            assert(match lookup_obj(payload_v, decls_v[i as int].0) {
                Some(v) => attr_kind_matches(decls_v[i as int].1, v),
                None => !attr_required(decls_v[i as int].1),
            });
        }
        i = i + 1;
    }
    proof {
        assert(payload_accepts(decls_v, payload_v));
    }
    let parents: Vec<(String, String)> = Vec::new();
    let e = EntityData {
        entity_type: resource.resource_type.clone(),
        id: resource.id.clone(),
        attrs,
        parents,
    };
    proof {
        assert(e@.parents =~= Seq::<(Seq<char>, Seq<char>)>::empty());
    }
    Ok(e)
}

/// The schema declaration of an entity type: for each namespace, the first
/// declared entity type whose qualified name `Ns::Type` matches. Hands back
/// a copy of the declaration.
fn find_entity_decl(schema_json: &Json, wanted: &String) -> (r: Option<Json>)
    ensures
        match r {
            Some(d) => resolved_entity_decl(schema_json@, wanted@) == Some(d@),
            None => resolved_entity_decl(schema_json@, wanted@) is None,
        },
{
    let namespaces = match schema_json {
        Json::Obj(namespaces) => namespaces,
        _ => {
            return None;
        },
    };
    proof {
        lemma_entries_v(namespaces@);
    }
    let ghost ns_v = entries_v(namespaces@);
    let n = namespaces.len();
    let mut i: usize = 0;
    while i < n
        invariant
            0 <= i <= n,
            n == namespaces@.len(),
            ns_v.len() == n,
            schema_json@ is Obj,
            schema_json@->Obj_0 == ns_v,
            forall|a: int|
                0 <= a < n ==> #[trigger] ns_v[a] == (namespaces@[a].0@, namespaces@[a].1@),
            forall|a: int|
                0 <= a < i ==> (match field_of((#[trigger] ns_v[a]).1, "entityTypes"@) {
                    Some(JsonV::Obj(types)) => find_type_in(types, ns_v[a].0, wanted@) is None,
                    _ => true,
                }),
        decreases n - i,
    {
        match namespaces[i].1.get("entityTypes") {
            Some(types_json) => match types_json {
                Json::Obj(types) => {
                    proof {
                        lemma_entries_v(types@);
                    }
                    let ghost types_v = entries_v(types@);
                    let m = types.len();
                    let mut j: usize = 0;
                    while j < m
                        invariant
                            0 <= j <= m,
                            0 <= i < n,
                            n == namespaces@.len(),
                            ns_v.len() == n,
                            schema_json@ is Obj,
                            schema_json@->Obj_0 == ns_v,
                            m == types@.len(),
                            types_v.len() == m,
                            field_of(ns_v[i as int].1, "entityTypes"@) == Some(
                                JsonV::Obj(types_v),
                            ),
                            forall|b: int|
                                0 <= b < m ==> #[trigger] types_v[b] == (
                                    types@[b].0@,
                                    types@[b].1@,
                                ),
                            forall|b: int|
                                0 <= b < j ==> qualified_type_text(
                                    ns_v[i as int].0,
                                    (#[trigger] types_v[b]).0,
                                ) != wanted@,
                            ns_v[i as int].0 == namespaces@[i as int].0@,
                            forall|a: int|
                                0 <= a < i ==> (match field_of(
                                    (#[trigger] ns_v[a]).1,
                                    "entityTypes"@,
                                ) {
                                    Some(JsonV::Obj(tys)) => find_type_in(
                                        tys,
                                        ns_v[a].0,
                                        wanted@,
                                    ) is None,
                                    _ => true,
                                }),
                        decreases m - j,
                    {
                        let mut qualified = namespaces[i].0.clone();
                        qualified.append("::");
                        qualified.append(types[j].0.as_str());
                        proof {
                            assert(qualified@ == qualified_type_text(
                                ns_v[i as int].0,
                                types_v[j as int].0,
                            ));
                        }
                        if qualified == *wanted {
                            proof {
                                lemma_find_type_in_at(types_v, ns_v[i as int].0, wanted@, j as int);
                                lemma_find_entity_decl_at(ns_v, wanted@, i as int);
                                assert(ns_v.skip(i as int)[0] == ns_v[i as int]);
                            }
                            return Some(types[j].1.duplicate());
                        }
                        j = j + 1;
                    }
                    proof {
                        lemma_find_type_in_at(types_v, ns_v[i as int].0, wanted@, m as int);
                    }
                },
                _ => {},
            },
            None => {},
        }
        i = i + 1;
    }
    proof {
        lemma_find_entity_decl_at(ns_v, wanted@, n as int);
    }
    None
}

/// The payload value under `key`, when the payload has it.
fn find_payload_value<'a>(payload: &'a Vec<(String, Json)>, key: &String) -> (r: Option<&'a Json>)
    ensures
        r matches Some(j) ==> lookup_obj(entries_v(payload@), key@) == Some(j@),
        r is None ==> lookup_obj(entries_v(payload@), key@) is None,
{
    entries_get(payload, key)
}

/// The entities one authorization request evaluates against.
pub struct AuthorizeEntitiesData {
    pub workload: Option<EntityData>,
    pub user: Option<EntityData>,
    pub access_token: Option<EntityData>,
    pub id_token: Option<EntityData>,
    pub userinfo_token: Option<EntityData>,
    pub resource: EntityData,
    pub role: Vec<EntityData>,
}

/// The view of an optional entity, as zero or one elements.
pub open spec fn opt_entity(e: Option<EntityData>) -> Seq<EntityV> {
    match e {
        Some(e) => seq![e@],
        None => Seq::empty(),
    }
}

impl AuthorizeEntitiesData {
    /// All entities, resource first, then the principals, the token
    /// entities, and the roles.
    pub open spec fn entity_list(self) -> Seq<EntityV> {
        seq![self.resource@] + opt_entity(self.user) + opt_entity(self.workload) + opt_entity(
            self.access_token,
        ) + opt_entity(self.userinfo_token) + opt_entity(self.id_token) + Seq::new(
            self.role@.len(),
            |i: int| self.role@[i]@,
        )
    }

    /// The JSON array of all entities, in that order.
    pub fn entities_json(&self) -> (r: Json)
        ensures
            r@ == JsonV::Arr(
                Seq::new(self.entity_list().len(), |i: int| entity_json(self.entity_list()[i])),
            ),
    {
        let mut out: Vec<Json> = Vec::new();
        out.push(entity_to_json(&self.resource));
        match &self.user {
            Some(e) => out.push(entity_to_json(e)),
            None => {},
        }
        match &self.workload {
            Some(e) => out.push(entity_to_json(e)),
            None => {},
        }
        match &self.access_token {
            Some(e) => out.push(entity_to_json(e)),
            None => {},
        }
        match &self.userinfo_token {
            Some(e) => out.push(entity_to_json(e)),
            None => {},
        }
        match &self.id_token {
            Some(e) => out.push(entity_to_json(e)),
            None => {},
        }
        let ghost head = out@;
        proof {
            assert(head.len() + self.role@.len() == self.entity_list().len());
            assert forall|k: int| 0 <= k < head.len() implies (#[trigger] head[k])@ == entity_json(
                self.entity_list()[k],
            ) by {}
        }
        let n = self.role.len();
        let mut i: usize = 0;
        while i < n
            invariant
                0 <= i <= n,
                n == self.role@.len(),
                out@.len() == head.len() + i,
                out@.take(head.len() as int) =~= head,
                forall|a: int|
                    0 <= a < i ==> (#[trigger] out@[head.len() + a])@ == entity_json(
                        self.role@[a]@,
                    ),
            decreases n - i,
        {
            out.push(entity_to_json(&self.role[i]));
            i = i + 1;
        }
        let r = Json::Arr(out);
        proof {
            crate::json::lemma_seq_v(out@);
            assert forall|k: int| 0 <= k < out@.len() implies #[trigger] seq_v(out@)[k]
                == entity_json(self.entity_list()[k]) by {
                if k < head.len() {
                    assert(out@[k] == head[k]);
                } else {
                    let a = k - head.len();
                    assert(out@[head.len() + a]@ == entity_json(self.role@[a]@));
                    assert(self.entity_list()[k] == self.role@[a]@);
                }
            }
            assert(seq_v(out@) =~= Seq::new(
                self.entity_list().len(),
                |i: int| entity_json(self.entity_list()[i]),
            ));
            assert(r@ == JsonV::Arr(
                Seq::new(self.entity_list().len(), |i: int| entity_json(self.entity_list()[i])),
            ));
        }
        r
    }
}

/// The claims a decision log projects from an entity: each configured
/// claim the entity carries, with its value, in configuration order.
pub open spec fn project_claims(
    attrs: Seq<(Seq<char>, JsonV)>,
    names: Seq<Seq<char>>,
) -> Seq<(Seq<char>, JsonV)>
    decreases names.len(),
{
    if names.len() == 0 {
        Seq::empty()
    } else {
        (match lookup_obj(attrs, names[0]) {
            Some(v) => seq![(names[0], v)],
            None => Seq::<(Seq<char>, JsonV)>::empty(),
        }) + project_claims(attrs, names.skip(1))
    }
}

proof fn lemma_project_claims_snoc(
    attrs: Seq<(Seq<char>, JsonV)>,
    names: Seq<Seq<char>>,
    name: Seq<char>,
)
    ensures
        project_claims(attrs, names.push(name)) == project_claims(attrs, names) + (match lookup_obj(
            attrs,
            name,
        ) {
            Some(v) => seq![(name, v)],
            None => Seq::<(Seq<char>, JsonV)>::empty(),
        }),
    decreases names.len(),
{
    let tail: Seq<(Seq<char>, JsonV)> = match lookup_obj(attrs, name) {
        Some(v) => seq![(name, v)],
        None => Seq::empty(),
    };
    if names.len() == 0 {
        assert(names.push(name)[0] == name);
        assert(names.push(name).skip(1) =~= Seq::<Seq<char>>::empty());
        assert(project_claims(attrs, names.push(name).skip(1)) =~= Seq::<(Seq<char>, JsonV)>::empty());
        assert(project_claims(attrs, names) =~= Seq::<(Seq<char>, JsonV)>::empty());
        assert(project_claims(attrs, names.push(name)) =~= project_claims(attrs, names) + tail);
    } else {
        lemma_project_claims_snoc(attrs, names.skip(1), name);
        assert(names.push(name)[0] == names[0]);
        assert(names.push(name).skip(1) =~= names.skip(1).push(name));
        assert(project_claims(attrs, names.push(name)) =~= project_claims(attrs, names) + tail);
    }
}

/// Projects the configured claims out of an entity's attributes, for the
/// decision log.
pub fn get_entity_claims(names: &Vec<String>, entity: &EntityData) -> (r: Vec<(String, Json)>)
    ensures
        entries_v(r@) == project_claims(entity@.attrs, names.deep_view()),
{
    let mut out: Vec<(String, Json)> = Vec::new();
    let n = names.len();
    let mut i: usize = 0;
    while i < n
        invariant
            0 <= i <= n,
            n == names@.len(),
            entries_v(out@) =~= project_claims(
                entity@.attrs,
                names.deep_view().take(i as int),
            ),
        decreases n - i,
    {
        proof {
            lemma_project_claims_snoc(
                entity@.attrs,
                names.deep_view().take(i as int),
                names@[i as int]@,
            );
            assert(names.deep_view().take(i as int).push(names@[i as int]@)
                =~= names.deep_view().take(i + 1));
        }
        match entries_get(&entity.attrs, &names[i]) {
            Some(v) => {
                let ghost pre_vec = out@;
                let ghost pre = entries_v(pre_vec);
                out.push((names[i].clone(), v.duplicate()));
                proof {
                    lemma_entries_v(pre_vec);
                    lemma_entries_v(out@);
                    assert(entries_v(out@) =~= pre.push((names@[i as int]@, v@)));
                }
            },
            None => {},
        }
        i = i + 1;
    }
    proof {
        assert(names.deep_view().take(n as int) =~= names.deep_view());
    }
    out
}



/// Whether a declared attribute is required: absent or non-boolean
/// `required` means required.
pub open spec fn attr_required(decl: JsonV) -> bool {
    match field_of(decl, "required"@) {
        Some(JsonV::Bool(b)) => b,
        _ => true,
    }
}

/// Whether a JSON value matches the kind of a declared Cedar attribute
/// type: strings, longs, booleans, sets and records are checked by shape;
/// entity references and extension values pass through.
pub open spec fn attr_kind_matches(decl: JsonV, value: JsonV) -> bool {
    match crate::policy_store::req_str_field(decl, "type"@) {
        Some(k) => if k == "String"@ {
            value is Str
        } else if k == "Long"@ {
            value is Int
        } else if k == "Boolean"@ {
            value is Bool
        } else if k == "Set"@ {
            value is Arr
        } else if k == "Record"@ {
            value is Obj
        } else {
            true
        },
        None => false,
    }
}

/// Whether some declared attribute carries this name.
pub open spec fn declared_in(decls: Seq<(Seq<char>, JsonV)>, k: Seq<char>) -> bool {
    exists|i: int| 0 <= i < decls.len() && (#[trigger] decls[i]).0 == k
}

/// A context object conforms to the declared attributes: every required
/// declared attribute is present with its declared kind, every present one
/// matches its declaration, and nothing undeclared appears.
pub open spec fn context_conforms(
    decls: Seq<(Seq<char>, JsonV)>,
    ctx: Seq<(Seq<char>, JsonV)>,
) -> bool {
    &&& forall|i: int|
        0 <= i < decls.len() ==> (match lookup_obj(ctx, (#[trigger] decls[i]).0) {
            Some(v) => attr_kind_matches(decls[i].1, v),
            None => !attr_required(decls[i].1),
        })
    &&& forall|j: int| 0 <= j < ctx.len() ==> declared_in(decls, (#[trigger] ctx[j]).0)
}

/// The uid text of an action in a namespace.
pub open spec fn action_uid_text(ns: Seq<char>, name: Seq<char>) -> Seq<char> {
    ns + "::Action::\""@ + name + "\""@
}

/// The context attribute declarations an action declaration carries.
pub open spec fn context_attrs_of(a: JsonV) -> Option<JsonV> {
    match field_of(a, "appliesTo"@) {
        Some(applies) => match field_of(applies, "context"@) {
            Some(c) => field_of(c, "attributes"@),
            None => None,
        },
        None => None,
    }
}

/// The first action in this namespace whose uid matches: the search stops
/// there, with whatever context declaration it carries.
pub open spec fn find_action_decl(
    actions: Seq<(Seq<char>, JsonV)>,
    ns: Seq<char>,
    action: Seq<char>,
) -> Option<Option<JsonV>>
    decreases actions.len(),
{
    if actions.len() == 0 {
        None
    } else if action_uid_text(ns, actions[0].0) == action {
        Some(context_attrs_of(actions[0].1))
    } else {
        find_action_decl(actions.skip(1), ns, action)
    }
}

/// The first namespace whose actions declare this uid, with the context
/// declaration found there.
pub open spec fn find_context_decl(
    namespaces: Seq<(Seq<char>, JsonV)>,
    action: Seq<char>,
) -> Option<Option<JsonV>>
    decreases namespaces.len(),
{
    if namespaces.len() == 0 {
        None
    } else {
        match (match field_of(namespaces[0].1, "actions"@) {
            Some(JsonV::Obj(acts)) => find_action_decl(acts, namespaces[0].0, action),
            _ => None,
        }) {
            Some(d) => Some(d),
            None => find_context_decl(namespaces.skip(1), action),
        }
    }
}

/// The context attribute declarations the schema resolves for this action,
/// when the action is declared and carries them.
pub open spec fn resolved_context_decl(schema: JsonV, action: Seq<char>) -> Option<JsonV> {
    match schema {
        JsonV::Obj(namespaces) => match find_context_decl(namespaces, action) {
            Some(d) => d,
            None => None,
        },
        _ => None,
    }
}

/// The schema accepts this context for the action: the context must be an
/// object (or null), and when the schema declares context attributes for
/// the action, the object must conform to them.
pub open spec fn context_acceptable(schema: JsonV, ctx: JsonV, action: Seq<char>) -> bool {
    if ctx is Null {
        true
    } else if !(ctx is Obj) {
        false
    } else {
        match resolved_context_decl(schema, action) {
            Some(d) => match d {
                JsonV::Obj(decls) => context_conforms(decls, ctx->Obj_0),
                _ => true,
            },
            None => true,
        }
    }
}

fn value_matches_kind(declared: &Json, value: &Json) -> (r: bool)
    ensures
        r == attr_kind_matches(declared@, value@),
{
    let kind = match declared.get_str("type") {
        Some(k) => k,
        None => {
            return false;
        },
    };
    if kind == String::from_str("String") {
        matches!(value, Json::Str(_))
    } else if kind == String::from_str("Long") {
        matches!(value, Json::Int(_))
    } else if kind == String::from_str("Boolean") {
        matches!(value, Json::Bool(_))
    } else if kind == String::from_str("Set") {
        matches!(value, Json::Arr(_))
    } else if kind == String::from_str("Record") {
        matches!(value, Json::Obj(_))
    } else {
        true
    }
}

/// Checks the request context against the schema's context declaration for
/// the action, accepting exactly when the schema does.
pub(crate) fn check_context(context: &Json, schema_json: &Json, action: &String) -> (r: Result<
    (),
    String,
>)
    ensures
        r is Ok <==> context_acceptable(schema_json@, context@, action@),
{
    let context_entries = match context {
        Json::Obj(entries) => entries,
        Json::Null => {
            return Ok(());
        },
        _ => {
            return Err(String::from_str("the context is not a JSON object"));
        },
    };
    proof {
        lemma_entries_v(context_entries@);
    }
    let ghost ctx_v = entries_v(context_entries@);
    let declared = match find_action_context_decl(schema_json, action) {
        Some(d) => d,
        None => {
            return Ok(());
        },
    };
    let decls = match &declared {
        Json::Obj(decls) => decls,
        _ => {
            return Ok(());
        },
    };
    proof {
        lemma_entries_v(decls@);
    }
    let ghost decls_v = entries_v(decls@);
    // every required declared attribute must be present, with its kind
    let n = decls.len();
    let mut i: usize = 0;
    while i < n
        invariant
            0 <= i <= n,
            n == decls@.len(),
            decls_v.len() == n,
            context@ is Obj,
            context@->Obj_0 == ctx_v,
            ctx_v == entries_v(context_entries@),
            resolved_context_decl(schema_json@, action@) == Some(declared@),
            declared@ is Obj,
            declared@->Obj_0 == decls_v,
            decls_v == entries_v(decls@),
            forall|a: int| 0 <= a < n ==> #[trigger] decls_v[a] == (decls@[a].0@, decls@[a].1@),
            forall|a: int|
                0 <= a < i ==> (match lookup_obj(ctx_v, (#[trigger] decls_v[a]).0) {
                    Some(v) => attr_kind_matches(decls_v[a].1, v),
                    None => !attr_required(decls_v[a].1),
                }),
        decreases n - i,
    {
        let name = &decls[i].0;
        let spec_obj = &decls[i].1;
        proof {
            assert(decls_v[i as int] == (decls@[i as int].0@, decls@[i as int].1@));
        }
        let required = match spec_obj.get("required") {
            Some(j) => match j.as_bool() {
                Some(b) => b,
                None => true,
            },
            None => true,
        };
        proof {
            assert(required == attr_required(decls_v[i as int].1));
        }
        match entries_get(context_entries, name) {
            Some(value) => {
                proof {
                    assert(lookup_obj(ctx_v, decls_v[i as int].0) == Some(value@));
                }
                if !value_matches_kind(spec_obj, value) {
                    proof {
                        assert(!attr_kind_matches(decls_v[i as int].1, value@));
                        assert(!context_conforms(decls_v, ctx_v));
                    }
                    return Err(
                        String::from_str("a context attribute does not match its declared type"),
                    );
                }
                proof {
                    assert(match lookup_obj(ctx_v, decls_v[i as int].0) {
                        Some(v) => attr_kind_matches(decls_v[i as int].1, v),
                        None => !attr_required(decls_v[i as int].1),
                    });
                }
            },
            None => {
                proof {
                    assert(lookup_obj(ctx_v, decls_v[i as int].0) is None);
                }
                if required {
                    proof {
                        assert(!context_conforms(decls_v, ctx_v));
                    }
                    return Err(String::from_str("the context lacks a required attribute"));
                }
                proof {
                    assert(match lookup_obj(ctx_v, decls_v[i as int].0) {
                        Some(v) => attr_kind_matches(decls_v[i as int].1, v),
                        None => !attr_required(decls_v[i as int].1),
                    });
                }
            },
        }
        i = i + 1;
    }
    // every present attribute must be declared
    let m = context_entries.len();
    let mut j: usize = 0;
    while j < m
        invariant
            0 <= j <= m,
            m == context_entries@.len(),
            ctx_v.len() == m,
            context@ is Obj,
            context@->Obj_0 == ctx_v,
            ctx_v == entries_v(context_entries@),
            resolved_context_decl(schema_json@, action@) == Some(declared@),
            declared@ is Obj,
            declared@->Obj_0 == decls_v,
            decls_v == entries_v(decls@),
            decls_v.len() == decls@.len(),
            forall|a: int|
                0 <= a < decls@.len() ==> #[trigger] decls_v[a] == (decls@[a].0@, decls@[a].1@),
            forall|a: int|
                0 <= a < m ==> #[trigger] ctx_v[a] == (
                    context_entries@[a].0@,
                    context_entries@[a].1@,
                ),
            forall|a: int|
                0 <= a < decls_v.len() ==> (match lookup_obj(
                    ctx_v,
                    (#[trigger] decls_v[a]).0,
                ) {
                    Some(v) => attr_kind_matches(decls_v[a].1, v),
                    None => !attr_required(decls_v[a].1),
                }),
            forall|b: int| 0 <= b < j ==> declared_in(decls_v, (#[trigger] ctx_v[b]).0),
        decreases m - j,
    {
        let mut declared_here = false;
        let k = decls.len();
        let mut a: usize = 0;
        while a < k
            invariant
                0 <= a <= k,
                k == decls@.len(),
                decls_v.len() == k,
                0 <= j < m,
                m == context_entries@.len(),
                ctx_v.len() == m,
                forall|x: int|
                    0 <= x < k ==> #[trigger] decls_v[x] == (decls@[x].0@, decls@[x].1@),
                forall|x: int|
                    0 <= x < m ==> #[trigger] ctx_v[x] == (
                        context_entries@[x].0@,
                        context_entries@[x].1@,
                    ),
                declared_here ==> declared_in(decls_v, ctx_v[j as int].0),
                !declared_here ==> forall|x: int|
                    0 <= x < a ==> (#[trigger] decls_v[x]).0 != ctx_v[j as int].0,
            decreases k - a,
        {
            if decls[a].0 == context_entries[j].0 {
                declared_here = true;
                proof {
                    assert(decls_v[a as int].0 == ctx_v[j as int].0);
                }
            }
            a = a + 1;
        }
        if !declared_here {
            proof {
                assert(!declared_in(decls_v, ctx_v[j as int].0));
                assert(!context_conforms(decls_v, ctx_v));
            }
            return Err(String::from_str("the context carries an undeclared attribute"));
        }
        j = j + 1;
    }
    proof {
        assert(context_conforms(decls_v, ctx_v));
    }
    Ok(())
}

proof fn lemma_find_action_decl_at(
    actions: Seq<(Seq<char>, JsonV)>,
    ns: Seq<char>,
    action: Seq<char>,
    j: int,
)
    requires
        0 <= j <= actions.len(),
        forall|b: int| 0 <= b < j ==> action_uid_text(ns, (#[trigger] actions[b]).0) != action,
        j < actions.len() ==> action_uid_text(ns, actions[j].0) == action,
    ensures
        j == actions.len() ==> find_action_decl(actions, ns, action) is None,
        j < actions.len() ==> find_action_decl(actions, ns, action) == Some(
            context_attrs_of(actions[j].1),
        ),
    decreases actions.len(),
{
    if actions.len() > 0 && action_uid_text(ns, actions[0].0) != action {
        assert(j > 0);
        lemma_find_action_decl_at(actions.skip(1), ns, action, j - 1);
        assert forall|b: int| 0 <= b < j - 1 implies action_uid_text(
            ns,
            (#[trigger] actions.skip(1)[b]).0,
        ) != action by {
            assert(actions.skip(1)[b] == actions[b + 1]);
        }
        if j < actions.len() {
            assert(actions.skip(1)[j - 1] == actions[j]);
        }
    }
}

proof fn lemma_find_context_decl_at(namespaces: Seq<(Seq<char>, JsonV)>, action: Seq<char>, i: int)
    requires
        0 <= i <= namespaces.len(),
        forall|a: int|
            0 <= a < i ==> (match field_of((#[trigger] namespaces[a]).1, "actions"@) {
                Some(JsonV::Obj(acts)) => find_action_decl(acts, namespaces[a].0, action) is None,
                _ => true,
            }),
    ensures
        i == namespaces.len() ==> find_context_decl(namespaces, action) is None,
        i < namespaces.len() ==> find_context_decl(namespaces, action) == find_context_decl(
            namespaces.skip(i),
            action,
        ),
    decreases i,
{
    if i > 0 {
        lemma_find_context_decl_at(namespaces.skip(1), action, i - 1);
        assert forall|a: int|
            0 <= a < i - 1 implies (match field_of(
            (#[trigger] namespaces.skip(1)[a]).1,
            "actions"@,
        ) {
            Some(JsonV::Obj(acts)) => find_action_decl(
                acts,
                namespaces.skip(1)[a].0,
                action,
            ) is None,
            _ => true,
        }) by {
            assert(namespaces.skip(1)[a] == namespaces[a + 1]);
        }
        assert(namespaces.skip(1).skip(i - 1) =~= namespaces.skip(i));
    } else {
        assert(namespaces.skip(0) =~= namespaces);
    }
}

/// The schema's context attribute declarations for an action: the first
/// namespace and action whose qualified uid matches. Hands back a copy of
/// the attributes object, or nothing when the action is undeclared or
/// carries no context declaration.
fn find_action_context_decl(schema_json: &Json, action: &String) -> (r: Option<Json>)
    ensures
        match r {
            Some(d) => resolved_context_decl(schema_json@, action@) == Some(d@),
            None => resolved_context_decl(schema_json@, action@) is None,
        },
{
    let namespaces = match schema_json {
        Json::Obj(namespaces) => namespaces,
        _ => {
            return None;
        },
    };
    proof {
        lemma_entries_v(namespaces@);
    }
    let ghost ns_v = entries_v(namespaces@);
    let n = namespaces.len();
    let mut i: usize = 0;
    while i < n
        invariant
            0 <= i <= n,
            n == namespaces@.len(),
            ns_v.len() == n,
            schema_json@ is Obj,
            schema_json@->Obj_0 == ns_v,
            forall|a: int|
                0 <= a < n ==> #[trigger] ns_v[a] == (namespaces@[a].0@, namespaces@[a].1@),
            forall|a: int|
                0 <= a < i ==> (match field_of((#[trigger] ns_v[a]).1, "actions"@) {
                    Some(JsonV::Obj(acts)) => find_action_decl(acts, ns_v[a].0, action@) is None,
                    _ => true,
                }),
        decreases n - i,
    {
        match namespaces[i].1.get("actions") {
            Some(actions_json) => match actions_json {
                Json::Obj(actions) => {
                    proof {
                        lemma_entries_v(actions@);
                    }
                    let ghost acts_v = entries_v(actions@);
                    let m = actions.len();
                    let mut j: usize = 0;
                    while j < m
                        invariant
                            0 <= j <= m,
                            0 <= i < n,
                            n == namespaces@.len(),
                            ns_v.len() == n,
                            schema_json@ is Obj,
                            schema_json@->Obj_0 == ns_v,
                            m == actions@.len(),
                            acts_v.len() == m,
                            field_of(ns_v[i as int].1, "actions"@) == Some(JsonV::Obj(acts_v)),
                            forall|b: int|
                                0 <= b < m ==> #[trigger] acts_v[b] == (
                                    actions@[b].0@,
                                    actions@[b].1@,
                                ),
                            forall|b: int|
                                0 <= b < j ==> action_uid_text(
                                    ns_v[i as int].0,
                                    (#[trigger] acts_v[b]).0,
                                ) != action@,
                            ns_v[i as int].0 == namespaces@[i as int].0@,
                            forall|a: int|
                                0 <= a < i ==> (match field_of(
                                    (#[trigger] ns_v[a]).1,
                                    "actions"@,
                                ) {
                                    Some(JsonV::Obj(acts)) => find_action_decl(
                                        acts,
                                        ns_v[a].0,
                                        action@,
                                    ) is None,
                                    _ => true,
                                }),
                        decreases m - j,
                    {
                        let mut uid = namespaces[i].0.clone();
                        uid.append("::Action::\"");
                        uid.append(actions[j].0.as_str());
                        uid.append("\"");
                        proof {
                            assert(uid@ == action_uid_text(ns_v[i as int].0, acts_v[j as int].0));
                        }
                        if uid == *action {
                            proof {
                                lemma_find_action_decl_at(
                                    acts_v,
                                    ns_v[i as int].0,
                                    action@,
                                    j as int,
                                );
                                lemma_find_context_decl_at(ns_v, action@, i as int);
                                assert(ns_v.skip(i as int)[0] == ns_v[i as int]);
                            }
                            match actions[j].1.get("appliesTo") {
                                Some(applies) => match applies.get("context") {
                                    Some(ctx) => match ctx.get("attributes") {
                                        Some(attrs) => {
                                            return Some(attrs.duplicate());
                                        },
                                        None => {
                                            return None;
                                        },
                                    },
                                    None => {
                                        return None;
                                    },
                                },
                                None => {
                                    return None;
                                },
                            }
                        }
                        j = j + 1;
                    }
                    proof {
                        lemma_find_action_decl_at(acts_v, ns_v[i as int].0, action@, m as int);
                    }
                },
                _ => {},
            },
            None => {},
        }
        i = i + 1;
    }
    proof {
        lemma_find_context_decl_at(ns_v, action@, n as int);
    }
    None
}


} // verus!
