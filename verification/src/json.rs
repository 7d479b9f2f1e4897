//! JSON documents as the translation files hold them, and navigation by
//! dotted key paths (`app.title`).
use vstd::prelude::*;
use crate::text::{chars_eq, chars_of, split, split_exec, string_of, views};

verus! {

/// A JSON value. Object members keep the order in which they were read.
pub enum JsonValue {
    Null,
    Bool(bool),
    /// A number, by its JSON text.
    Number(String),
    Str(String),
    Array(Vec<JsonValue>),
    Object(Vec<(String, JsonValue)>),
}

/// The mathematical model of a JSON value.
pub enum JsonView {
    Null,
    Bool(bool),
    Number(Seq<char>),
    Str(Seq<char>),
    Array(Seq<JsonView>),
    Object(Seq<(Seq<char>, JsonView)>),
}

impl JsonValue {
    /// The model of this value.
    pub open spec fn model(self) -> JsonView
        decreases self,
    {
        match self {
            JsonValue::Null => JsonView::Null,
            JsonValue::Bool(b) => JsonView::Bool(b),
            JsonValue::Number(n) => JsonView::Number(n@),
            JsonValue::Str(s) => JsonView::Str(s@),
            JsonValue::Array(a) => JsonView::Array(array_model(a@)),
            JsonValue::Object(o) => JsonView::Object(members_model(o@)),
        }
    }
}

/// The models of the elements of an array.
pub open spec fn array_model(a: Seq<JsonValue>) -> Seq<JsonView>
    decreases a,
{
    if a.len() == 0 {
        seq![]
    } else {
        seq![a[0].model()] + array_model(a.subrange(1, a.len() as int))
    }
}

/// The models of the members of an object.
pub open spec fn members_model(o: Seq<(String, JsonValue)>) -> Seq<(Seq<char>, JsonView)>
    decreases o,
{
    if o.len() == 0 {
        seq![]
    } else {
        seq![(o[0].0@, o[0].1.model())] + members_model(o.subrange(1, o.len() as int))
    }
}

/// The model of the members keeps their number and models each in place.
pub proof fn lemma_members_model(o: Seq<(String, JsonValue)>)
    ensures
        members_model(o).len() == o.len(),
        forall|i: int|
            0 <= i < o.len() ==> #[trigger] members_model(o)[i] == (o[i].0@, o[i].1.model()),
    decreases o.len(),
{
    if o.len() > 0 {
        let rest = o.subrange(1, o.len() as int);
        lemma_members_model(rest);
        assert forall|i: int| 0 <= i < o.len() implies #[trigger] members_model(o)[i] == (
            o[i].0@,
            o[i].1.model(),
        ) by {
            if i > 0 {
                assert(rest[i - 1] == o[i]);
            }
        }
    }
}

/// The model of the elements keeps their number and models each in place.
pub proof fn lemma_array_model(a: Seq<JsonValue>)
    ensures
        array_model(a).len() == a.len(),
        forall|i: int| 0 <= i < a.len() ==> #[trigger] array_model(a)[i] == a[i].model(),
    decreases a.len(),
{
    if a.len() > 0 {
        let rest = a.subrange(1, a.len() as int);
        lemma_array_model(rest);
        assert forall|i: int| 0 <= i < a.len() implies #[trigger] array_model(a)[i]
            == a[i].model() by {
            if i > 0 {
                assert(rest[i - 1] == a[i]);
            }
        }
    }
}

// ---------------------------------------------------------------------------
// Objects as key-value lists
// ---------------------------------------------------------------------------

/// Index of the first member with key `k`, or -1.
pub open spec fn key_index(es: Seq<(Seq<char>, JsonView)>, k: Seq<char>) -> int
    decreases es.len(),
{
    if es.len() == 0 {
        -1
    } else if es[0].0 == k {
        0
    } else {
        let r = key_index(es.drop_first(), k);
        if r < 0 {
            -1
        } else {
            r + 1
        }
    }
}

/// The value of the member with key `k` (`Map::get`).
pub open spec fn obj_get(es: Seq<(Seq<char>, JsonView)>, k: Seq<char>) -> Option<JsonView> {
    let i = key_index(es, k);
    if i >= 0 {
        Some(es[i].1)
    } else {
        None
    }
}

/// The members after setting key `k` to `val` (`Map::insert`): the value of
/// an existing member is replaced, else the member is added at the end.
pub open spec fn obj_put(es: Seq<(Seq<char>, JsonView)>, k: Seq<char>, val: JsonView) -> Seq<
    (Seq<char>, JsonView),
> {
    let i = key_index(es, k);
    if i >= 0 {
        es.update(i, (k, val))
    } else {
        es.push((k, val))
    }
}

/// `key_index` is the first index holding the key, or -1 when none does.
pub proof fn lemma_key_index(es: Seq<(Seq<char>, JsonView)>, k: Seq<char>)
    ensures
        -1 <= key_index(es, k) < es.len(),
        key_index(es, k) >= 0 ==> es[key_index(es, k)].0 == k,
        forall|j: int|
            0 <= j < es.len() && (key_index(es, k) < 0 || j < key_index(es, k)) ==> es[j].0 != k,
    decreases es.len(),
{
    if es.len() > 0 && es[0].0 != k {
        lemma_key_index(es.drop_first(), k);
        assert forall|j: int|
            0 <= j < es.len() && (key_index(es, k) < 0 || j < key_index(es, k)) implies es[j].0
            != k by {
            if j > 0 {
                assert(es.drop_first()[j - 1] == es[j]);
            }
        }
    }
}

/// A first index holding the key, with none before it, is `key_index`.
pub proof fn lemma_key_index_unique(es: Seq<(Seq<char>, JsonView)>, k: Seq<char>, i: int)
    requires
        -1 <= i < es.len(),
        i >= 0 ==> es[i].0 == k,
        forall|j: int| 0 <= j < es.len() && (i < 0 || j < i) ==> es[j].0 != k,
    ensures
        key_index(es, k) == i,
{
    lemma_key_index(es, k);
}

/// Reading a key just put gives the value put.
pub proof fn lemma_obj_get_put(es: Seq<(Seq<char>, JsonView)>, k: Seq<char>, val: JsonView)
    ensures
        obj_get(obj_put(es, k, val), k) == Some(val),
{
    lemma_key_index(es, k);
    let i = key_index(es, k);
    let es2 = obj_put(es, k, val);
    if i >= 0 {
        lemma_key_index_unique(es2, k, i);
    } else {
        lemma_key_index_unique(es2, k, es.len() as int);
    }
}

/// Putting a key leaves every other key's value as it was.
pub proof fn lemma_obj_get_put_other(
    es: Seq<(Seq<char>, JsonView)>,
    k: Seq<char>,
    val: JsonView,
    other: Seq<char>,
)
    requires
        other != k,
    ensures
        obj_get(obj_put(es, k, val), other) == obj_get(es, other),
{
    lemma_key_index(es, k);
    lemma_key_index(es, other);
    let es2 = obj_put(es, k, val);
    lemma_key_index_unique(es2, other, key_index(es, other));
}

// ---------------------------------------------------------------------------
// Dotted paths
// ---------------------------------------------------------------------------

/// The keys of a dotted path: `path.split('.')`.
pub open spec fn path_keys(path: Seq<char>) -> Seq<Seq<char>> {
    split(path, seq!['.'])
}

/// The value reached from `v` through the object keys `keys`, if any.
pub open spec fn get_path(v: JsonView, keys: Seq<Seq<char>>) -> Option<JsonView>
    decreases keys.len(),
{
    if keys.len() == 0 {
        Some(v)
    } else {
        match v {
            JsonView::Object(es) => match obj_get(es, keys[0]) {
                Some(c) => get_path(c, keys.drop_first()),
                None => None,
            },
            _ => None,
        }
    }
}

/// Setting the value at the object keys `keys` to `x`, as the translation
/// files are filled: on the way down, a value that is not an object becomes
/// an empty object and a missing member is added as an empty object; the
/// value is set when the last container is an object. Returns the new value
/// and whether it was set; the changes on the way down stay either way.
pub open spec fn set_path(v: JsonView, keys: Seq<Seq<char>>, x: JsonView) -> (JsonView, bool)
    decreases keys.len(),
{
    if keys.len() == 0 {
        (v, false)
    } else if keys.len() == 1 {
        match v {
            JsonView::Object(es) => (JsonView::Object(obj_put(es, keys[0], x)), true),
            _ => (v, false),
        }
    } else {
        let es = match v {
            JsonView::Object(es) => es,
            _ => seq![],
        };
        let child = match obj_get(es, keys[0]) {
            Some(c) => c,
            None => JsonView::Object(seq![]),
        };
        let (c2, ok) = set_path(child, keys.drop_first(), x);
        (JsonView::Object(obj_put(es, keys[0], c2)), ok)
    }
}

/// Whether `v` is a string.
pub open spec fn is_str(v: JsonView) -> bool {
    v is Str
}

/// Read after write: once a value is set at a path, reading the path gives
/// that value.
pub proof fn lemma_get_after_set(v: JsonView, keys: Seq<Seq<char>>, x: JsonView)
    ensures
        set_path(v, keys, x).1 ==> get_path(set_path(v, keys, x).0, keys) == Some(x),
    decreases keys.len(),
{
    if keys.len() == 1 {
        if let JsonView::Object(es) = v {
            lemma_obj_get_put(es, keys[0], x);
            assert(keys.drop_first().len() == 0);
            assert(set_path(v, keys, x).0 == JsonView::Object(obj_put(es, keys[0], x)));
            assert(get_path(x, keys.drop_first()) == Some(x));
            assert(get_path(JsonView::Object(obj_put(es, keys[0], x)), keys) == Some(x));
        }
    } else if keys.len() > 1 {
        let es = match v {
            JsonView::Object(es) => es,
            _ => seq![],
        };
        let child = match obj_get(es, keys[0]) {
            Some(c) => c,
            None => JsonView::Object(seq![]),
        };
        lemma_get_after_set(child, keys.drop_first(), x);
        let c2 = set_path(child, keys.drop_first(), x).0;
        let ok = set_path(child, keys.drop_first(), x).1;
        lemma_obj_get_put(es, keys[0], c2);
        assert(set_path(v, keys, x) == (JsonView::Object(obj_put(es, keys[0], c2)), ok));
        assert(get_path(JsonView::Object(obj_put(es, keys[0], c2)), keys) == get_path(
            c2,
            keys.drop_first(),
        ));
    }
}

// ---------------------------------------------------------------------------
// Executable navigation
// ---------------------------------------------------------------------------

/// Index of the first member with key `key`.
pub fn find_member(entries: &Vec<(String, JsonValue)>, key: &Vec<char>) -> (r: Option<usize>)
    ensures
        match r {
            Some(i) => key_index(members_model(entries@), key@) == i as int && i < entries.len(),
            None => key_index(members_model(entries@), key@) == -1,
        },
{
    proof {
        lemma_members_model(entries@);
    }
    let ghost es = members_model(entries@);
    let mut i: usize = 0;
    while i < entries.len()
        invariant
            i <= entries.len(),
            es == members_model(entries@),
            es.len() == entries.len(),
            forall|j: int| 0 <= j < i ==> es[j].0 != key@,
        decreases entries.len() - i,
    {
        proof {
            lemma_members_model(entries@);
        }
        let k = chars_of(entries[i].0.as_str());
        if chars_eq(&k, key) {
            proof {
                lemma_key_index_unique(es, key@, i as int);
            }
            return Some(i);
        }
        i += 1;
    }
    proof {
        lemma_key_index_unique(es, key@, -1);
    }
    None
}

/// The keys of a dotted path.
pub fn path_keys_exec(path: &str) -> (r: Vec<Vec<char>>)
    ensures
        views(r@) == path_keys(path@),
        r@.len() >= 1,
{
    let dot: Vec<char> = vec!['.'];
    assert(dot@ =~= seq!['.']);
    let r = split_exec(&chars_of(path), &dot);
    proof {
        crate::text::lemma_split_nonempty(path@, seq!['.']);
    }
    r
}

/// The value at a dotted path (`app.title`): each key is looked up in the
/// object reached so far.
pub fn get_nested_value<'a>(value: &'a JsonValue, path: &str) -> (r: Option<&'a JsonValue>)
    ensures
        match r {
            Some(x) => get_path(value.model(), path_keys(path@)) == Some(x.model()),
            None => get_path(value.model(), path_keys(path@)) is None,
        },
{
    let keys = path_keys_exec(path);
    let ghost ks = views(keys@);
    let mut cur: &JsonValue = value;
    let mut i: usize = 0;
    assert(ks.skip(0) =~= ks);
    while i < keys.len()
        invariant
            i <= keys.len(),
            ks == views(keys@),
            ks == path_keys(path@),
            ks.len() == keys.len(),
            get_path(value.model(), ks) == get_path(cur.model(), ks.skip(i as int)),
        decreases keys.len() - i,
    {
        let ghost rest = ks.skip(i as int);
        assert(rest[0] == keys@[i as int]@);
        assert(rest.drop_first() =~= ks.skip(i + 1));
        match cur {
            JsonValue::Object(entries) => {
                proof {
                    lemma_members_model(entries@);
                }
                assert(cur.model() == JsonView::Object(members_model(entries@)));
                match find_member(entries, &keys[i]) {
                    Some(k) => {
                        cur = &entries[k].1;
                    },
                    None => {
                        assert(get_path(value.model(), ks) is None);
                        return None;
                    },
                }
            },
            _ => {
                assert(!(cur.model() is Object));
                return None;
            },
        }
        i += 1;
    }
    assert(ks.skip(i as int).len() == 0);
    Some(cur)
}

/// The model of members after replacing one member's value.
proof fn lemma_members_model_update(
    old: Seq<(String, JsonValue)>,
    new: Seq<(String, JsonValue)>,
    k: int,
    key: Seq<char>,
    val: JsonView,
)
    requires
        0 <= k < old.len(),
        new.len() == old.len(),
        new[k].0@ == key,
        new[k].1.model() == val,
        forall|j: int| 0 <= j < old.len() && j != k ==> new[j] == old[j],
    ensures
        members_model(new) == members_model(old).update(k, (key, val)),
{
    lemma_members_model(old);
    lemma_members_model(new);
    assert(members_model(new) =~= members_model(old).update(k, (key, val)));
}

/// The model of members after adding one at the end.
proof fn lemma_members_model_push(old: Seq<(String, JsonValue)>, e: (String, JsonValue))
    ensures
        members_model(old.push(e)) == members_model(old).push((e.0@, e.1.model())),
{
    lemma_members_model(old);
    lemma_members_model(old.push(e));
    assert(members_model(old.push(e)) =~= members_model(old).push((e.0@, e.1.model())));
}

/// Sets the member with key `key` to `x` (`Map::insert`).
fn put_member(entries: &mut Vec<(String, JsonValue)>, key: &Vec<char>, x: JsonValue)
    ensures
        members_model(final(entries)@) == obj_put(members_model(old(entries)@), key@, x.model()),
{
    proof {
        lemma_members_model(old(entries)@);
    }
    match find_member(entries, key) {
        Some(k) => {
            let ghost before = entries@;
            let (name, _old_value) = entries.remove(k);
            entries.insert(k, (name, x));
            proof {
                lemma_key_index(members_model(before), key@);
                lemma_members_model_update(before, entries@, k as int, key@, x.model());
            }
        },
        None => {
            let ghost before = entries@;
            let name = string_of(key);
            entries.push((name, x));
            proof {
                lemma_members_model_push(before, (name, x));
            }
        },
    }
}

/// Sets the value at the keys `keys[i..]` below `v` (see `set_path`).
fn set_in(v: JsonValue, keys: &Vec<Vec<char>>, i: usize, x: JsonValue) -> (r: (JsonValue, bool))
    requires
        i < keys.len(),
    ensures
        (r.0.model(), r.1) == set_path(v.model(), views(keys@).skip(i as int), x.model()),
    decreases keys.len() - i,
{
    let ghost ks = views(keys@).skip(i as int);
    assert(ks[0] == keys@[i as int]@);
    assert(ks.drop_first() =~= views(keys@).skip(i + 1));
    if i + 1 == keys.len() {
        match v {
            JsonValue::Object(mut entries) => {
                put_member(&mut entries, &keys[i], x);
                (JsonValue::Object(entries), true)
            },
            other => (other, false),
        }
    } else {
        let mut entries = match v {
            JsonValue::Object(e) => e,
            _ => Vec::new(),
        };
        let ghost es = members_model(entries@);
        proof {
            lemma_members_model(entries@);
            assert(members_model(Seq::<(String, JsonValue)>::empty()) =~= seq![]);
        }
        match find_member(&entries, &keys[i]) {
            Some(k) => {
                let ghost before = entries@;
                let (name, child) = entries.remove(k);
                proof {
                    lemma_key_index(es, keys@[i as int]@);
                }
                assert(obj_get(es, ks[0]) == Some(child.model()));
                let (c2, ok) = set_in(child, keys, i + 1, x);
                entries.insert(k, (name, c2));
                proof {
                    lemma_members_model_update(before, entries@, k as int, keys@[i as int]@, c2.model());
                }
                (JsonValue::Object(entries), ok)
            },
            None => {
                let ghost before = entries@;
                let empty: Vec<(String, JsonValue)> = Vec::new();
                let fresh = JsonValue::Object(empty);
                assert(fresh.model() == JsonView::Object(seq![])) by {
                    assert(members_model(empty@) =~= seq![]);
                }
                let (c2, ok) = set_in(fresh, keys, i + 1, x);
                let name = string_of(&keys[i]);
                entries.push((name, c2));
                proof {
                    lemma_members_model_push(before, (name, c2));
                }
                (JsonValue::Object(entries), ok)
            },
        }
    }
}

/// Why a value could not be set at a path.
#[derive(Debug, Clone, Copy, PartialEq, Eq)]
pub enum SetPathError {
    /// The value that should hold the last key is not an object.
    NotAnObject,
}

/// Sets the value at a dotted path (see `set_path`): intermediate values
/// that are not objects become empty objects, missing members are added as
/// empty objects, and the last key is set when its container is an object.
pub fn set_nested_value(value: &mut JsonValue, path: &str, new_value: JsonValue) -> (r: Result<
    (),
    SetPathError,
>)
    ensures
        final(value).model() == set_path(old(value).model(), path_keys(path@), new_value.model()).0,
        r is Ok == set_path(old(value).model(), path_keys(path@), new_value.model()).1,
{
    let keys = path_keys_exec(path);
    let mut current = JsonValue::Null;
    core::mem::swap(&mut current, value);
    assert(views(keys@).skip(0) =~= views(keys@));
    let (updated, ok) = set_in(current, &keys, 0, new_value);
    *value = updated;
    if ok {
        Ok(())
    } else {
        Err(SetPathError::NotAnObject)
    }
}

/// Read after write at a dotted path: after `set_nested_value` succeeds,
/// `get_nested_value` at the same path finds the value that was set.
pub proof fn lemma_get_nested_after_set(v: JsonView, path: Seq<char>, x: JsonView)
    ensures
        set_path(v, path_keys(path), x).1 ==> get_path(
            set_path(v, path_keys(path), x).0,
            path_keys(path),
        ) == Some(x),
{
    lemma_get_after_set(v, path_keys(path), x);
}


/// The value of member `k` of an object (`Value::get` with a key): `None`
/// for a value that is not an object or has no such member.
pub open spec fn json_member(v: JsonView, k: Seq<char>) -> Option<JsonView> {
    match v {
        JsonView::Object(es) => obj_get(es, k),
        _ => None,
    }
}

/// The value of member `key` of an object.
pub fn member<'a>(value: &'a JsonValue, key: &str) -> (r: Option<&'a JsonValue>)
    ensures
        match r {
            Some(x) => json_member(value.model(), key@) == Some(x.model()),
            None => json_member(value.model(), key@) is None,
        },
{
    match value {
        JsonValue::Object(entries) => {
            proof {
                lemma_members_model(entries@);
            }
            match find_member(entries, &chars_of(key)) {
                Some(i) => Some(&entries[i].1),
                None => None,
            }
        },
        _ => None,
    }
}

/// The keys of an object's members, in order (none for another value).
pub open spec fn member_keys(v: JsonView) -> Seq<Seq<char>> {
    match v {
        JsonView::Object(es) => es.map_values(|e: (Seq<char>, JsonView)| e.0),
        _ => seq![],
    }
}

/// The keys of an object's members, in order.
pub fn keys_of(value: &JsonValue) -> (r: Vec<String>)
    ensures
        crate::text::string_views(r@) == member_keys(value.model()),
{
    let mut r: Vec<String> = Vec::new();
    match value {
        JsonValue::Object(entries) => {
            proof {
                lemma_members_model(entries@);
            }
            let ghost es = members_model(entries@);
            let mut i: usize = 0;
            while i < entries.len()
                invariant
                    i <= entries.len(),
                    es == members_model(entries@),
                    es.len() == entries.len(),
                    forall|j: int| 0 <= j < entries.len() ==> #[trigger] es[j] == (entries@[j].0@, entries@[j].1.model()),
                    crate::text::string_views(r@) == es.take(i as int).map_values(
                        |e: (Seq<char>, JsonView)| e.0,
                    ),
                decreases entries.len() - i,
            {
                let ghost before = crate::text::string_views(r@);
                r.push(entries[i].0.clone());
                assert(es[i as int] == (entries@[i as int].0@, entries@[i as int].1.model()));
                assert(crate::text::string_views(r@) =~= before.push(entries@[i as int].0@));
                assert(es.take(i + 1).map_values(|e: (Seq<char>, JsonView)| e.0) =~= es.take(
                    i as int,
                ).map_values(|e: (Seq<char>, JsonView)| e.0).push(es[i as int].0));
                assert(crate::text::string_views(r@) =~= es.take(i + 1).map_values(
                    |e: (Seq<char>, JsonView)| e.0,
                ));
                i += 1;
            }
            assert(es.take(i as int) =~= es);
        },
        _ => {
            assert(crate::text::string_views(r@) =~= seq![]);
        },
    }
    r
}

} // verus!
