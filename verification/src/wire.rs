//! Helpers for reading fields out of decoded JSON objects.
//!
//! Message decoding is lenient the way the wire peers are: an object may
//! carry members in any order and may carry members this library does not
//! know; a member is found by its name, first occurrence winning.

use crate::json::{dv_fields, lemma_dv_fields, lemma_dv_fields_push, Json, JsonV};
use vstd::prelude::*;

verus! {

/// The value of the first member with the given name, if any.
pub open spec fn lookup(o: Seq<(Seq<char>, JsonV)>, name: Seq<char>) -> Option<JsonV>
    decreases o.len(),
{
    if o.len() == 0 {
        None
    } else if o[0].0 == name {
        Some(o[0].1)
    } else {
        lookup(o.drop_first(), name)
    }
}

/// The member with the given name of an object tree; `None` on any other
/// tree or when the member is absent.
pub open spec fn field(j: JsonV, name: Seq<char>) -> Option<JsonV> {
    match j {
        JsonV::Obj(o) => lookup(o, name),
        _ => None,
    }
}

/// A member that is absent or null stands for "no value".
pub open spec fn field_absent(j: JsonV, name: Seq<char>) -> bool {
    field(j, name) is None || field(j, name) == Some(JsonV::Null)
}

/// String equality by characters.
pub fn str_eq(a: &str, b: &str) -> (r: bool)
    ensures
        r == (a@ == b@),
{
    let na = a.unicode_len();
    let nb = b.unicode_len();
    if na != nb {
        proof {
            assert(a@ != b@);
        }
        return false;
    }
    let mut i: usize = 0;
    while i < na
        invariant
            i <= na,
            na == a@.len(),
            na == b@.len(),
            forall|x: int| 0 <= x < i ==> a@[x] == b@[x],
        decreases na - i,
    {
        let ca = a.get_char(i);
        let cb = b.get_char(i);
        if ca != cb {
            proof {
                assert(a@[i as int] != b@[i as int]);
            }
            return false;
        }
        i = i + 1;
    }
    proof {
        assert(a@ =~= b@);
    }
    true
}

/// The first member of `fields` named `name`, exactly as `lookup` finds it.
pub fn get_field<'a>(fields: &'a Vec<(String, Json)>, name: &str) -> (r: Option<&'a Json>)
    ensures
        match r {
            Some(j) => lookup(dv_fields(fields@), name@) == Some(j@),
            None => lookup(dv_fields(fields@), name@) is None,
        },
{
    let ghost o = dv_fields(fields@);
    proof {
        lemma_dv_fields(fields@);
        assert(o.skip(0) =~= o);
    }
    let n = fields.len();
    let mut i: usize = 0;
    while i < n
        invariant
            i <= n,
            n == fields@.len(),
            o == dv_fields(fields@),
            o.len() == n,
            forall|x: int| 0 <= x < n ==> #[trigger] o[x] == (fields@[x].0@, fields@[x].1.dv()),
            lookup(o, name@) == lookup(o.skip(i as int), name@),
        decreases n - i,
    {
        if str_eq(fields[i].0.as_str(), name) {
            proof {
                assert(o.skip(i as int)[0] == o[i as int]);
                assert(lookup(o.skip(i as int), name@) == Some(o[i as int].1));
            }
            return Some(&fields[i].1);
        }
        proof {
            assert(o.skip(i as int)[0] == o[i as int]);
            assert(o.skip(i as int).drop_first() =~= o.skip(i as int + 1));
        }
        i = i + 1;
    }
    proof {
        assert(o.skip(n as int) =~= Seq::<(Seq<char>, JsonV)>::empty());
    }
    None
}

/// The member holds a string.
pub open spec fn sf_str_ok(o: Seq<(Seq<char>, JsonV)>, name: Seq<char>) -> bool {
    lookup(o, name) matches Some(JsonV::Str(_))
}

/// The member's string content.
pub open spec fn sf_str(o: Seq<(Seq<char>, JsonV)>, name: Seq<char>) -> Seq<char> {
    lookup(o, name)->Some_0->Str_0
}

/// The member holds an integer.
pub open spec fn sf_int_ok(o: Seq<(Seq<char>, JsonV)>, name: Seq<char>) -> bool {
    lookup(o, name) matches Some(JsonV::Int(_))
}

/// The member's integer value.
pub open spec fn sf_int(o: Seq<(Seq<char>, JsonV)>, name: Seq<char>) -> int {
    lookup(o, name)->Some_0->Int_0
}

/// The member holds a boolean.
pub open spec fn sf_bool_ok(o: Seq<(Seq<char>, JsonV)>, name: Seq<char>) -> bool {
    lookup(o, name) matches Some(JsonV::Bool(_))
}

/// The member's boolean value.
pub open spec fn sf_bool(o: Seq<(Seq<char>, JsonV)>, name: Seq<char>) -> bool {
    lookup(o, name)->Some_0->Bool_0
}

/// The member is absent or null: it stands for "no value".
pub open spec fn sf_absent(o: Seq<(Seq<char>, JsonV)>, name: Seq<char>) -> bool {
    lookup(o, name) is None || lookup(o, name) == Some(JsonV::Null)
}

/// The member's string, cloned out, exactly when `sf_str_ok`.
pub fn get_str(fields: &Vec<(String, Json)>, name: &str) -> (r: Option<String>)
    ensures
        match r {
            Some(s) => sf_str_ok(dv_fields(fields@), name@) && s@ == sf_str(
                dv_fields(fields@),
                name@,
            ),
            None => !sf_str_ok(dv_fields(fields@), name@),
        },
{
    match get_field(fields, name) {
        Some(j) => match j {
            Json::Str(s) => Some(s.clone()),
            _ => None,
        },
        None => None,
    }
}

/// The member's integer, exactly when `sf_int_ok`.
pub fn get_int(fields: &Vec<(String, Json)>, name: &str) -> (r: Option<i64>)
    ensures
        match r {
            Some(n) => sf_int_ok(dv_fields(fields@), name@) && n as int == sf_int(
                dv_fields(fields@),
                name@,
            ),
            None => !sf_int_ok(dv_fields(fields@), name@),
        },
{
    match get_field(fields, name) {
        Some(j) => match j {
            Json::Int(n) => Some(*n),
            _ => None,
        },
        None => None,
    }
}

/// The member's boolean, exactly when `sf_bool_ok`.
pub fn get_bool(fields: &Vec<(String, Json)>, name: &str) -> (r: Option<bool>)
    ensures
        match r {
            Some(b) => sf_bool_ok(dv_fields(fields@), name@) && b == sf_bool(
                dv_fields(fields@),
                name@,
            ),
            None => !sf_bool_ok(dv_fields(fields@), name@),
        },
{
    match get_field(fields, name) {
        Some(j) => match j {
            Json::Bool(b) => Some(*b),
            _ => None,
        },
        None => None,
    }
}

/// An optional string member: absent and null stand for no value; the outer
/// `None` is a shape fault.
pub fn get_opt_str(fields: &Vec<(String, Json)>, name: &str) -> (r: Option<Option<String>>)
    ensures
        match r {
            Some(Some(s)) => sf_str_ok(dv_fields(fields@), name@) && s@ == sf_str(
                dv_fields(fields@),
                name@,
            ),
            Some(None) => sf_absent(dv_fields(fields@), name@),
            None => !sf_absent(dv_fields(fields@), name@) && !sf_str_ok(
                dv_fields(fields@),
                name@,
            ),
        },
{
    match get_field(fields, name) {
        Some(j) => match j {
            Json::Str(s) => Some(Some(s.clone())),
            Json::Null => Some(None),
            _ => None,
        },
        None => Some(None),
    }
}

/// An optional integer member, as `get_opt_str` for integers.
pub fn get_opt_int(fields: &Vec<(String, Json)>, name: &str) -> (r: Option<Option<i64>>)
    ensures
        match r {
            Some(Some(n)) => sf_int_ok(dv_fields(fields@), name@) && n as int == sf_int(
                dv_fields(fields@),
                name@,
            ),
            Some(None) => sf_absent(dv_fields(fields@), name@),
            None => !sf_absent(dv_fields(fields@), name@) && !sf_int_ok(
                dv_fields(fields@),
                name@,
            ),
        },
{
    match get_field(fields, name) {
        Some(j) => match j {
            Json::Int(n) => Some(Some(*n)),
            Json::Null => Some(None),
            _ => None,
        },
        None => Some(None),
    }
}

/// An optional boolean member, as `get_opt_str` for booleans.
pub fn get_opt_bool(fields: &Vec<(String, Json)>, name: &str) -> (r: Option<Option<bool>>)
    ensures
        match r {
            Some(Some(b)) => sf_bool_ok(dv_fields(fields@), name@) && b == sf_bool(
                dv_fields(fields@),
                name@,
            ),
            Some(None) => sf_absent(dv_fields(fields@), name@),
            None => !sf_absent(dv_fields(fields@), name@) && !sf_bool_ok(
                dv_fields(fields@),
                name@,
            ),
        },
{
    match get_field(fields, name) {
        Some(j) => match j {
            Json::Bool(b) => Some(Some(*b)),
            Json::Null => Some(None),
            _ => None,
        },
        None => Some(None),
    }
}

/// A member whose name no earlier member shares is found at its place.
pub proof fn lemma_lookup_at(o: Seq<(Seq<char>, JsonV)>, i: int)
    requires
        0 <= i < o.len(),
        forall|x: int| 0 <= x < i ==> (#[trigger] o[x]).0 != o[i].0,
    ensures
        lookup(o, o[i].0) == Some(o[i].1),
    decreases i,
{
    if i > 0 {
        let o2 = o.drop_first();
        assert forall|x: int| 0 <= x < i - 1 implies (#[trigger] o2[x]).0 != o2[i - 1].0 by {
            assert(o2[x] == o[x + 1]);
            assert(o2[i - 1] == o[i]);
        }
        lemma_lookup_at(o2, i - 1);
        assert(o2[i - 1] == o[i]);
        assert(o[0].0 != o[i].0);
    }
}

/// A name no member carries is not found.
pub proof fn lemma_lookup_absent(o: Seq<(Seq<char>, JsonV)>, name: Seq<char>)
    requires
        forall|x: int| 0 <= x < o.len() ==> (#[trigger] o[x]).0 != name,
    ensures
        lookup(o, name) is None,
    decreases o.len(),
{
    if o.len() > 0 {
        let o2 = o.drop_first();
        assert forall|x: int| 0 <= x < o2.len() implies (#[trigger] o2[x]).0 != name by {
            assert(o2[x] == o[x + 1]);
        }
        lemma_lookup_absent(o2, name);
    }
}

/// Finding a member in joined member lists: the left list wins.
pub proof fn lemma_lookup_append(a: Seq<(Seq<char>, JsonV)>, b: Seq<(Seq<char>, JsonV)>, name: Seq<char>)
    ensures
        lookup(a + b, name) == match lookup(a, name) {
            Some(v) => Some(v),
            None => lookup(b, name),
        },
    decreases a.len(),
{
    if a.len() == 0 {
        assert(a + b =~= b);
    } else {
        assert((a + b)[0] == a[0]);
        assert((a + b).drop_first() =~= a.drop_first() + b);
        lemma_lookup_append(a.drop_first(), b, name);
    }
}

/// What `lookup` finds lies inside the member list.
pub proof fn lemma_lookup_decreases(o: Seq<(Seq<char>, JsonV)>, name: Seq<char>)
    requires
        lookup(o, name) is Some,
    ensures
        decreases_to!(o => lookup(o, name)->Some_0),
    decreases o.len(),
{
    if o.len() > 0 {
        if o[0].0 == name {
            assert(decreases_to!(o => o[0]));
            assert(decreases_to!(o[0] => o[0].1));
        } else {
            lemma_lookup_decreases(o.drop_first(), name);
            assert(decreases_to!(o => o.drop_first()));
        }
    }
}

/// The index of the first member with the given name, exactly as `lookup`
/// finds it.
pub fn find_member(fields: &Vec<(String, Json)>, name: &str) -> (r: Option<usize>)
    ensures
        match r {
            Some(i) => i < fields@.len() && lookup(dv_fields(fields@), name@) == Some(
                fields@[i as int].1.dv(),
            ),
            None => lookup(dv_fields(fields@), name@) is None,
        },
{
    let ghost o = dv_fields(fields@);
    proof {
        lemma_dv_fields(fields@);
        assert(o.skip(0) =~= o);
    }
    let n = fields.len();
    let mut i: usize = 0;
    while i < n
        invariant
            i <= n,
            n == fields@.len(),
            o == dv_fields(fields@),
            o.len() == n,
            forall|x: int| 0 <= x < n ==> #[trigger] o[x] == (fields@[x].0@, fields@[x].1.dv()),
            lookup(o, name@) == lookup(o.skip(i as int), name@),
        decreases n - i,
    {
        if str_eq(fields[i].0.as_str(), name) {
            proof {
                assert(o.skip(i as int)[0] == o[i as int]);
                assert(lookup(o.skip(i as int), name@) == Some(o[i as int].1));
            }
            return Some(i);
        }
        proof {
            assert(o.skip(i as int)[0] == o[i as int]);
            assert(o.skip(i as int).drop_first() =~= o.skip(i as int + 1));
        }
        i = i + 1;
    }
    proof {
        assert(o.skip(n as int) =~= Seq::<(Seq<char>, JsonV)>::empty());
    }
    None
}

/// Appends one member to an object under construction.
pub fn push_member(fields: &mut Vec<(String, Json)>, name: &str, value: Json)
    ensures
        dv_fields(final (fields)@) == dv_fields(old(fields)@).push((name@, value@)),
{
    let ghost pre = fields@;
    let key = String::from_str(name);
    proof {
        lemma_dv_fields_push(pre, key, value);
    }
    fields.push((key, value));
}

} // verus!
