//! Combo aliases: several model aliases bundled, in order, under a new name.
//!
//! A name is trimmed and must not be empty; members are trimmed, empty ones
//! dropped and repeats removed (the first occurrence keeps its place), and
//! at least one must remain. Whether names clash with model aliases is a
//! question for the database.

use vstd::prelude::*;
use crate::json::str_eq;
use crate::text::{join_spec, join_strings, trim, trim_spec};

verus! {

/// A trimmed combo name, where it is not empty.
pub fn normalize_combo_name(name: &str) -> (r: Option<String>)
    ensures
        match r {
            Some(n) => n@ == trim_spec(name@) && n@.len() > 0,
            None => trim_spec(name@).len() == 0,
        },
{
    let t = trim(name);
    if t.unicode_len() == 0 {
        None
    } else {
        Some(t)
    }
}

/// The members read in order: trimmed, empty ones dropped, each kept the
/// first time it occurs.
pub open spec fn members_fold(ms: Seq<Seq<char>>) -> Seq<Seq<char>>
    decreases ms.len(),
{
    if ms.len() == 0 {
        Seq::empty()
    } else {
        let out = members_fold(ms.drop_last());
        let m = trim_spec(ms.last());
        if m.len() == 0 || out.contains(m) {
            out
        } else {
            out.push(m)
        }
    }
}

pub open spec fn strings_view(v: Seq<String>) -> Seq<Seq<char>> {
    v.map_values(|t: String| t@)
}

/// The members of a combo, normalized: `None` where none remains.
pub fn normalize_members(members: &Vec<String>) -> (r: Option<Vec<String>>)
    ensures
        match r {
            Some(v) => strings_view(v@) == members_fold(strings_view(members@)) && v@.len() > 0,
            None => members_fold(strings_view(members@)).len() == 0,
        },
{
    let ghost mv = strings_view(members@);
    let mut out: Vec<String> = Vec::new();
    let mut i: usize = 0;
    proof {
        assert(strings_view(out@) =~= members_fold(mv.take(0)));
    }
    while i < members.len()
        invariant
            i <= members@.len(),
            mv == strings_view(members@),
            strings_view(out@) == members_fold(mv.take(i as int)),
        decreases members@.len() - i,
    {
        proof {
            assert(mv.take(i as int + 1).drop_last() =~= mv.take(i as int));
            assert(mv.take(i as int + 1).last() == members@[i as int]@);
        }
        let m = trim(members[i].as_str());
        let mut seen = false;
        let mut k: usize = 0;
        let ghost ov = strings_view(out@);
        while k < out.len()
            invariant
                k <= out@.len(),
                ov == strings_view(out@),
                !seen ==> forall|j: int| 0 <= j < k ==> ov[j] != m@,
                seen ==> ov.contains(m@),
            decreases out@.len() - k,
        {
            if str_eq(out[k].as_str(), m.as_str()) {
                proof {
                    assert(ov[k as int] == m@);
                }
                seen = true;
            }
            k = k + 1;
        }
        if m.unicode_len() > 0 && !seen {
            out.push(m);
            proof {
                assert(strings_view(out@) =~= ov.push(trim_spec(members@[i as int]@)));
            }
        }
        i = i + 1;
    }
    proof {
        assert(mv.take(i as int) =~= mv);
    }
    if out.len() == 0 {
        None
    } else {
        Some(out)
    }
}

/// The message for members that are not model aliases.
pub fn members_not_found_message(unknown: &Vec<String>) -> (r: String)
    ensures
        r@ == "Members not found as model aliases: "@ + join_spec(strings_view(unknown@), ", "@),
{
    let mut out = String::from_str("Members not found as model aliases: ");
    let joined = join_strings(unknown, ", ");
    out.append(joined.as_str());
    out
}

pub open spec fn result_view(r: Result<String, String>) -> Result<Seq<char>, Seq<char>> {
    match r {
        Ok(x) => Ok(x@),
        Err(e) => Err(e@),
    }
}

/// How a combo name is judged against the model aliases: trimmed, it must
/// be non-empty and must not be an alias (a combo named like a model would
/// be ambiguous).
pub open spec fn name_check(name: Seq<char>, aliases: Seq<Seq<char>>) -> Result<Seq<char>, Seq<char>> {
    let n = trim_spec(name);
    if n.len() == 0 {
        Err("Combo name must not be empty"@)
    } else if aliases.contains(n) {
        Err("Combo name '"@ + n + "' conflicts with an existing model alias"@)
    } else {
        Ok(n)
    }
}

fn contains_str_in(v: &Vec<String>, x: &str) -> (r: bool)
    ensures
        r == strings_view(v@).contains(x@),
{
    let ghost sv = strings_view(v@);
    let mut i: usize = 0;
    while i < v.len()
        invariant
            i <= v@.len(),
            sv == strings_view(v@),
            forall|j: int| 0 <= j < i ==> sv[j] != x@,
        decreases v@.len() - i,
    {
        proof {
            assert(sv[i as int] == v@[i as int]@);
        }
        if str_eq(v[i].as_str(), x) {
            return true;
        }
        i = i + 1;
    }
    false
}

/// Checks a combo name against the model aliases (refusals are answered
/// 400 with the message).
pub fn validate_combo_name(name: &str, aliases: &Vec<String>) -> (r: Result<String, String>)
    ensures
        result_view(r) == name_check(name@, strings_view(aliases@)),
{
    match normalize_combo_name(name) {
        None => Err("Combo name must not be empty".to_owned()),
        Some(n) => {
            if contains_str_in(aliases, n.as_str()) {
                let mut m = "Combo name '".to_owned();
                m.append(n.as_str());
                m.append("' conflicts with an existing model alias");
                Err(m)
            } else {
                Ok(n)
            }
        },
    }
}

/// The members that are not model aliases, in order.
pub open spec fn unknown_members(ms: Seq<Seq<char>>, aliases: Seq<Seq<char>>) -> Seq<Seq<char>>
    decreases ms.len(),
{
    if ms.len() == 0 {
        Seq::empty()
    } else {
        let rest = unknown_members(ms.drop_last(), aliases);
        if aliases.contains(ms.last()) {
            rest
        } else {
            rest.push(ms.last())
        }
    }
}

/// How a combo's members are judged: normalized, at least one must remain,
/// and all must be model aliases (the unknown ones are listed).
pub open spec fn members_check(members: Seq<Seq<char>>, aliases: Seq<Seq<char>>) -> Result<
    Seq<Seq<char>>,
    Seq<char>,
> {
    let ms = members_fold(members);
    if ms.len() == 0 {
        Err("Combo must have at least one member"@)
    } else if unknown_members(ms, aliases).len() > 0 {
        Err("Members not found as model aliases: "@ + join_spec(unknown_members(ms, aliases), ", "@))
    } else {
        Ok(ms)
    }
}

/// Checks a combo's members against the model aliases (refusals are
/// answered 400 with the message).
pub fn validate_members(members: &Vec<String>, aliases: &Vec<String>) -> (r: Result<Vec<String>, String>)
    ensures
        match r {
            Ok(v) => members_check(strings_view(members@), strings_view(aliases@)) == Ok::<
                Seq<Seq<char>>,
                Seq<char>,
            >(strings_view(v@)),
            Err(e) => members_check(strings_view(members@), strings_view(aliases@)) == Err::<
                Seq<Seq<char>>,
                Seq<char>,
            >(e@),
        },
{
    let out = match normalize_members(members) {
        None => {
            return Err("Combo must have at least one member".to_owned());
        },
        Some(v) => v,
    };
    let ghost ov = strings_view(out@);
    let ghost av = strings_view(aliases@);
    let mut unknown: Vec<String> = Vec::new();
    let mut i: usize = 0;
    proof {
        assert(strings_view(unknown@) =~= unknown_members(ov.take(0), av));
    }
    while i < out.len()
        invariant
            i <= out@.len(),
            ov == strings_view(out@),
            av == strings_view(aliases@),
            strings_view(unknown@) == unknown_members(ov.take(i as int), av),
        decreases out@.len() - i,
    {
        proof {
            assert(ov.take(i as int + 1).drop_last() =~= ov.take(i as int));
            assert(ov.take(i as int + 1).last() == out@[i as int]@);
        }
        if !contains_str_in(aliases, out[i].as_str()) {
            let ghost before = strings_view(unknown@);
            unknown.push(out[i].clone());
            proof {
                assert(strings_view(unknown@) =~= before.push(out@[i as int]@));
            }
        }
        i = i + 1;
    }
    proof {
        assert(ov.take(i as int) =~= ov);
    }
    if unknown.len() > 0 {
        Err(members_not_found_message(&unknown))
    } else {
        Ok(out)
    }
}

/// A combo as stored.
#[derive(Debug)]
pub struct Combo {
    pub id: String,
    pub name: String,
    pub enabled: bool,
    pub created_at: i64,
    pub updated_at: i64,
}

/// The document of a combo and its members.
pub open spec fn combo_json_spec(c: Combo, members: Seq<Seq<char>>) -> crate::json::JsonV {
    crate::json::jobj(
        seq![
            ("id"@, crate::json::JsonV::Str(c.id@)),
            ("name"@, crate::json::JsonV::Str(c.name@)),
            ("enabled"@, crate::json::JsonV::Bool(c.enabled)),
            ("members"@, crate::json::JsonV::Array(members.map_values(|m: Seq<char>| crate::json::JsonV::Str(m)))),
            ("created_at"@, crate::json::JsonV::Int(c.created_at as int)),
            ("updated_at"@, crate::json::JsonV::Int(c.updated_at as int)),
        ],
    )
}

/// The API document of a combo and its members.
pub fn combo_json(c: &Combo, members: &Vec<String>) -> (r: crate::json::Json)
    ensures
        r@ == combo_json_spec(*c, strings_view(members@)),
{
    let mut items: Vec<crate::json::Json> = Vec::new();
    let ghost mv = strings_view(members@);
    let mut i: usize = 0;
    while i < members.len()
        invariant
            i <= members@.len(),
            mv == strings_view(members@),
            crate::json::items_view(items@) == mv.take(i as int).map_values(|m: Seq<char>| crate::json::JsonV::Str(m)),
        decreases members@.len() - i,
    {
        let ghost before = items@;
        items.push(crate::json::json_string(members[i].as_str()));
        proof {
            crate::json::lemma_items_view_push(before, items@.last());
            assert(items@ =~= before.push(items@.last()));
            assert(mv.take(i as int + 1).map_values(|m: Seq<char>| crate::json::JsonV::Str(m)) =~= mv.take(
                i as int,
            ).map_values(|m: Seq<char>| crate::json::JsonV::Str(m)).push(crate::json::JsonV::Str(mv[i as int])));
        }
        i = i + 1;
    }
    proof {
        assert(mv.take(i as int) =~= mv);
    }
    let mut f: Vec<(String, crate::json::Json)> = Vec::new();
    crate::json::push_field(&mut f, "id", crate::json::json_string(c.id.as_str()));
    crate::json::push_field(&mut f, "name", crate::json::json_string(c.name.as_str()));
    crate::json::push_field(&mut f, "enabled", crate::json::Json::Bool(c.enabled));
    crate::json::push_field(&mut f, "members", crate::json::array_of(items));
    crate::json::push_field(&mut f, "created_at", crate::json::json_i64(c.created_at));
    crate::json::push_field(&mut f, "updated_at", crate::json::json_i64(c.updated_at));
    proof {
        assert(crate::json::fields_view(f@) =~= combo_json_spec(*c, mv)->Object_0);
    }
    crate::json::object_of(f)
}

/// A law of the normalized members: none is empty, none occurs twice.
pub proof fn law_members_distinct_and_nonempty(ms: Seq<Seq<char>>)
    ensures
        forall|i: int| 0 <= i < members_fold(ms).len() ==> #[trigger] members_fold(ms)[i].len() > 0,
        forall|i: int, j: int|
            0 <= i < j < members_fold(ms).len() ==> #[trigger] members_fold(ms)[i] != #[trigger] members_fold(ms)[j],
    decreases ms.len(),
{
    if ms.len() > 0 {
        law_members_distinct_and_nonempty(ms.drop_last());
        let out = members_fold(ms.drop_last());
        let m = trim_spec(ms.last());
        if !(m.len() == 0 || out.contains(m)) {
            let r = out.push(m);
            assert forall|i: int, j: int| 0 <= i < j < r.len() implies r[i] != r[j] by {
                if j == r.len() - 1 {
                    if r[i] == r[j] {
                        assert(out[i] == m);
                        assert(out.contains(m));
                    }
                }
            }
        }
    }
}

} // verus!
