//! JSON objects as lists of members.
//!
//! A member is a key and the compact JSON text of its value. Reading a text into
//! members and writing members back is `serde_json`'s work; looking members up
//! and changing them is done here.

use vstd::prelude::*;
use vstd::string::*;

verus! {

/// A key and the compact JSON text of its value.
pub type Member = (String, String);

/// The characters of a member.
pub type MemberView = (Seq<char>, Seq<char>);

/// The characters of each member.
pub open spec fn members_view(m: Seq<Member>) -> Seq<MemberView> {
    m.map_values(|x: Member| (x.0@, x.1@))
}

// ---------------------------------------------------------------------------
// What serde_json is trusted for
// ---------------------------------------------------------------------------

/// What `serde_json` reads from a text: nothing where the text is no JSON, no
/// members where it is JSON but no object, and else the members of the object.
pub uninterp spec fn json_object(text: Seq<char>) -> Option<Option<Seq<MemberView>>>;

/// No key occurs twice.
pub open spec fn distinct_keys(m: Seq<MemberView>) -> bool {
    forall|i: int, j: int| 0 <= i < j < m.len() ==> (#[trigger] m[i]).0 != (#[trigger] m[j]).0
}

/// `serde_json::from_str` into a `Value`, and the value's map with each member
/// printed in compact form. The result is named `json_object`. The map holds no key
/// twice.
#[verifier::external_body]
pub(crate) fn read_object(text: &str) -> (r: Option<Option<Vec<Member>>>)
    ensures
        match r {
            None => json_object(text@) is None,
            Some(None) => json_object(text@) == Some(None::<Seq<MemberView>>),
            Some(Some(m)) => json_object(text@) == Some(Some(members_view(m@))) && distinct_keys(
                members_view(m@),
            ),
        },
{
    let value: serde_json::Value = serde_json::from_str(text).ok()?;
    Some(value.as_object().map(|m| m.iter().map(|(k, v)| (k.clone(), v.to_string())).collect()))
}

/// The unsigned integer that a JSON text denotes, if it denotes one.
pub uninterp spec fn json_unsigned(text: Seq<char>) -> Option<u64>;

/// `serde_json::from_str` into a `Value` and `Value::as_u64`.
#[verifier::external_body]
pub(crate) fn read_unsigned(text: &str) -> (r: Option<u64>)
    ensures
        r == json_unsigned(text@),
{
    let value: serde_json::Value = serde_json::from_str(text).ok()?;
    value.as_u64()
}

/// `serde_json::Value::from` a number, printed in compact form: the number in
/// decimal, which denotes it when it is read again.
#[verifier::external_body]
pub(crate) fn write_unsigned(n: u64) -> (r: String)
    ensures
        r@ == crate::text::decimal(n as nat),
        json_unsigned(r@) == Some(n),
{
    serde_json::Value::from(n).to_string()
}

/// The unsigned integer under a key, if there is one.
pub open spec fn unsigned_at(m: Seq<MemberView>, key: Seq<char>) -> Option<u64> {
    match member(m, key) {
        Some(t) => json_unsigned(t),
        None => None,
    }
}

/// Two texts denote the same object or the same unsigned integer, as far as they
/// denote either.
pub open spec fn same_value(a: Seq<char>, b: Seq<char>) -> bool {
    json_object(a) == json_object(b) && json_unsigned(a) == json_unsigned(b)
}

/// Two objects have the same keys, and the same values under them.
pub open spec fn same_members(a: Seq<MemberView>, b: Seq<MemberView>) -> bool {
    forall|key: Seq<char>|
        #[trigger] has_member(a, key) == has_member(b, key) && (has_member(a, key) ==> same_value(
            member(a, key)->0,
            member(b, key)->0,
        ))
}

/// The compact text of the object with the given members, if the text of each
/// member is JSON.
pub uninterp spec fn json_text(m: Seq<MemberView>) -> Option<Seq<char>>;

/// `serde_json::from_str` on each member's text, collected into a
/// `serde_json::Map` and printed by `serde_json::to_string`. The result is named
/// `json_text`. There is one where every member's text is that of a string, of a
/// truth value or of an object of these. Where no key occurs twice and the text can
/// be read again, it is read as an object with the same keys and values: numbers are
/// read exactly (the feature `float_roundtrip`) and printed so that they are read as
/// the same. That it can be read again is not said: `serde_json` limits how deep a
/// text may nest, and an object is one level deeper than its members.
#[verifier::external_body]
pub(crate) fn write_object(m: &Vec<Member>) -> (r: Option<String>)
    ensures
        crate::text::opt(r) == json_text(members_view(m@)),
        (forall|i: int|
            0 <= i < m@.len() ==> is_scalar((#[trigger] m@[i]).1@) || is_flat_object(m@[i].1@))
            ==> r is Some,
        r is Some && distinct_keys(members_view(m@)) && json_object(r->0@) is Some ==> json_object(
            r->0@,
        )->0 is Some && same_members(members_view(m@), json_object(r->0@)->0->0),
{
    let map: Result<serde_json::Map<String, serde_json::Value>, serde_json::Error> =
        m.iter().map(|(k, t)| Ok((k.clone(), serde_json::from_str(t)?))).collect();
    serde_json::to_string(&map.ok()?).ok()
}

/// The indented form of a JSON text, if it is one.
pub uninterp spec fn json_indented(text: Seq<char>) -> Option<Seq<char>>;

/// `serde_json::from_str` into a `Value` and `serde_json::to_string_pretty`. The result
/// is named `json_indented`. There is one only where the text is JSON, and it is then
/// read as the text is: it nests as deep, and numbers are read exactly (the feature
/// `float_roundtrip`) and printed so that they are read as the same.
#[verifier::external_body]
pub(crate) fn indent_text(text: &str) -> (r: Option<String>)
    ensures
        crate::text::opt(r) == json_indented(text@),
        r is Some ==> json_object(text@) is Some && json_object(r->0@) == json_object(text@),
{
    let value: serde_json::Value = serde_json::from_str(text).ok()?;
    serde_json::to_string_pretty(&value).ok()
}

/// The JSON string literal for `s`.
pub uninterp spec fn json_quoted(s: Seq<char>) -> Seq<char>;

/// `t` is the JSON string literal of some text.
pub open spec fn is_string_literal(t: Seq<char>) -> bool {
    exists|s: Seq<char>| t == #[trigger] json_quoted(s)
}

/// `t` is the JSON text of a string or of a truth value.
pub open spec fn is_scalar(t: Seq<char>) -> bool {
    is_string_literal(t) || t == "true"@ || t == "false"@
}

/// The text of every member is that of a string or of a truth value.
pub open spec fn all_scalars(m: Seq<MemberView>) -> bool {
    forall|i: int| 0 <= i < m.len() ==> is_scalar((#[trigger] m[i]).1)
}

/// `t` is the JSON text of an object of strings and truth values.
pub open spec fn is_flat_object(t: Seq<char>) -> bool {
    exists|m: Seq<MemberView>| all_scalars(m) && #[trigger] json_text(m) == Some(t)
}

/// `serde_json::Value::String` printed in compact form.
#[verifier::external_body]
pub(crate) fn quote(s: &str) -> (r: String)
    ensures
        r@ == json_quoted(s@),
{
    serde_json::Value::String(s.to_owned()).to_string()
}

// ---------------------------------------------------------------------------
// Members
// ---------------------------------------------------------------------------

/// The position of the first member with the key `key`, or the length.
pub open spec fn member_index(m: Seq<MemberView>, key: Seq<char>) -> int
    decreases m.len(),
{
    if m.len() == 0 || m[0].0 == key {
        0
    } else {
        1 + member_index(m.skip(1), key)
    }
}

/// `member_index` is the first position with that key.
pub proof fn lemma_member_index(m: Seq<MemberView>, key: Seq<char>)
    ensures
        0 <= member_index(m, key) <= m.len(),
        forall|j: int| 0 <= j < member_index(m, key) ==> (#[trigger] m[j]).0 != key,
        member_index(m, key) < m.len() ==> m[member_index(m, key)].0 == key,
    decreases m.len(),
{
    if m.len() == 0 || m[0].0 == key {
    } else {
        lemma_member_index(m.skip(1), key);
        assert forall|j: int| 0 <= j < member_index(m, key) implies (#[trigger] m[j]).0 != key by {
            if j > 0 {
                assert(m.skip(1)[j - 1] == m[j]);
            }
        }
        if member_index(m, key) < m.len() {
            assert(m.skip(1)[member_index(m, key) - 1] == m[member_index(m, key)]);
        }
    }
}

/// A position with that key after none before it is `member_index`.
pub proof fn lemma_member_index_is(m: Seq<MemberView>, key: Seq<char>, k: int)
    requires
        0 <= k <= m.len(),
        forall|j: int| 0 <= j < k ==> (#[trigger] m[j]).0 != key,
        k < m.len() ==> m[k].0 == key,
    ensures
        member_index(m, key) == k,
{
    lemma_member_index(m, key);
    let f = member_index(m, key);
    if f < k {
        assert(m[f].0 != key);
    } else if k < f {
        assert(m[k].0 != key);
    }
}

/// `m` has a member with the key `key`.
pub open spec fn has_member(m: Seq<MemberView>, key: Seq<char>) -> bool {
    member_index(m, key) < m.len()
}

/// The value of the member with the key `key`.
pub open spec fn member(m: Seq<MemberView>, key: Seq<char>) -> Option<Seq<char>> {
    if has_member(m, key) {
        Some(m[member_index(m, key)].1)
    } else {
        None
    }
}

/// `m` with the value of `key` set: in place where the key is there, at the end
/// where it is not.
pub open spec fn with_member(
    m: Seq<MemberView>,
    key: Seq<char>,
    value: Seq<char>,
) -> Seq<MemberView> {
    if has_member(m, key) {
        m.update(member_index(m, key), (key, value))
    } else {
        m.push((key, value))
    }
}

/// The position of the first member with the key `key`, or the length.
pub fn find_member(m: &Vec<Member>, key: &str) -> (r: usize)
    ensures
        r == member_index(members_view(m@), key@),
        r <= m.len(),
{
    let ghost v = members_view(m@);
    let mut i: usize = 0;
    while i < m.len()
        invariant
            i <= m.len(),
            v == members_view(m@),
            forall|j: int| 0 <= j < i ==> (#[trigger] v[j]).0 != key@,
        decreases m.len() - i,
    {
        if m[i].0.as_str().eq(key) {
            proof {
                assert(v[i as int].0 == key@);
                lemma_member_index_is(v, key@, i as int);
            }
            return i;
        }
        i += 1;
    }
    proof {
        lemma_member_index_is(v, key@, i as int);
    }
    i
}

/// Sets the value of `key`.
pub fn set_member(m: &mut Vec<Member>, key: &str, value: &str)
    ensures
        members_view(final(m)@) == with_member(members_view(old(m)@), key@, value@),
{
    let i: usize = find_member(m, key);
    proof {
        lemma_member_index(members_view(m@), key@);
    }
    if i < m.len() {
        m.set(i, (key.to_string(), value.to_string()));
    } else {
        m.push((key.to_string(), value.to_string()));
    }
    proof {
        assert(members_view(m@) =~= with_member(members_view(old(m)@), key@, value@));
    }
}

/// Setting a member gives it that value and leaves the others alone.
pub proof fn lemma_with_member(
    m: Seq<MemberView>,
    key: Seq<char>,
    value: Seq<char>,
    other: Seq<char>,
)
    ensures
        member(with_member(m, key, value), other) == if other == key {
            Some(value)
        } else {
            member(m, other)
        },
{
    lemma_member_index(m, key);
    lemma_member_index(m, other);
    let n = with_member(m, key, value);
    let k = member_index(m, key);
    if other == key {
        assert forall|j: int| 0 <= j < k implies (#[trigger] n[j]).0 != key by {
            assert(m[j].0 != key);
        }
        lemma_member_index_is(n, key, k);
    } else {
        let f = member_index(m, other);
        assert forall|j: int| 0 <= j < f implies (#[trigger] n[j]).0 != other by {
            if j != k {
                assert(m[j].0 != other);
            }
        }
        if f < m.len() {
            assert(f != k);
            lemma_member_index_is(n, other, f);
        } else {
            assert forall|j: int| 0 <= j < n.len() implies (#[trigger] n[j]).0 != other by {
                if j < m.len() && j != k {
                    assert(m[j].0 != other);
                }
            }
            lemma_member_index_is(n, other, n.len() as int);
        }
    }
}

/// Setting the value of a key keeps the keys distinct.
pub proof fn lemma_set_keeps_keys(m: Seq<MemberView>, key: Seq<char>, value: Seq<char>)
    requires
        distinct_keys(m),
    ensures
        distinct_keys(with_member(m, key, value)),
{
    lemma_member_index(m, key);
    let n = with_member(m, key, value);
    assert forall|i: int, j: int| 0 <= i < j < n.len() implies (#[trigger] n[i]).0 != (
    #[trigger] n[j]).0 by {
        assert(m[i].0 == n[i].0);
        if j < m.len() {
            assert(m[j].0 == n[j].0);
        }
    }
}

/// Objects that count as the same have a key both or neither, and under it texts that denote
/// the same object and the same number.
pub proof fn law_same_objects(a: Seq<MemberView>, b: Seq<MemberView>, i: int)
    requires
        same_members(a, b),
        distinct_keys(a),
        distinct_keys(b),
        0 <= i < a.len(),
    ensures
        exists|j: int|
            0 <= j < b.len() && (#[trigger] b[j]).0 == a[i].0 && json_object(b[j].1)
                == json_object(a[i].1) && json_unsigned(b[j].1) == json_unsigned(a[i].1),
{
    let key = a[i].0;
    assert forall|j: int| 0 <= j < i implies (#[trigger] a[j]).0 != key by {
        assert(a[j].0 != a[i].0);
    }
    lemma_member_index_is(a, key, i);
    lemma_member_index(b, key);
    assert(has_member(a, key));
    let j = member_index(b, key);
    assert(b[j].0 == key);
}

/// Texts of strings and of the two truth values are scalars.
pub proof fn law_scalars(s: Seq<char>, m: Seq<MemberView>)
    ensures
        is_scalar(json_quoted(s)),
        is_scalar("true"@),
        is_scalar("false"@),
        json_text(m) is Some && (forall|i: int|
            0 <= i < m.len() ==> is_scalar((#[trigger] m[i]).1)) ==> is_flat_object(
            json_text(m)->0,
        ),
{
    assert(is_string_literal(json_quoted(s)));
    if json_text(m) is Some && (forall|i: int|
        0 <= i < m.len() ==> is_scalar((#[trigger] m[i]).1)) {
        assert(all_scalars(m));
        assert(json_text(m) == Some(json_text(m)->0));
    }
}

/// No key twice: two members with one key are one member.
pub proof fn law_keys_are_distinct(m: Seq<MemberView>, i: int, j: int)
    requires
        distinct_keys(m),
        0 <= i < m.len(),
        0 <= j < m.len(),
        m[i].0 == m[j].0,
    ensures
        i == j,
{
}

} // verus!
