//! The members of a JSON object, as plain values, and reading them.

use vstd::prelude::*;

use crate::text::chars_of;

verus! {

/// A member value of a JSON object. Numbers keep the text that the JSON
/// parser renders them as; nested arrays and objects are only told apart.
pub enum JsonValue {
    Null,
    Bool(bool),
    Number(String),
    Text(String),
    Array,
    Object,
}

/// One `name: value` member of a JSON object.
pub struct JsonMember {
    pub name: String,
    pub value: JsonValue,
}

/// The members of the JSON object that `text` holds, or `None` where `text`
/// is not a JSON object, as `serde_json` reads it.
pub uninterp spec fn json_object_of(text: Seq<char>) -> Option<Seq<JsonMember>>;

/// The members, if any.
pub open spec fn opt_members(r: Option<Vec<JsonMember>>) -> Option<Seq<JsonMember>> {
    match r {
        Some(v) => Some(v@),
        None => None,
    }
}

/// Relies on `serde_json::from_str` into a `serde_json::Map`: the members of
/// the JSON object in `text`, or `None` where `text` is not one. A number
/// carries its `Display` rendering.
#[verifier::external_body]
pub(crate) fn parse_json_object(text: &str) -> (r: Option<Vec<JsonMember>>)
    ensures
        opt_members(r) == json_object_of(text@),
{
    let map: serde_json::Map<String, serde_json::Value> = serde_json::from_str(text).ok()?;
    Some(map.into_iter().map(|(name, v)| JsonMember { name, value: match v {
        serde_json::Value::Null => JsonValue::Null,
        serde_json::Value::Bool(b) => JsonValue::Bool(b),
        serde_json::Value::Number(n) => JsonValue::Number(n.to_string()),
        serde_json::Value::String(s) => JsonValue::Text(s),
        serde_json::Value::Array(_) => JsonValue::Array,
        serde_json::Value::Object(_) => JsonValue::Object,
    } }).collect())
}

/// The value of the first member named `name`.
pub open spec fn member(ms: Seq<JsonMember>, name: Seq<char>) -> Option<JsonValue>
    decreases ms.len(),
{
    if ms.len() == 0 {
        None
    } else if ms[0].name@ == name {
        Some(ms[0].value)
    } else {
        member(ms.drop_first(), name)
    }
}

proof fn lemma_member_skip(ms: Seq<JsonMember>, name: Seq<char>, i: int)
    requires
        0 <= i < ms.len(),
    ensures
        member(ms.skip(i), name) == if ms[i].name@ == name {
            Some(ms[i].value)
        } else {
            member(ms.skip(i + 1), name)
        },
{
    assert(ms.skip(i).drop_first() =~= ms.skip(i + 1));
}

/// The value of the first member of `ms` named `name`.
pub fn find_member<'a>(ms: &'a Vec<JsonMember>, name: &str) -> (r: Option<&'a JsonValue>)
    ensures
        match r {
            Some(v) => member(ms@, name@) == Some(*v),
            None => member(ms@, name@) is None,
        },
{
    let want = chars_of(name);
    let mut i: usize = 0;
    assert(ms@.skip(0) =~= ms@);
    while i < ms.len()
        invariant
            i <= ms.len(),
            want@ == name@,
            member(ms@, name@) == member(ms@.skip(i as int), name@),
        decreases ms.len() - i,
    {
        proof {
            lemma_member_skip(ms@, name@, i as int);
        }
        let have = chars_of(ms[i].name.as_str());
        if crate::text::chars_equal(&have, &want) {
            return Some(&ms[i].value);
        }
        i = i + 1;
    }
    None
}

/// An ASCII decimal digit.
pub open spec fn is_digit(c: char) -> bool {
    48 <= (c as u32) <= 57
}

/// One or more decimal digits.
pub open spec fn all_digits(d: Seq<char>) -> bool {
    d.len() > 0 && forall|i: int| 0 <= i < d.len() ==> is_digit(#[trigger] d[i])
}

/// The value of a string of decimal digits.
pub open spec fn digits_value(d: Seq<char>) -> nat
    decreases d.len(),
{
    if d.len() == 0 {
        0
    } else {
        digits_value(d.drop_last()) * 10 + (d.last() as u32 - 48) as nat
    }
}

/// The integer that `t` writes as decimal digits with an optional leading `-`.
pub open spec fn integer_of(t: Seq<char>) -> Option<int> {
    if all_digits(t) {
        Some(digits_value(t) as int)
    } else if t.len() > 0 && t[0] == '-' && all_digits(t.drop_first()) {
        Some(-(digits_value(t.drop_first()) as int))
    } else {
        None
    }
}

/// `t` writes an integer that fits in `i64`.
pub open spec fn is_i64_text(t: Seq<char>) -> bool {
    integer_of(t) matches Some(v) && i64::MIN <= v <= i64::MAX
}

proof fn lemma_digits_prefix_le(d: Seq<char>, k: int)
    requires
        0 <= k <= d.len(),
        forall|i: int| 0 <= i < d.len() ==> is_digit(#[trigger] d[i]),
    ensures
        digits_value(d.take(k)) <= digits_value(d),
    decreases d.len() - k,
{
    if k < d.len() {
        lemma_digits_prefix_le(d, k + 1);
        assert(d.take(k + 1).drop_last() =~= d.take(k));
    } else {
        assert(d.take(k) =~= d);
    }
}

/// The integer that `t` writes, where it fits in `i64`.
pub fn parse_i64(t: &str) -> (r: Option<i64>)
    ensures
        match r {
            Some(x) => integer_of(t@) == Some(x as int),
            None => !is_i64_text(t@),
        },
{
    let cs = chars_of(t);
    let neg: bool = cs.len() > 0 && cs[0] == '-';
    let start: usize = if neg { 1 } else { 0 };
    if start >= cs.len() {
        return None;
    }
    let ghost body = cs@.subrange(start as int, cs@.len() as int);
    assert(neg ==> body =~= cs@.drop_first());
    assert(!neg ==> body =~= cs@);
    let limit: u64 = 9223372036854775808;
    let mut acc: u64 = 0;
    let mut i: usize = start;
    while i < cs.len()
        invariant
            start <= i <= cs.len(),
            cs@ == t@,
            neg == (cs@.len() > 0 && cs@[0] == '-'),
            start == (if neg { 1usize } else { 0usize }),
            body == cs@.subrange(start as int, cs@.len() as int),
            forall|j: int| 0 <= j < i - start ==> is_digit(#[trigger] body[j]),
            acc == digits_value(body.take(i - start)),
            acc <= limit,
            limit == 9223372036854775808u64,
        decreases cs.len() - i,
    {
        let c = cs[i];
        let code = c as u32;
        if code < 48 || code > 57 {
            assert(!is_digit(body[i - start]));
            assert(!is_digit(cs@[i as int]));
            assert(!all_digits(cs@)) by {
                if neg {
                    assert(!is_digit(cs@[0]));
                }
            }
            assert(neg ==> !all_digits(cs@.drop_first())) by {
                if neg {
                    assert(cs@.drop_first()[i - 1] == cs@[i as int]);
                }
            }
            return None;
        }
        let d: u64 = (code - 48) as u64;
        assert(d <= 9);
        assert(body.take(i + 1 - start).drop_last() =~= body.take(i - start));
        assert(body.take(i + 1 - start).last() == c);
        if acc > (limit - d) / 10 {
            assert(digits_value(body.take(i + 1 - start)) > limit) by (nonlinear_arith)
                requires
                    acc > (limit - d) / 10,
                    digits_value(body.take(i + 1 - start)) == acc * 10 + d,
                    d <= 9,
            ;
            proof {
                if all_digits(body) {
                    lemma_digits_prefix_le(body, i + 1 - start);
                    assert(digits_value(body) > limit);
                }
                if !neg {
                    assert(body =~= t@);
                } else {
                    assert(body =~= t@.drop_first());
                    assert(!is_digit(t@[0]));
                }
            }
            return None;
        }
        acc = acc * 10 + d;
        i = i + 1;
    }
    assert(body.take(i - start) =~= body);
    if neg {
        if acc == limit {
            Some(i64::MIN)
        } else {
            Some(-(acc as i64))
        }
    } else if acc > 9223372036854775807 {
        None
    } else {
        Some(acc as i64)
    }
}

} // verus!
