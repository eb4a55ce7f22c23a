//! JSON objects: writing them out, and reading their members.
//!
//! An object is read whole before its members are looked at: where a name occurs twice the last
//! member counts, members that are not asked for have to be JSON all the same, and a number that
//! is out of range anywhere makes the whole unreadable.

use vstd::prelude::*;
use vstd::string::*;

use crate::text::decimal_signed;

verus! {

/// A value of an object's member.
pub enum Json {
    Text(Seq<char>),
    Texts(Seq<Seq<char>>),
    Int(int),
    Flag(bool),
    /// An object whose members are all numbers.
    Ints(Seq<(Seq<char>, int)>),
}

/// A text in quotation marks, with what needs it escaped.
pub uninterp spec fn json_quoted(text: Seq<char>) -> Seq<char>;

/// A text in quotation marks, with what needs it escaped.
///
/// Calls `serde_json::to_string` on a text, whose result is named by `json_quoted`.
#[verifier::external_body]
pub(crate) fn json_quote(text: &str) -> (r: String)
    ensures
        r@ == json_quoted(text@),
{
    serde_json::to_string(text).unwrap_or_default()
}

/// Texts in quotation marks, with commas between them.
pub open spec fn quoted_list(texts: Seq<Seq<char>>) -> Seq<char>
    decreases texts.len(),
{
    if texts.len() == 0 {
        Seq::empty()
    } else if texts.len() == 1 {
        json_quoted(texts[0])
    } else {
        quoted_list(texts.drop_last()) + ","@ + json_quoted(texts.last())
    }
}

/// The members of an object of numbers, with commas between them.
pub open spec fn int_members(members: Seq<(Seq<char>, int)>) -> Seq<char>
    decreases members.len(),
{
    if members.len() == 0 {
        Seq::empty()
    } else {
        let last = json_quoted(members.last().0) + ":"@ + decimal_signed(members.last().1);
        if members.len() == 1 {
            last
        } else {
            int_members(members.drop_last()) + ","@ + last
        }
    }
}

/// The notation of a value.
pub open spec fn value_text(v: Json) -> Seq<char> {
    match v {
        Json::Text(t) => json_quoted(t),
        Json::Texts(ts) => "["@ + quoted_list(ts) + "]"@,
        Json::Int(n) => decimal_signed(n),
        Json::Flag(b) => if b {
            "true"@
        } else {
            "false"@
        },
        Json::Ints(members) => "{"@ + int_members(members) + "}"@,
    }
}

/// Members with commas between them.
pub open spec fn members_text(members: Seq<(Seq<char>, Json)>) -> Seq<char>
    decreases members.len(),
{
    if members.len() == 0 {
        Seq::empty()
    } else {
        let last = json_quoted(members.last().0) + ":"@ + value_text(members.last().1);
        if members.len() == 1 {
            last
        } else {
            members_text(members.drop_last()) + ","@ + last
        }
    }
}

/// The notation of an object.
pub open spec fn object_text(members: Seq<(Seq<char>, Json)>) -> Seq<char> {
    "{"@ + members_text(members) + "}"@
}

/// Whether no two members have the same name.
pub open spec fn names_differ(members: Seq<(Seq<char>, Json)>) -> bool {
    forall|i: int, j: int|
        0 <= i < j < members.len() ==> (#[trigger] members[i]).0 != (#[trigger] members[j]).0
}

/// Whether the numbers in a value have at most 64 bits.
pub open spec fn numbers_fit(v: Json) -> bool {
    match v {
        Json::Int(n) => i64::MIN <= n <= i64::MAX,
        Json::Ints(s) => forall|i: int|
            0 <= i < s.len() ==> i64::MIN <= (#[trigger] s[i]).1 <= i64::MAX,
        _ => true,
    }
}

/// Whether an object has a member with this name and value, no two of its members have the same
/// name, and all its numbers have at most 64 bits.
pub open spec fn has_member(members: Seq<(Seq<char>, Json)>, name: Seq<char>, v: Json) -> bool {
    &&& names_differ(members)
    &&& forall|i: int| 0 <= i < members.len() ==> numbers_fit((#[trigger] members[i]).1)
    &&& members.contains((name, v))
}

/// The text member of an object.
pub uninterp spec fn json_text_at(json: Seq<char>, name: Seq<char>) -> Option<Seq<char>>;

/// The list of texts that is a member of an object.
pub uninterp spec fn json_texts_at(json: Seq<char>, name: Seq<char>) -> Option<Seq<Seq<char>>>;

/// The number that is a member of an object.
pub uninterp spec fn json_int_at(json: Seq<char>, name: Seq<char>) -> Option<i64>;

/// The truth value that is a member of an object.
pub uninterp spec fn json_flag_at(json: Seq<char>, name: Seq<char>) -> Option<bool>;

/// The number that is a member of an object that is a member of an object.
pub uninterp spec fn json_inner_int_at(
    json: Seq<char>,
    outer: Seq<char>,
    inner: Seq<char>,
) -> Option<i64>;

/// Texts taken as their characters.
pub open spec fn text_views(s: Seq<String>) -> Seq<Seq<char>> {
    s.map_values(|x: String| x@)
}

/// A text that may be absent, taken as its characters.
pub open spec fn text_view(t: Option<String>) -> Option<Seq<char>> {
    match t {
        Some(s) => Some(s@),
        None => None,
    }
}

/// Texts that may be absent, taken as their characters.
pub open spec fn texts_view(t: Option<Vec<String>>) -> Option<Seq<Seq<char>>> {
    match t {
        Some(s) => Some(text_views(s@)),
        None => None,
    }
}

/// What is wrong with a text that is not JSON. Calls `serde_json::from_str`; what the error says
/// is left unsaid.
#[verifier::external_body]
pub(crate) fn json_fault(json: &str) -> Option<String> {
    serde_json::from_str::<serde_json::Value>(json).err().map(|e| e.to_string())
}

/// The text member `name` of the object that `json` writes.
///
/// Calls `serde_json::from_str`, `serde_json::Value::get` and `as_str`; the result is named by
/// `json_text_at`. From the notation of an object whose numbers have at most 64 bits the member is
/// read back.
#[verifier::external_body]
pub(crate) fn json_text(json: &str, name: &str) -> (r: Option<String>)
    ensures
        text_view(r) == json_text_at(json@, name@),
        forall|members: Seq<(Seq<char>, Json)>, t: Seq<char>|
            json@ == #[trigger] object_text(members) && #[trigger] has_member(members, name@, Json::Text(t)) ==> text_view(r) == Some(t),
{
    serde_json::from_str::<serde_json::Value>(json).ok()?.get(name)?.as_str().map(|s| s.to_string())
}

/// The list of texts that is the member `name` of the object that `json` writes.
///
/// Calls `serde_json::from_str`, `serde_json::Value::get` and `as_array`; the result is named by
/// `json_texts_at`. From the notation of an object whose numbers have at most 64 bits the member is
/// read back.
#[verifier::external_body]
pub(crate) fn json_texts(json: &str, name: &str) -> (r: Option<Vec<String>>)
    ensures
        texts_view(r) == json_texts_at(json@, name@),
        forall|members: Seq<(Seq<char>, Json)>, t: Seq<Seq<char>>|
            json@ == #[trigger] object_text(members) && #[trigger] has_member(members, name@, Json::Texts(t)) ==> texts_view(r) == Some(t),
{
    serde_json::from_str::<serde_json::Value>(json).ok()?.get(name)?.as_array()?.iter().map(
        |v| v.as_str().map(|s| s.to_string()),
    ).collect()
}

/// The number that is the member `name` of the object that `json` writes, where it is a whole
/// number of at most 64 bits.
///
/// Calls `serde_json::from_str`, `serde_json::Value::get` and `as_i64`; the result is named by
/// `json_int_at`. From the notation of an object whose numbers have at most 64 bits the member is
/// read back.
#[verifier::external_body]
pub(crate) fn json_int(json: &str, name: &str) -> (r: Option<i64>)
    ensures
        r == json_int_at(json@, name@),
        forall|members: Seq<(Seq<char>, Json)>, n: i64|
            json@ == #[trigger] object_text(members) && #[trigger] has_member(members, name@, Json::Int(n as int)) ==> r == Some(n),
{
    serde_json::from_str::<serde_json::Value>(json).ok()?.get(name)?.as_i64()
}

/// The truth value that is the member `name` of the object that `json` writes.
///
/// Calls `serde_json::from_str`, `serde_json::Value::get` and `as_bool`; the result is named by
/// `json_flag_at`. From the notation of an object whose numbers have at most 64 bits the member is
/// read back.
#[verifier::external_body]
pub(crate) fn json_flag(json: &str, name: &str) -> (r: Option<bool>)
    ensures
        r == json_flag_at(json@, name@),
        forall|members: Seq<(Seq<char>, Json)>, b: bool|
            json@ == #[trigger] object_text(members) && #[trigger] has_member(members, name@, Json::Flag(b)) ==> r == Some(b),
{
    serde_json::from_str::<serde_json::Value>(json).ok()?.get(name)?.as_bool()
}

/// The number that is the member `inner` of the member `outer` of the object that `json` writes.
///
/// Calls `serde_json::from_str`, `serde_json::Value::get` and `as_i64`; the result is named by
/// `json_inner_int_at`. From the notation of an object whose numbers have at most 64 bits the member is
/// read back.
#[verifier::external_body]
pub(crate) fn json_inner_int(json: &str, outer: &str, inner: &str) -> (r: Option<i64>)
    ensures
        r == json_inner_int_at(json@, outer@, inner@),
        forall|members: Seq<(Seq<char>, Json)>, ints: Seq<(Seq<char>, int)>, n: i64|
            json@ == #[trigger] object_text(members) && #[trigger] has_member(members, outer@, Json::Ints(ints)) && #[trigger] has_int(ints, inner@, n as int) ==> r == Some(n),
{
    serde_json::from_str::<serde_json::Value>(json).ok()?.get(outer)?.get(inner)?.as_i64()
}

/// The text that a text in quotation marks writes.
pub uninterp spec fn json_unquoted(json: Seq<char>) -> Option<Seq<char>>;

/// The text that `json` writes in quotation marks.
///
/// Calls `serde_json::from_str` for a text; the result is named by `json_unquoted`. A text that
/// was put in quotation marks is read back.
#[verifier::external_body]
pub(crate) fn json_unquote(json: &str) -> (r: Option<String>)
    ensures
        text_view(r) == json_unquoted(json@),
        forall|t: Seq<char>| json@ == #[trigger] json_quoted(t) ==> text_view(r) == Some(t),
{
    serde_json::from_str::<String>(json).ok()
}

/// An object with a truth value as one of its members.
pub uninterp spec fn json_flagged(json: Seq<char>, name: Seq<char>, flag: bool) -> Option<Seq<char>>;

/// The object that `json` writes with the member `name` set to a truth value; nothing where the
/// text does not write an object.
///
/// Calls `serde_json::from_str`, `serde_json::Value::as_object_mut`, `serde_json::Map::insert` and
/// `serde_json::to_string`; the result is named by `json_flagged`. The truth value is read back,
/// and those of the other members are as they were.
#[verifier::external_body]
pub(crate) fn json_set_flag(json: &str, name: &str, flag: bool) -> (r: Option<String>)
    ensures
        text_view(r) == json_flagged(json@, name@, flag),
        r is Some ==> json_flag_at(r->Some_0@, name@) == Some(flag),
        r is Some ==> forall|m: Seq<char>| m != name@ ==> #[trigger] json_flag_at(r->Some_0@, m) == json_flag_at(json@, m),
{
    let mut value: serde_json::Value = serde_json::from_str(json).ok()?;
    value.as_object_mut()?.insert(name.to_string(), serde_json::Value::Bool(flag));
    serde_json::to_string(&value).ok()
}

/// The members of an object, in the order of their names, each with its notation.
pub uninterp spec fn json_members_of(json: Seq<char>) -> Option<Seq<(Seq<char>, Seq<char>)>>;

/// Pairs of texts taken as their characters.
pub open spec fn pair_views(s: Seq<(String, String)>) -> Seq<(Seq<char>, Seq<char>)> {
    s.map_values(|p: (String, String)| (p.0@, p.1@))
}

/// Pairs of texts that may be absent, taken as their characters.
pub open spec fn pairs_view(r: Result<Vec<(String, String)>, String>) -> Option<
    Seq<(Seq<char>, Seq<char>)>,
> {
    match r {
        Ok(v) => Some(pair_views(v@)),
        Err(_) => None,
    }
}

/// The members of the object that `json` writes, in the order of their names, each with its
/// notation.
///
/// Calls `serde_json::from_str` for a `serde_json::Map`, and `serde_json::Value::to_string`; the
/// result is named by `json_members_of`. What the text of an error says is left unsaid.
#[verifier::external_body]
pub(crate) fn json_members(json: &str) -> (r: Result<Vec<(String, String)>, String>)
    ensures
        pairs_view(r) == json_members_of(json@),
{
    serde_json::from_str::<serde_json::Map<String, serde_json::Value>>(json).map(
        |m| m.into_iter().map(|(k, v)| (k, v.to_string())).collect(),
    ).map_err(|e| e.to_string())
}

/// Whether an object of numbers has a member with this name and value, and no other of the name.
pub open spec fn has_int(members: Seq<(Seq<char>, int)>, name: Seq<char>, n: int) -> bool {
    members.contains((name, n)) && forall|i: int, j: int|
        0 <= i < j < members.len() ==> (#[trigger] members[i]).0 != (#[trigger] members[j]).0
}

/// The notation of a truth value.
pub(crate) fn flag_notation(b: bool) -> (r: &'static str)
    ensures
        r@ == value_text(Json::Flag(b)),
{
    if b {
        "true"
    } else {
        "false"
    }
}

/// Begins an object.
pub(crate) fn object_begin() -> (r: String)
    ensures
        r@ == "{"@ + members_text(Seq::<(Seq<char>, Json)>::empty()),
{
    let r = "{".to_owned();
    assert(r@ =~= "{"@ + members_text(Seq::<(Seq<char>, Json)>::empty()));
    r
}

/// Writes the next member of an object; `members` are those already written, and `value` is the
/// notation of the next one's value.
pub(crate) fn object_member(
    out: &mut String,
    first: bool,
    name: &str,
    value: &str,
    members: Ghost<Seq<(Seq<char>, Json)>>,
    v: Ghost<Json>,
)
    requires
        old(out)@ == "{"@ + members_text(members@),
        first == (members@.len() == 0),
        value@ == value_text(v@),
    ensures
        final(out)@ == "{"@ + members_text(members@.push((name@, v@))),
{
    let ghost start = out@;
    if !first {
        out.append(",");
    }
    let quoted = json_quote(name);
    out.append(quoted.as_str());
    out.append(":");
    out.append(value);
    proof {
        let more = members@.push((name@, v@));
        assert(more.drop_last() =~= members@);
        if first {
            assert(out@ =~= start + json_quoted(name@) + ":"@ + value@);
            assert(members_text(members@) =~= Seq::<char>::empty());
            assert(out@ =~= "{"@ + members_text(more));
        } else {
            assert(out@ =~= start + ","@ + json_quoted(name@) + ":"@ + value@);
            assert(out@ =~= "{"@ + members_text(more));
        }
    }
}

/// Ends an object.
pub(crate) fn object_end(out: &mut String, members: Ghost<Seq<(Seq<char>, Json)>>)
    requires
        old(out)@ == "{"@ + members_text(members@),
    ensures
        final(out)@ == object_text(members@),
{
    out.append("}");
}

/// The notation of a list of texts.
pub(crate) fn texts_notation(texts: &Vec<String>) -> (r: String)
    ensures
        r@ == value_text(Json::Texts(text_views(texts@))),
{
    let mut out = "[".to_owned();
    let mut i: usize = 0;
    let ghost views = text_views(texts@);
    assert(views.take(0) =~= Seq::<Seq<char>>::empty());
    assert(out@ =~= "["@ + quoted_list(views.take(0)));
    while i < texts.len()
        invariant
            i <= texts@.len(),
            views == text_views(texts@),
            out@ == "["@ + quoted_list(views.take(i as int)),
        decreases texts@.len() - i,
    {
        let ghost before = out@;
        if i > 0 {
            out.append(",");
        }
        let quoted = json_quote(texts[i].as_str());
        out.append(quoted.as_str());
        proof {
            let more = views.take(i + 1);
            assert(more.drop_last() =~= views.take(i as int));
            assert(more.last() == texts@[i as int]@);
            if i == 0 {
                assert(more[0] == texts@[0]@);
                assert(out@ =~= "["@ + quoted_list(more));
            } else {
                assert(out@ =~= "["@ + quoted_list(more));
            }
        }
        i = i + 1;
    }
    assert(views.take(i as int) =~= views);
    out.append("]");
    out
}

} // verus!
