//! The JSON of the feeds: text members of a message, and the messages that are sent.
use crate::double::Double;
use crate::text::{join, joined, law_joining_separates_neighbours, views};
use vstd::prelude::*;
use vstd::string::*;

verus! {

/// `serde_json::Value`, a parsed JSON text.
#[verifier::external_type_specification]
#[verifier::external_body]
pub struct ExValue(serde_json::Value);

/// `serde_json::Error`, why a text is not JSON.
#[verifier::external_type_specification]
#[verifier::external_body]
pub struct ExError(serde_json::Error);

/// A JSON value, as far as the feeds are read.
pub enum Json {
    Text(Seq<char>),
    /// A number, as a double.
    Number(Double),
    List(Seq<Json>),
    Object(Map<Seq<char>, Json>),
    /// A truth value or null.
    Other,
}

/// What a `serde_json::Value` holds.
pub uninterp spec fn json(v: serde_json::Value) -> Json;

/// What `serde_json::from_str` makes of a text: nothing where it is no JSON, else the
/// value.
pub uninterp spec fn parsed(txt: Seq<char>) -> Option<Json>;

/// `serde_json::from_str` to a `Value`. Whether it succeeds, and which value it gives,
/// is determined by the text.
#[verifier::external_body]
pub(crate) fn parse(txt: &str) -> (r: Result<serde_json::Value, serde_json::Error>)
    ensures
        r is Ok <==> parsed(txt@) is Some,
        r matches Ok(v) ==> json(v) == parsed(txt@)->0,
{
    serde_json::from_str(txt)
}

/// A member of a value: only objects have members.
pub open spec fn member(j: Json, name: Seq<char>) -> Option<Json> {
    match j {
        Json::Object(members) => if members.contains_key(name) {
            Some(members[name])
        } else {
            None
        },
        _ => None,
    }
}

/// The first item of a value: only lists have items.
pub open spec fn first_item(j: Json) -> Option<Json> {
    match j {
        Json::List(items) => if items.len() > 0 {
            Some(items[0])
        } else {
            None
        },
        _ => None,
    }
}

/// The text of a value that is one.
pub open spec fn text_in(j: Json) -> Option<Seq<char>> {
    match j {
        Json::Text(s) => Some(s),
        _ => None,
    }
}

/// The number of a value that is one.
pub open spec fn number_in(j: Json) -> Option<Double> {
    match j {
        Json::Number(d) => Some(d),
        _ => None,
    }
}

/// `Value::get` with a name: the member of that name, if the value is an object that
/// has one.
#[verifier::external_body]
pub(crate) fn get<'a>(v: &'a serde_json::Value, name: &str) -> (r: Option<&'a serde_json::Value>)
    ensures
        r is Some <==> member(json(*v), name@) is Some,
        r matches Some(m) ==> json(*m) == member(json(*v), name@)->0,
{
    v.get(name)
}

/// `Value::as_array`, then the first item, if the value is a list that has one.
#[verifier::external_body]
pub(crate) fn first(v: &serde_json::Value) -> (r: Option<&serde_json::Value>)
    ensures
        r is Some <==> first_item(json(*v)) is Some,
        r matches Some(m) ==> json(*m) == first_item(json(*v))->0,
{
    v.as_array().and_then(|items| items.first())
}

/// `Value::as_str`: the text, if the value is one.
#[verifier::external_body]
pub(crate) fn as_text(v: &serde_json::Value) -> (r: Option<String>)
    ensures
        r is Some <==> text_in(json(*v)) is Some,
        r matches Some(s) ==> s@ == text_in(json(*v))->0,
{
    v.as_str().map(|s| s.to_string())
}

/// `Value::as_f64`: the number, if the value is one.
#[verifier::external_body]
pub(crate) fn as_number(v: &serde_json::Value) -> (r: Option<Double>)
    ensures
        r == number_in(json(*v)),
{
    v.as_f64().map(|x| Double { bits: x.to_bits() })
}

/// A text member, if there is one.
pub open spec fn text_member(j: Json, name: Seq<char>) -> Option<Seq<char>> {
    match member(j, name) {
        Some(m) => text_in(m),
        None => None,
    }
}

/// Reads a text member.
pub fn read_text(v: &serde_json::Value, name: &str) -> (r: Option<String>)
    ensures
        r is Some <==> text_member(json(*v), name@) is Some,
        r matches Some(s) ==> s@ == text_member(json(*v), name@)->0,
{
    match get(v, name) {
        Some(m) => as_text(m),
        None => None,
    }
}

/// A text member, or the empty text where there is none.
pub open spec fn text_or_empty(j: Json, name: Seq<char>) -> Seq<char> {
    match text_member(j, name) {
        Some(s) => s,
        None => Seq::empty(),
    }
}

/// Reads a text member, or the empty text where there is none.
pub fn member_or_empty(v: &serde_json::Value, name: &str) -> (r: String)
    ensures
        r@ == text_or_empty(json(*v), name@),
{
    match read_text(v, name) {
        Some(s) => s,
        None => String::new(),
    }
}

/// A lower-case hexadecimal digit.
pub open spec fn hex_digit(n: int) -> char {
    if n < 10 {
        (n + '0' as int) as char
    } else {
        (n - 10 + 'a' as int) as char
    }
}

/// How a character is written inside a JSON string.
pub open spec fn escaped(c: char) -> Seq<char> {
    if c == '"' || c == '\\' {
        seq!['\\', c]
    } else if c as int == 8 {
        seq!['\\', 'b']
    } else if c as int == 9 {
        seq!['\\', 't']
    } else if c as int == 10 {
        seq!['\\', 'n']
    } else if c as int == 12 {
        seq!['\\', 'f']
    } else if c as int == 13 {
        seq!['\\', 'r']
    } else if (c as int) < 32 {
        seq!['\\', 'u', '0', '0', hex_digit(c as int / 16), hex_digit(c as int % 16)]
    } else {
        seq![c]
    }
}

/// The characters of a text, each as it is written inside a JSON string.
pub open spec fn escaped_all(s: Seq<char>) -> Seq<char>
    decreases s.len(),
{
    if s.len() == 0 {
        Seq::empty()
    } else {
        escaped_all(s.drop_last()) + escaped(s.last())
    }
}

/// A text as a JSON string.
pub open spec fn quoted(s: Seq<char>) -> Seq<char> {
    seq!['"'] + escaped_all(s) + seq!['"']
}

/// The text of a `serde_json::Value::String`: quotes around the characters, of which
/// the quote, the backslash and those below the space are escaped.
#[verifier::external_body]
pub(crate) fn quote(s: &str) -> (r: String)
    ensures
        r@ == quoted(s@),
{
    serde_json::Value::String(s.to_string()).to_string()
}

/// A text without quotes, backslashes and control characters stands in a JSON string
/// as it is.
pub proof fn law_plain_text_is_only_quoted(s: Seq<char>)
    requires
        forall|i: int| 0 <= i < s.len() ==> s[i] != '"' && s[i] != '\\' && s[i] as int >= 32,
    ensures
        quoted(s) == seq!['"'] + s + seq!['"'],
{
    lemma_plain(s);
}

proof fn lemma_plain(s: Seq<char>)
    requires
        forall|i: int| 0 <= i < s.len() ==> s[i] != '"' && s[i] != '\\' && s[i] as int >= 32,
    ensures
        escaped_all(s) == s,
    decreases s.len(),
{
    if s.len() > 0 {
        lemma_plain(s.drop_last());
        assert(s.drop_last() + seq![s.last()] =~= s);
    } else {
        assert(s =~= Seq::empty());
    }
}

/// A request: a method and what it is asked of.
pub open spec fn request(method: Seq<char>, param: Seq<char>) -> Seq<char> {
    "{\"method\":"@ + quoted(method) + ",\"param\":"@ + param + "}"@
}

/// An object with one text member; the name needs no escapes.
pub open spec fn single(name: Seq<char>, value: Seq<char>) -> Seq<char> {
    "{\""@ + name + "\":"@ + quoted(value) + "}"@
}

/// The text of a request.
pub fn request_text(method: &str, param: &str) -> (r: String)
    ensures
        r@ == request(method@, param@),
{
    let mut out = String::new();
    out.append("{\"method\":");
    out.append(quote(method).as_str());
    out.append(",\"param\":");
    out.append(param);
    out.append("}");
    assert(out@ =~= request(method@, param@));
    out
}

/// The text of an object with one text member.
pub fn single_text(name: &str, value: &str) -> (r: String)
    ensures
        r@ == single(name@, value@),
{
    let mut out = String::new();
    out.append("{\"");
    out.append(name);
    out.append("\":");
    out.append(quote(value).as_str());
    out.append("}");
    assert(out@ =~= single(name@, value@));
    out
}

/// Some texts, each as a JSON string.
pub open spec fn quoted_each(items: Seq<Seq<char>>) -> Seq<Seq<char>> {
    items.map_values(|s: Seq<char>| quoted(s))
}

/// A JSON list of texts.
pub open spec fn list(items: Seq<Seq<char>>) -> Seq<char> {
    "["@ + joined(quoted_each(items), ","@) + "]"@
}

/// The text of a JSON list of texts.
pub fn list_text(items: &Vec<String>) -> (r: String)
    ensures
        r@ == list(views(items@)),
{
    let mut parts: Vec<String> = Vec::new();
    let mut i: usize = 0;
    while i < items.len()
        invariant
            i <= items.len(),
            views(parts@) == quoted_each(views(items@)).take(i as int),
        decreases items.len() - i,
    {
        let ghost before = parts@;
        let part = quote(items[i].as_str());
        parts.push(part);
        proof {
            let all = quoted_each(views(items@));
            assert(views(parts@) =~= views(before).push(part@));
            assert(all.take(i + 1) =~= all.take(i as int).push(all[i as int]));
        }
        i = i + 1;
    }
    assert(views(parts@) =~= quoted_each(views(items@)));
    let mut out = String::new();
    out.append("[");
    out.append(join(&parts, ",").as_str());
    out.append("]");
    assert(out@ =~= list(views(items@)));
    out
}

/// The request that keeps a connection alive.
pub fn ping_text() -> (r: String)
    ensures
        r@ == "{\"method\":\"ping\"}"@,
{
    "{\"method\":\"ping\"}".to_string()
}

/// A text member of an object is found under its name; where there is none, or where
/// it is no text, it reads as empty.
pub proof fn law_only_texts_are_read(members: Map<Seq<char>, Json>, name: Seq<char>, s: Seq<char>)
    ensures
        text_or_empty(Json::Object(members.insert(name, Json::Text(s))), name) == s,
        text_member(Json::Object(members.insert(name, Json::Text(s))), name) == Some(s),
        !members.contains_key(name) ==> text_or_empty(Json::Object(members), name) == Seq::<
            char,
        >::empty() && text_member(Json::Object(members), name) is None,
        members.contains_key(name) && !(members[name] is Text) ==> text_or_empty(
            Json::Object(members),
            name,
        ) == Seq::<char>::empty() && text_member(Json::Object(members), name) is None,
        text_or_empty(Json::Text(s), name) == Seq::<char>::empty(),
        text_or_empty(Json::Other, name) == Seq::<char>::empty(),
{
}

/// The characters need no escapes in a JSON string.
pub open spec fn is_plain(s: Seq<char>) -> bool {
    forall|i: int| 0 <= i < s.len() ==> s[i] != '"' && s[i] != '\\' && s[i] as int >= 32
}

/// A request of plain texts is written as they stand.
pub proof fn law_request_is_an_object(method: Seq<char>, name: Seq<char>, value: Seq<char>)
    requires
        is_plain(method),
        is_plain(value),
    ensures
        request(method, single(name, value)) == "{\"method\":\""@ + method
            + "\",\"param\":{\""@ + name + "\":\""@ + value + "\"}}"@,
        request(method, "{}"@) == "{\"method\":\""@ + method + "\",\"param\":{}}"@,
{
    law_plain_text_is_only_quoted(method);
    law_plain_text_is_only_quoted(value);
    reveal_strlit("{\"method\":");
    reveal_strlit(",\"param\":");
    reveal_strlit("}");
    reveal_strlit("{\"");
    reveal_strlit("\":");
    reveal_strlit("{}");
    reveal_strlit("{\"method\":\"");
    reveal_strlit("\",\"param\":{\"");
    reveal_strlit("\":\"");
    reveal_strlit("\"}}");
    reveal_strlit("\",\"param\":{}}");
    assert(request(method, single(name, value)) =~= "{\"method\":\""@ + method
        + "\",\"param\":{\""@ + name + "\":\""@ + value + "\"}}"@);
    assert(request(method, "{}"@) =~= "{\"method\":\""@ + method + "\",\"param\":{}}"@);
}

/// A list of plain texts is written with a comma between every two of them.
pub proof fn law_list_separates_its_items(items: Seq<Seq<char>>, x: Seq<char>)
    requires
        is_plain(x),
    ensures
        list(Seq::empty()) == "[]"@,
        list(seq![x]) == "[\""@ + x + "\"]"@,
        items.len() > 0 ==> list(items.push(x)) == list(items).drop_last() + ",\""@ + x + "\"]"@,
{
    law_plain_text_is_only_quoted(x);
    law_joining_separates_neighbours(quoted_each(items), quoted(x), ","@);
    assert(quoted_each(items.push(x)) =~= quoted_each(items).push(quoted(x)));
    assert(quoted_each(seq![x]) =~= seq![quoted(x)]);
    assert(quoted_each(Seq::empty()) =~= Seq::<Seq<char>>::empty());
    reveal_strlit("[");
    reveal_strlit("]");
    reveal_strlit(",");
    reveal_strlit("[]");
    reveal_strlit("[\"");
    reveal_strlit("\"]");
    reveal_strlit(",\"");
    assert(list(Seq::empty()) =~= "[]"@);
    assert(list(seq![x]) =~= "[\""@ + x + "\"]"@);
    if items.len() > 0 {
        assert(list(items.push(x)) =~= list(items).drop_last() + ",\""@ + x + "\"]"@);
    }
}

/// Only objects have members and only lists have items; a member is found under its
/// name and the first item at the front.
pub proof fn law_members_and_items_are_found(
    members: Map<Seq<char>, Json>,
    name: Seq<char>,
    x: Json,
    rest: Seq<Json>,
    d: Double,
    s: Seq<char>,
)
    ensures
        member(Json::Object(members.insert(name, x)), name) == Some(x),
        !members.contains_key(name) ==> member(Json::Object(members), name) is None,
        !(x is Object) ==> member(x, name) is None,
        first_item(Json::List(seq![x] + rest)) == Some(x),
        first_item(Json::List(Seq::empty())) is None,
        !(x is List) ==> first_item(x) is None,
        number_in(Json::Number(d)) == Some(d),
        !(x is Number) ==> number_in(x) is None,
        text_in(Json::Text(s)) == Some(s),
        !(x is Text) ==> text_in(x) is None,
{
    assert((seq![x] + rest)[0] == x);
}

/// A request holds its parameter as it is, right before its end, and the method as a
/// JSON string; an object with one member holds its value as a JSON string.
pub proof fn law_requests_hold_their_parts(
    method: Seq<char>,
    param: Seq<char>,
    name: Seq<char>,
    value: Seq<char>,
    items: Seq<Seq<char>>,
)
    ensures
        request(method, param) == request(method, Seq::empty()).drop_last() + param + seq!['}'],
        request(method, Seq::empty()) == "{\"method\":"@ + quoted(method) + ",\"param\":}"@,
        single(name, value) == "{\""@ + name + "\":"@ + quoted(value) + seq!['}'],
        list(seq![value]) == seq!['['] + quoted(value) + seq![']'],
        items.len() > 0 ==> list(items.push(value)) == list(items).drop_last() + seq![','] + quoted(
            value,
        ) + seq![']'],
{
    reveal_strlit("}");
    reveal_strlit(",\"param\":");
    reveal_strlit(",\"param\":}");
    reveal_strlit("[");
    reveal_strlit("]");
    reveal_strlit(",");
    assert(request(method, Seq::empty()) =~= "{\"method\":"@ + quoted(method) + ",\"param\":}"@);
    assert(request(method, param) =~= request(method, Seq::empty()).drop_last() + param + seq!['}']);
    assert(single(name, value) =~= "{\""@ + name + "\":"@ + quoted(value) + seq!['}']);
    law_joining_separates_neighbours(quoted_each(items), quoted(value), ","@);
    assert(quoted_each(items.push(value)) =~= quoted_each(items).push(quoted(value)));
    assert(quoted_each(seq![value]) =~= seq![quoted(value)]);
    assert(list(seq![value]) =~= seq!['['] + quoted(value) + seq![']']);
    if items.len() > 0 {
        assert(list(items.push(value)) =~= list(items).drop_last() + seq![','] + quoted(value)
            + seq![']']);
    }
}

} // verus!
