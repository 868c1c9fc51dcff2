//! What the library needs of `serde_json` beyond its individual decoders:
//! writing a progress record.
use vstd::prelude::*;

use crate::session::terminal_json;

verus! {

/// The compact JSON text that `serde_json` gives an object whose members
/// are the given names and string values.
pub uninterp spec fn json_object_text(members: Seq<(Seq<char>, Seq<char>)>) -> Seq<char>;

pub open spec fn member_views(members: Seq<(String, String)>) -> Seq<(Seq<char>, Seq<char>)> {
    members.map_values(|m: (String, String)| (m.0@, m.1@))
}

/// The value of the last member named `name`, if there is one.
pub open spec fn member_value(members: Seq<(Seq<char>, Seq<char>)>, name: Seq<char>) -> Option<Seq<char>>
    decreases members.len(),
{
    if members.len() == 0 {
        None
    } else if members.last().0 == name {
        Some(members.last().1)
    } else {
        member_value(members.drop_last(), name)
    }
}

/// No two members share a name.
pub open spec fn distinct_names(members: Seq<(Seq<char>, Seq<char>)>) -> bool {
    forall|i: int, j: int| 0 <= i < j < members.len() ==> #[trigger] members[i].0 != #[trigger] members[j].0
}

/// A JSON object on one line: it opens with `{`, closes with `}`, and holds
/// neither a line feed nor a carriage return.
pub open spec fn one_object_line(t: Seq<char>) -> bool {
    &&& t.len() >= 2
    &&& t[0] == '{'
    &&& t.last() == '}'
    &&& forall|i: int| 0 <= i < t.len() ==> #[trigger] t[i] != '\n' && t[i] != '\r'
}

/// Text that `serde_json` writes into a string as it stands: no quote, no
/// backslash and no control character below U+0020.
pub open spec fn unescaped(s: Seq<char>) -> bool {
    forall|i: int| 0 <= i < s.len() ==> #[trigger] s[i] != '"' && s[i] != '\\' && (s[i] as u32) >= 0x20
}

/// A `serde_json::Map` of the members as `Value::String`s, shown with
/// `Value::to_string`. The compact writer puts the object between braces
/// and escapes line feeds and carriage returns inside strings, so the text
/// is one line; read back with `serde_json::from_str`, an object with
/// distinct member names gives each member's value again; a single member
/// whose name and value need no escaping is written `{"name":"value"}`.
#[verifier::external_body]
pub(crate) fn json_object(members: &Vec<(String, String)>) -> (res: String)
    ensures
        res@ == json_object_text(member_views(members@)),
        one_object_line(res@),
        distinct_names(member_views(members@)) ==> terminal_json(res@) == Some(
            (member_value(member_views(members@), "phase"@), member_value(member_views(members@), "message"@)),
        ),
        members@.len() == 1 && unescaped(members@[0].0@) && unescaped(members@[0].1@) ==> res@ == "{\""@
            + members@[0].0@ + "\":\""@ + members@[0].1@ + "\"}"@,
{
    let map: serde_json::Map<String, serde_json::Value> =
        members.iter().map(|(k, v)| (k.clone(), serde_json::Value::String(v.clone()))).collect();
    serde_json::Value::Object(map).to_string()
}

} // verus!
