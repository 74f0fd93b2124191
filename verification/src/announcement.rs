//! What a listener announces itself with, and what a dialer reads of it.
//!
//! An announcement is a JSON object: the listener's sequence number under
//! `ID`, its address as the one element of `Addrs`, and, where it offers
//! content, the content's identifier under `Cid`.

use vstd::prelude::*;

verus! {

/// A JSON value of `serde_json`.
#[verifier::external_type_specification]
#[verifier::external_body]
pub struct ExValue(serde_json::Value);

/// What a JSON value holds.
pub enum Json {
    Null,
    /// A whole number from zero up.
    Natural(nat),
    Text(Seq<char>),
    List(Seq<Json>),
    Members(Map<Seq<char>, Json>),
    /// Any other number, or a truth value.
    Other,
}

/// What `value` holds.
pub uninterp spec fn json_content(value: serde_json::Value) -> Json;

impl Json {
    /// The member called `key`; null where there is none.
    pub open spec fn member(self, key: Seq<char>) -> Json {
        match self {
            Json::Members(members) if members.contains_key(key) => members[key],
            _ => Json::Null,
        }
    }

    /// The element at `index`; null where there is none.
    pub open spec fn element(self, index: int) -> Json {
        match self {
            Json::List(elements) if 0 <= index < elements.len() => elements[index],
            _ => Json::Null,
        }
    }

    /// The text that this is, if it is one.
    pub open spec fn text(self) -> Option<Seq<char>> {
        match self {
            Json::Text(text) => Some(text),
            _ => None,
        }
    }
}

/// The members that a row of keys and values makes, where no key comes twice.
pub open spec fn members_of(entries: Seq<(String, serde_json::Value)>) -> Map<Seq<char>, Json>
    decreases entries.len(),
{
    if entries.len() == 0 {
        Map::empty()
    } else {
        members_of(entries.drop_last()).insert(
            entries.last().0@,
            json_content(entries.last().1),
        )
    }
}

/// `serde_json::Value::from(u64)`: a whole number.
#[verifier::external_body]
fn json_natural(number: u64) -> (value: serde_json::Value)
    ensures
        json_content(value) == Json::Natural(number as nat),
{
    serde_json::Value::from(number)
}

/// `serde_json::Value::from(String)`: a text.
#[verifier::external_body]
fn json_text(text: String) -> (value: serde_json::Value)
    ensures
        json_content(value) == Json::Text(text@),
{
    serde_json::Value::from(text)
}

/// `serde_json::Value::from(Vec<Value>)`: an array of the given elements, in order.
#[verifier::external_body]
fn json_list(elements: Vec<serde_json::Value>) -> (value: serde_json::Value)
    ensures
        json_content(value) == Json::List(
            elements@.map_values(|element: serde_json::Value| json_content(element)),
        ),
{
    serde_json::Value::from(elements)
}

/// Collecting pairs into a `serde_json::Value`: an object with the given
/// members. Which value stays under a key that comes twice is not said, so
/// none may.
#[verifier::external_body]
fn json_object(entries: Vec<(String, serde_json::Value)>) -> (value: serde_json::Value)
    requires
        forall|i: int, j: int|
            0 <= i < j < entries@.len() ==> (#[trigger] entries@[i]).0@ != (
            #[trigger] entries@[j]).0@,
    ensures
        json_content(value) == Json::Members(members_of(entries@)),
{
    entries.into_iter().collect::<serde_json::Value>()
}

/// Indexing a `serde_json::Value` by a key: the member of that name, or null
/// where the value is no object or has no such member.
#[verifier::external_body]
fn json_member<'a>(value: &'a serde_json::Value, key: &str) -> (member: &'a serde_json::Value)
    ensures
        json_content(*member) == json_content(*value).member(key@),
{
    &value[key]
}

/// Indexing a `serde_json::Value` by a position: the element there, or null
/// where the value is no array or ends before it.
#[verifier::external_body]
fn json_element<'a>(value: &'a serde_json::Value, index: usize) -> (element: &'a serde_json::Value)
    ensures
        json_content(*element) == json_content(*value).element(index as int),
{
    &value[index]
}

/// `serde_json::Value::as_str`: the text that the value is, if it is one.
#[verifier::external_body]
fn json_as_str(value: &serde_json::Value) -> (text: Option<&str>)
    ensures
        match json_content(*value).text() {
            Some(t) => text matches Some(s) && s@ == t,
            None => text is None,
        },
{
    value.as_str()
}

/// The announcement of the listener with sequence number `seq` at `addr`,
/// offering the content `cid`, if any.
pub open spec fn announcement_of(seq: u64, addr: Seq<char>, cid: Option<Seq<char>>) -> Json {
    let plain = Map::<Seq<char>, Json>::empty().insert(
        "ID"@,
        Json::Natural(seq as nat),
    ).insert("Addrs"@, Json::List(seq![Json::Text(addr)]));
    match cid {
        None => Json::Members(plain),
        Some(text) => Json::Members(plain.insert("Cid"@, Json::Text(text))),
    }
}

/// The address that an announcement gives.
pub open spec fn address_in(announcement: Json) -> Option<Seq<char>> {
    announcement.member("Addrs"@).element(0).text()
}

/// The content identifier that an announcement gives.
pub open spec fn cid_in(announcement: Json) -> Option<Seq<char>> {
    announcement.member("Cid"@).text()
}

/// A text that may be absent, by its view.
pub open spec fn text_view(text: Option<String>) -> Option<Seq<char>> {
    match text {
        Some(t) => Some(t@),
        None => None,
    }
}

/// Makes an announcement.
pub fn announcement(seq: u64, addr: String, cid: Option<String>) -> (value: serde_json::Value)
    ensures
        json_content(value) == announcement_of(seq, addr@, text_view(cid)),
{
    let mut addrs: Vec<serde_json::Value> = Vec::new();
    addrs.push(json_text(addr));
    let list: serde_json::Value = json_list(addrs);
    assert(json_content(list)->List_0 =~= seq![Json::Text(addr@)]);

    let mut entries: Vec<(String, serde_json::Value)> = Vec::new();
    let ghost none = entries@;
    entries.push(("ID".to_owned(), json_natural(seq)));
    assert(entries@.drop_last() =~= none);
    let ghost one = entries@;
    entries.push(("Addrs".to_owned(), list));
    assert(entries@.drop_last() =~= one);
    let ghost two = entries@;
    proof {
        reveal_with_fuel(members_of, 4);
        reveal_strlit("ID");
        reveal_strlit("Addrs");
        reveal_strlit("Cid");
        assert("ID"@.len() == 2);
        assert("Addrs"@.len() == 5);
        assert("Cid"@.len() == 3);
    }
    match cid {
        Some(text) => {
            entries.push(("Cid".to_owned(), json_text(text)));
            assert(entries@.drop_last() =~= two);
        },
        None => {},
    }
    json_object(entries)
}

/// Reads the text that a value is.
fn read_text(value: &serde_json::Value) -> (text: Option<String>)
    ensures
        text_view(text) == json_content(*value).text(),
{
    match json_as_str(value) {
        Some(s) => Some(s.to_owned()),
        None => None,
    }
}

/// Reads the address that an announcement gives.
pub fn announced_address(announcement: &serde_json::Value) -> (addr: Option<String>)
    ensures
        text_view(addr) == address_in(json_content(*announcement)),
{
    read_text(json_element(json_member(announcement, "Addrs"), 0))
}

/// Reads the content identifier that an announcement gives.
pub fn announced_cid(announcement: &serde_json::Value) -> (cid: Option<String>)
    ensures
        text_view(cid) == cid_in(json_content(*announcement)),
{
    read_text(json_member(announcement, "Cid"))
}

/// What a dialer reads of an announcement is what the listener put in it.
pub proof fn law_announcement_reads_back(seq: u64, addr: Seq<char>, cid: Option<Seq<char>>)
    ensures
        address_in(announcement_of(seq, addr, cid)) == Some(addr),
        cid_in(announcement_of(seq, addr, cid)) == cid,
        announcement_of(seq, addr, cid).member("ID"@) == Json::Natural(seq as nat),
{
    reveal_strlit("ID");
    reveal_strlit("Addrs");
    reveal_strlit("Cid");
    assert("ID"@.len() == 2);
    assert("Addrs"@.len() == 5);
    assert("Cid"@.len() == 3);
}

/// An announcement holds the sequence number, a list of one address and, where
/// content is offered, its identifier, and nothing else.
pub proof fn law_announcement_holds_no_more(seq: u64, addr: Seq<char>, cid: Option<Seq<char>>)
    ensures
        announcement_of(seq, addr, cid) matches Json::Members(members) && {
            &&& members.contains_pair("ID"@, Json::Natural(seq as nat))
            &&& members.contains_key("Addrs"@)
            &&& members["Addrs"@] matches Json::List(addrs) && addrs.len() == 1 && addrs[0]
                == Json::Text(addr)
            &&& members.contains_key("Cid"@) == (cid is Some)
            &&& cid matches Some(text) ==> members["Cid"@] == Json::Text(text)
            &&& forall|key: Seq<char>| #[trigger]
                members.contains_key(key) ==> key == "ID"@ || key == "Addrs"@ || key == "Cid"@
        },
{
    reveal_strlit("ID");
    reveal_strlit("Addrs");
    reveal_strlit("Cid");
    assert("ID"@.len() == 2);
    assert("Addrs"@.len() == 5);
    assert("Cid"@.len() == 3);
}

/// The address in a JSON value is the text that comes first in the list under
/// `Addrs`, whole, and there is none in any other value; the identifier is the
/// text under `Cid`.
pub proof fn law_read_where_it_stands(value: Json, text: Seq<char>)
    ensures
        address_in(value) == Some(text) <==> (value matches Json::Members(members)
            && members.contains_key("Addrs"@) && (members["Addrs"@] matches Json::List(addrs)
            && addrs.len() > 0 && addrs[0] == Json::Text(text))),
        cid_in(value) == Some(text) <==> (value matches Json::Members(members)
            && members.contains_key("Cid"@) && members["Cid"@] == Json::Text(text)),
{
}

/// A text that is there is that text, and one that is absent stays absent.
pub proof fn law_text_view(text: String)
    ensures
        text_view(Some(text)) == Some(text@),
        text_view(None) is None,
{
}

} // verus!
