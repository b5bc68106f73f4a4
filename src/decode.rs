//! Reading the service's reply into an [`Address`].
//!
//! The reply is an object with an integer `status`, a `message` that is a
//! string, `null` or absent, and `results`, an array of objects with eight
//! string members. A member of any other name makes the reply unreadable.
use vstd::prelude::*;
use vstd::string::*;
use crate::json::{Json, json_text, parse_json};
use crate::model::{Address, AddressView, Detail, DetailView, details_view, opt_text_view};

verus! {

/// Why a reply could not be read.
#[derive(Clone, Copy, Debug, PartialEq, Eq)]
pub enum DecodeError {
    /// The body is not JSON, or nests more than 128 levels deep.
    NotJson,
    /// The body is JSON, but not of the reply's shape.
    Schema,
}

/// The value of the first member of `m` named `key`.
pub open spec fn member(m: Seq<(String, Json)>, key: Seq<char>) -> Option<Json>
    decreases m.len(),
{
    if m.len() == 0 {
        None
    } else if m[0].0@ == key {
        Some(m[0].1)
    } else {
        member(m.drop_first(), key)
    }
}

/// The text of the member `key` of `m`, where it is a string.
pub open spec fn text_member(m: Seq<(String, Json)>, key: Seq<char>) -> Option<Seq<char>> {
    match member(m, key) {
        Some(Json::Text(s)) => Some(s@),
        _ => None,
    }
}

/// The detail record that `j` holds, if it is one.
pub open spec fn detail_of(j: Json) -> Option<DetailView> {
    match j {
        Json::Object(m) => {
            let m = m@;
            if members_within(m, detail_names()) && text_member(m, "zipcode"@) is Some
                && text_member(m, "prefcode"@) is Some
                && text_member(m, "address1"@) is Some && text_member(m, "address2"@) is Some
                && text_member(m, "address3"@) is Some && text_member(m, "kana1"@) is Some
                && text_member(m, "kana2"@) is Some && text_member(m, "kana3"@) is Some {
                Some(
                    DetailView {
                        zipcode: text_member(m, "zipcode"@)->0,
                        prefcode: text_member(m, "prefcode"@)->0,
                        address1: text_member(m, "address1"@)->0,
                        address2: text_member(m, "address2"@)->0,
                        address3: text_member(m, "address3"@)->0,
                        kana1: text_member(m, "kana1"@)->0,
                        kana2: text_member(m, "kana2"@)->0,
                        kana3: text_member(m, "kana3"@)->0,
                    },
                )
            } else {
                None
            }
        },
        _ => None,
    }
}

/// The member names of a detail record.
pub open spec fn detail_names() -> Seq<Seq<char>> {
    seq![
        "zipcode"@,
        "prefcode"@,
        "address1"@,
        "address2"@,
        "address3"@,
        "kana1"@,
        "kana2"@,
        "kana3"@,
    ]
}

/// The member names of a reply.
pub open spec fn address_names() -> Seq<Seq<char>> {
    seq!["status"@, "message"@, "results"@]
}

/// True when every member of `m` has one of the names `names`.
pub open spec fn members_within(m: Seq<(String, Json)>, names: Seq<Seq<char>>) -> bool {
    forall|i: int| 0 <= i < m.len() ==> names.contains(#[trigger] m[i].0@)
}

/// The detail records that `items` hold, if every item is one.
pub open spec fn details_of(items: Seq<Json>) -> Option<Seq<DetailView>>
    decreases items.len(),
{
    if items.len() == 0 {
        Some(Seq::empty())
    } else {
        match (details_of(items.drop_last()), detail_of(items.last())) {
            (Some(ds), Some(d)) => Some(ds.push(d)),
            _ => None,
        }
    }
}

/// The `status` member of `m`, where it is an integer that fits `i32`.
pub open spec fn status_of(m: Seq<(String, Json)>) -> Option<int> {
    match member(m, "status"@) {
        Some(Json::Number(Some(n))) => if i32::MIN <= n && n <= i32::MAX {
            Some(n as int)
        } else {
            None
        },
        _ => None,
    }
}

/// The `message` member of `m`: `Some(None)` where it is absent or null,
/// `None` where it is neither that nor a string.
pub open spec fn message_of(m: Seq<(String, Json)>) -> Option<Option<Seq<char>>> {
    match member(m, "message"@) {
        None => Some(None),
        Some(Json::Null) => Some(None),
        Some(Json::Text(s)) => Some(Some(s@)),
        _ => None,
    }
}

/// The `results` member of `m`, where it is an array of detail records.
pub open spec fn results_of(m: Seq<(String, Json)>) -> Option<Seq<DetailView>> {
    match member(m, "results"@) {
        Some(Json::Array(items)) => details_of(items@),
        _ => None,
    }
}

/// The reply that `j` holds, if it has the reply's shape.
pub open spec fn address_of(j: Json) -> Option<AddressView> {
    match j {
        Json::Object(m) => {
            let m = m@;
            if members_within(m, address_names()) && status_of(m) is Some && message_of(m)
                is Some && results_of(m) is Some {
                Some(
                    AddressView {
                        status: status_of(m)->0,
                        message: message_of(m)->0,
                        results: results_of(m)->0,
                    },
                )
            } else {
                None
            }
        },
        _ => None,
    }
}

/// The reply that the bytes `body` hold, or why there is none.
pub open spec fn reply_of(body: Seq<u8>) -> Result<AddressView, DecodeError> {
    match json_text(body) {
        None => Err(DecodeError::NotJson),
        Some(j) => match address_of(j) {
            Some(a) => Ok(a),
            None => Err(DecodeError::Schema),
        },
    }
}

/// The index of the first member of `m` named `key`.
fn find_member(m: &Vec<(String, Json)>, key: &str) -> (r: Option<usize>)
    ensures
        match r {
            Some(i) => i < m@.len() && member(m@, key@) == Some(m@[i as int].1),
            None => member(m@, key@) is None,
        },
{
    let wanted = String::from_str(key);
    let mut i: usize = 0;
    assert(m@.subrange(0, m@.len() as int) =~= m@);
    while i < m.len()
        invariant
            i <= m@.len(),
            wanted@ == key@,
            member(m@, key@) == member(m@.subrange(i as int, m@.len() as int), key@),
        decreases m@.len() - i,
    {
        let ghost rest = m@.subrange(i as int, m@.len() as int);
        if m[i].0 == wanted {
            return Some(i);
        }
        assert(rest.drop_first() =~= m@.subrange(i + 1, m@.len() as int));
        i = i + 1;
    }
    None
}

/// True when `key` is one of `names`.
fn is_name(key: &String, names: &Vec<String>) -> (r: bool)
    ensures
        r == names@.map_values(|s: String| s@).contains(key@),
{
    let ghost views = names@.map_values(|s: String| s@);
    let mut j: usize = 0;
    while j < names.len()
        invariant
            j <= names@.len(),
            views == names@.map_values(|s: String| s@),
            forall|k: int| 0 <= k < j ==> views[k] != key@,
        decreases names@.len() - j,
    {
        if *key == names[j] {
            assert(views[j as int] == key@);
            return true;
        }
        j = j + 1;
    }
    false
}

/// True when every member of `m` has one of the names `names`.
fn all_names_within(m: &Vec<(String, Json)>, names: &Vec<String>) -> (r: bool)
    ensures
        r == members_within(m@, names@.map_values(|s: String| s@)),
{
    let ghost views = names@.map_values(|s: String| s@);
    let mut i: usize = 0;
    while i < m.len()
        invariant
            i <= m@.len(),
            views == names@.map_values(|s: String| s@),
            forall|k: int| 0 <= k < i ==> views.contains(#[trigger] m@[k].0@),
        decreases m@.len() - i,
    {
        if !is_name(&m[i].0, names) {
            assert(!views.contains(m@[i as int].0@));
            return false;
        }
        i = i + 1;
    }
    true
}

/// The text of the member `key` of `m`, where it is a string.
fn text_field(m: &Vec<(String, Json)>, key: &str) -> (r: Option<String>)
    ensures
        match r {
            Some(s) => text_member(m@, key@) == Some(s@),
            None => text_member(m@, key@) is None,
        },
{
    match find_member(m, key) {
        Some(i) => match &m[i].1 {
            Json::Text(s) => Some(s.clone()),
            _ => None,
        },
        None => None,
    }
}

/// The detail record that `j` holds, if it is one.
pub fn decode_detail(j: &Json) -> (r: Option<Detail>)
    ensures
        match detail_of(*j) {
            Some(d) => r is Some && r->0@ == d,
            None => r is None,
        },
{
    match j {
        Json::Object(m) => {
            let names = vec![
                String::from_str("zipcode"),
                String::from_str("prefcode"),
                String::from_str("address1"),
                String::from_str("address2"),
                String::from_str("address3"),
                String::from_str("kana1"),
                String::from_str("kana2"),
                String::from_str("kana3"),
            ];
            assert(names@.map_values(|s: String| s@) =~= detail_names());
            if !all_names_within(m, &names) {
                return None;
            }
            let zipcode = text_field(m, "zipcode");
            let prefcode = text_field(m, "prefcode");
            let address1 = text_field(m, "address1");
            let address2 = text_field(m, "address2");
            let address3 = text_field(m, "address3");
            let kana1 = text_field(m, "kana1");
            let kana2 = text_field(m, "kana2");
            let kana3 = text_field(m, "kana3");
            match (zipcode, prefcode, address1, address2, address3, kana1, kana2, kana3) {
                (
                    Some(zipcode),
                    Some(prefcode),
                    Some(address1),
                    Some(address2),
                    Some(address3),
                    Some(kana1),
                    Some(kana2),
                    Some(kana3),
                ) => Some(
                    Detail { zipcode, prefcode, address1, address2, address3, kana1, kana2, kana3 },
                ),
                _ => None,
            }
        },
        _ => None,
    }
}

proof fn lemma_details_prefix_fails(items: Seq<Json>, k: int)
    requires
        0 <= k <= items.len(),
        details_of(items.subrange(0, k)) is None,
    ensures
        details_of(items) is None,
    decreases items.len() - k,
{
    if k < items.len() {
        let longer = items.subrange(0, k + 1);
        assert(longer.drop_last() =~= items.subrange(0, k));
        lemma_details_prefix_fails(items, k + 1);
    } else {
        assert(items.subrange(0, k) =~= items);
    }
}

/// The detail records that `items` hold, if every item is one.
pub fn decode_details(items: &Vec<Json>) -> (r: Option<Vec<Detail>>)
    ensures
        match details_of(items@) {
            Some(ds) => r is Some && details_view(r->0@) == ds,
            None => r is None,
        },
{
    let mut out: Vec<Detail> = Vec::new();
    let mut i: usize = 0;
    assert(items@.subrange(0, 0) =~= Seq::<Json>::empty());
    assert(details_view(out@) =~= Seq::<DetailView>::empty());
    while i < items.len()
        invariant
            i <= items@.len(),
            details_of(items@.subrange(0, i as int)) == Some(details_view(out@)),
        decreases items@.len() - i,
    {
        let ghost prefix = items@.subrange(0, i as int + 1);
        assert(prefix.drop_last() =~= items@.subrange(0, i as int));
        assert(prefix.last() == items@[i as int]);
        match decode_detail(&items[i]) {
            Some(d) => {
                let ghost before = out@;
                out.push(d);
                assert(details_view(out@) =~= details_view(before).push(d@));
            },
            None => {
                proof {
                    lemma_details_prefix_fails(items@, i as int + 1);
                }
                return None;
            },
        }
        i = i + 1;
    }
    assert(items@.subrange(0, items@.len() as int) =~= items@);
    Some(out)
}

/// The integer `status` member of `m`, where it fits `i32`.
fn status_field(m: &Vec<(String, Json)>) -> (r: Option<i32>)
    ensures
        match status_of(m@) {
            Some(n) => r == Some(n as i32) && n == r->0 as int,
            None => r is None,
        },
{
    match find_member(m, "status") {
        Some(i) => match &m[i].1 {
            Json::Number(Some(n)) => if i32::MIN as i64 <= *n && *n <= i32::MAX as i64 {
                Some(*n as i32)
            } else {
                None
            },
            _ => None,
        },
        None => None,
    }
}

/// The `message` member of `m`: `Some(None)` where it is absent or null.
fn message_field(m: &Vec<(String, Json)>) -> (r: Option<Option<String>>)
    ensures
        match message_of(m@) {
            Some(t) => r is Some && opt_text_view(r->0) == t,
            None => r is None,
        },
{
    match find_member(m, "message") {
        Some(i) => match &m[i].1 {
            Json::Null => Some(None),
            Json::Text(s) => Some(Some(s.clone())),
            _ => None,
        },
        None => Some(None),
    }
}

/// The detail records of the `results` member of `m`.
fn results_field(m: &Vec<(String, Json)>) -> (r: Option<Vec<Detail>>)
    ensures
        match results_of(m@) {
            Some(ds) => r is Some && details_view(r->0@) == ds,
            None => r is None,
        },
{
    match find_member(m, "results") {
        Some(i) => match &m[i].1 {
            Json::Array(items) => decode_details(items),
            _ => None,
        },
        None => None,
    }
}

/// The reply that the JSON value `j` holds, if it has the reply's shape.
pub fn decode_json(j: &Json) -> (r: Option<Address>)
    ensures
        match address_of(*j) {
            Some(a) => r is Some && r->0@ == a,
            None => r is None,
        },
{
    match j {
        Json::Object(m) => {
            let names = vec![
                String::from_str("status"),
                String::from_str("message"),
                String::from_str("results"),
            ];
            assert(names@.map_values(|s: String| s@) =~= address_names());
            if !all_names_within(m, &names) {
                return None;
            }
            let status = status_field(m);
            let message = message_field(m);
            let results = results_field(m);
            match (status, message, results) {
                (Some(status), Some(message), Some(results)) => Some(
                    Address { status, message, results },
                ),
                _ => None,
            }
        },
        _ => None,
    }
}

/// The reply that a response body holds: `NotJson` where the body is not
/// JSON (or nests more than 128 levels deep), `Schema` where it is JSON of
/// another shape.
pub fn decode_address(body: &[u8]) -> (r: Result<Address, DecodeError>)
    ensures
        match reply_of(body@) {
            Ok(a) => r is Ok && r->Ok_0@ == a,
            Err(e) => r == Err::<Address, DecodeError>(e),
        },
{
    match parse_json(body) {
        Some(j) => match decode_json(&j) {
            Some(a) => Ok(a),
            None => Err(DecodeError::Schema),
        },
        None => Err(DecodeError::NotJson),
    }
}

/// The detail records of an array, where all of them can be read, are one
/// per item and in the items' order.
pub proof fn lemma_details_in_order(items: Seq<Json>)
    requires
        details_of(items) is Some,
    ensures
        details_of(items)->0.len() == items.len(),
        forall|i: int|
            0 <= i < items.len() ==> detail_of(#[trigger] items[i]) == Some(
                details_of(items)->0[i],
            ),
    decreases items.len(),
{
    if items.len() > 0 {
        let init = items.drop_last();
        lemma_details_in_order(init);
        assert forall|i: int| 0 <= i < items.len() implies detail_of(#[trigger] items[i]) == Some(
            details_of(items)->0[i],
        ) by {
            if i < items.len() - 1 {
                assert(items[i] == init[i]);
            }
        }
    }
}

/// An array with an item that is not a detail record has no detail records.
pub proof fn lemma_bad_item_fails(items: Seq<Json>, k: int)
    requires
        0 <= k < items.len(),
        detail_of(items[k]) is None,
    ensures
        details_of(items) is None,
{
    let prefix = items.subrange(0, k + 1);
    assert(prefix.drop_last() =~= items.subrange(0, k));
    assert(prefix.last() == items[k]);
    lemma_details_prefix_fails(items, k + 1);
}

/// A body whose `results` hold an item that is not a detail record (one
/// that lacks `zipcode`, say) is refused as being of the wrong shape.
pub proof fn lemma_bad_result_refused(
    body: Seq<u8>,
    m: Vec<(String, Json)>,
    items: Vec<Json>,
    k: int,
)
    requires
        json_text(body) == Some(Json::Object(m)),
        member(m@, "results"@) == Some(Json::Array(items)),
        0 <= k < items@.len(),
        detail_of(items@[k]) is None,
    ensures
        reply_of(body) == Err::<AddressView, DecodeError>(DecodeError::Schema),
{
    lemma_bad_item_fails(items@, k);
}

/// A body that is JSON but not of the reply's shape is refused as such:
/// one that is not an object, has a member of another name, lacks a status
/// that fits `i32`, has a message that is neither a string nor null, or
/// lacks an array of detail records under `results`.
pub proof fn lemma_mismatch_refused(body: Seq<u8>, j: Json)
    requires
        json_text(body) == Some(j),
        !(j is Object) || ({
            let m = j->Object_0@;
            ||| !members_within(m, address_names())
            ||| status_of(m) is None
            ||| message_of(m) is None
            ||| results_of(m) is None
        }),
    ensures
        reply_of(body) == Err::<AddressView, DecodeError>(DecodeError::Schema),
{
}

/// A body that is not JSON is refused as such.
pub proof fn lemma_not_json_refused(body: Seq<u8>)
    requires
        json_text(body) is None,
    ensures
        reply_of(body) == Err::<AddressView, DecodeError>(DecodeError::NotJson),
{
}

} // verus!
