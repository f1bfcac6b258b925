//! Asking the issue tracker which entries it already holds for a work
//! package, and reading its answer.

use vstd::prelude::*;
use vstd::string::*;
use crate::decimal::{decimal, is_digit, lemma_decimal_digits};
use crate::openproject::{comment_separator, comment_text};
use crate::reconcile::texts;

verus! {

/// A JSON value.
#[derive(Debug)]
pub enum Json {
    Null,
    Bool(bool),
    /// A number, as the text that stands for it.
    Number(String),
    Text(String),
    Array(Vec<Json>),
    /// The members of an object, each with its key.
    Object(Vec<(String, Json)>),
}

/// Why the issue tracker's answer could not be read.
#[derive(Clone, Debug, PartialEq, Eq)]
pub enum LookupError {
    /// The answer is no JSON text; the parser's message is kept.
    InvalidJson(String),
    /// The answer lists no time entries under `_embedded` and `elements`,
    /// or a comment in it is no text or lacks the separator.
    UnexpectedResponseShape,
}

/// A JSON value as the serde_json crate holds it.
#[verifier::external_type_specification]
#[verifier::external_body]
pub struct ExJsonValue(serde_json::Value);

/// The JSON value that the serde_json crate reads from `text`; `None` where
/// it reads none.
pub uninterp spec fn json_of_text(text: Seq<char>) -> Option<Json>;

/// What a value of serde_json holds.
pub uninterp spec fn json_contents(value: serde_json::Value) -> Json;

/// Calls `serde_json::from_str` for a `Value`. What the value holds is what
/// serde_json reads from the text; where it reads nothing, the message of
/// its error comes back.
#[verifier::external_body]
fn json_value_from_text(text: &str) -> (r: Result<serde_json::Value, String>)
    ensures
        match r {
            Ok(value) => json_of_text(text@) == Some(json_contents(value)),
            Err(_) => json_of_text(text@) is None,
        },
{
    serde_json::from_str::<serde_json::Value>(text).map_err(|e| e.to_string())
}

/// Tells the variants of `serde_json::Value` apart and hands over what each
/// holds: a number as serde_json writes it, the members of an object in the
/// order in which serde_json walks them.
#[verifier::external_body]
fn json_of_value(value: &serde_json::Value) -> (r: Json)
    ensures
        r == json_contents(*value),
{
    match value {
        serde_json::Value::Null => Json::Null,
        serde_json::Value::Bool(b) => Json::Bool(*b),
        serde_json::Value::Number(n) => Json::Number(n.to_string()),
        serde_json::Value::String(s) => Json::Text(s.clone()),
        serde_json::Value::Array(a) => Json::Array(a.iter().map(json_of_value).collect()),
        serde_json::Value::Object(o) => Json::Object(
            o.iter().map(|(k, v)| (k.clone(), json_of_value(v))).collect(),
        ),
    }
}

/// Whether the separator stands at index `i` of `s`.
pub open spec fn separator_at(s: Seq<char>, i: int) -> bool {
    0 <= i && i + 3 <= s.len() && s[i] == ' ' && s[i + 1] == '-' && s[i + 2] == ' '
}

/// The index of the first separator in `s` at or after `from`.
pub open spec fn first_separator(s: Seq<char>, from: int) -> Option<int>
    decreases s.len() - from,
{
    if from < 0 || from + 3 > s.len() {
        None
    } else if separator_at(s, from) {
        Some(from)
    } else {
        first_separator(s, from + 1)
    }
}

/// What stands before the first separator of a comment: the identifier
/// under which the time tracker knows the entry. `None` where the comment
/// holds no separator.
pub open spec fn toggl_id_of_comment(comment: Seq<char>) -> Option<Seq<char>> {
    match first_separator(comment, 0) {
        Some(i) => Some(comment.subrange(0, i)),
        None => None,
    }
}

/// The query for the time entries of one work package, at most a hundred.
pub open spec fn existing_ids_query(work_package_id: Seq<char>) -> Seq<char> {
    "time_entries?pageSize=100&filters=[{\"work_package\":{\"operator\":\"=\",\"values\":[\""@
        + work_package_id + "\"]}}]"@
}

/// The first member of `members` under `key`.
pub open spec fn first_member(members: Seq<(String, Json)>, key: Seq<char>, from: int) -> Option<
    Json,
>
    decreases members.len() - from,
{
    if from < 0 || from >= members.len() {
        None
    } else if members[from].0@ == key {
        Some(members[from].1)
    } else {
        first_member(members, key, from + 1)
    }
}

/// The member of the object `json` under `key`; `None` where `json` is no
/// object or has no such member.
pub open spec fn member(json: Json, key: Seq<char>) -> Option<Json> {
    match json {
        Json::Object(members) => first_member(members@, key, 0),
        _ => None,
    }
}

/// The member under `inner` of the member under `outer`.
pub open spec fn nested_member(json: Json, outer: Seq<char>, inner: Seq<char>) -> Option<Json> {
    match member(json, outer) {
        Some(m) => member(m, inner),
        None => None,
    }
}

/// The time entries that an answer lists: the array under `_embedded` and
/// `elements`. `None` where `_embedded` is missing, or `elements` is
/// missing or no array.
pub open spec fn listed_elements(response: Json) -> Option<Seq<Json>> {
    match nested_member(response, "_embedded"@, "elements"@) {
        Some(Json::Array(elements)) => Some(elements@),
        _ => None,
    }
}

/// What one listed time entry says of where it comes from. `Some(Some(id))`
/// where its comment holds the identifier `id`; `Some(None)` where it has no
/// comment, as an entry that was booked by hand has none to give; `None`
/// where its comment is no text or holds no separator.
pub open spec fn element_id(element: Json) -> Option<Option<Seq<char>>> {
    match nested_member(element, "comment"@, "raw"@) {
        None => Some(None),
        Some(Json::Text(comment)) => match toggl_id_of_comment(comment@) {
            Some(id) => Some(Some(id)),
            None => None,
        },
        Some(_) => None,
    }
}

/// The identifiers that the comments of `elements` hold, in order. An
/// element without a comment is passed over. `None` where a comment is no
/// text or holds no separator.
pub open spec fn ids_of_elements(elements: Seq<Json>) -> Option<Seq<Seq<char>>>
    decreases elements.len(),
{
    if elements.len() == 0 {
        Some(Seq::empty())
    } else {
        match ids_of_elements(elements.drop_last()) {
            None => None,
            Some(ids) => match element_id(elements.last()) {
                None => None,
                Some(None) => Some(ids),
                Some(Some(id)) => Some(ids.push(id)),
            },
        }
    }
}

/// The identifiers that an answer holds; `None` where it lists no time
/// entries under `_embedded` and `elements`, or a comment cannot be read.
pub open spec fn ids_of_response(response: Json) -> Option<Seq<Seq<char>>> {
    match listed_elements(response) {
        Some(elements) => ids_of_elements(elements),
        None => None,
    }
}

/// The message for a lookup of the work package `work_package_id` that
/// failed with `error`.
pub open spec fn lookup_error_text(work_package_id: Seq<char>, error: LookupError) -> Seq<char> {
    match error {
        LookupError::InvalidJson(message) => "Error parsing time entries JSON for WP #"@
            + work_package_id + ": "@ + message@,
        LookupError::UnexpectedResponseShape => "Unexpected shape of time entries JSON for WP #"@
            + work_package_id,
    }
}

/// A list can be read if and only if each of its elements can, and then
/// holds exactly the identifiers that its elements hold.
pub proof fn lemma_ids_of_elements(elements: Seq<Json>)
    ensures
        ids_of_elements(elements) is Some <==> forall|i: int|
            0 <= i < elements.len() ==> element_id(#[trigger] elements[i]) is Some,
        ids_of_elements(elements) is Some ==> forall|id: Seq<char>|
            ids_of_elements(elements).unwrap().contains(id) <==> exists|i: int|
                0 <= i < elements.len() && element_id(#[trigger] elements[i]) == Some(Some(id)),
    decreases elements.len(),
{
    if elements.len() > 0 {
        let head = elements.drop_last();
        let last = elements.last();
        lemma_ids_of_elements(head);
        assert forall|i: int| 0 <= i < head.len() implies head[i] == elements[i] by {}
        if ids_of_elements(elements) is Some {
            let before = ids_of_elements(head).unwrap();
            let ids = ids_of_elements(elements).unwrap();
            assert forall|i: int| 0 <= i < elements.len() implies element_id(
                #[trigger] elements[i],
            ) is Some by {
                if i < head.len() {
                    assert(element_id(head[i]) is Some);
                }
            }
            assert forall|id: Seq<char>| ids.contains(id) <==> exists|i: int|
                0 <= i < elements.len() && element_id(#[trigger] elements[i]) == Some(
                    Some(id),
                ) by {
                if ids.contains(id) {
                    let k = choose|k: int| 0 <= k < ids.len() && ids[k] == id;
                    if k < before.len() {
                        assert(before[k] == id);
                        assert(before.contains(id));
                        let i = choose|i: int|
                            0 <= i < head.len() && element_id(#[trigger] head[i]) == Some(Some(id));
                        assert(element_id(elements[i]) == Some(Some(id)));
                    } else {
                        assert(element_id(elements[elements.len() - 1]) == Some(Some(id)));
                    }
                }
                if exists|i: int|
                    0 <= i < elements.len() && element_id(#[trigger] elements[i]) == Some(
                        Some(id),
                    ) {
                    let i = choose|i: int|
                        0 <= i < elements.len() && element_id(#[trigger] elements[i]) == Some(
                            Some(id),
                        );
                    if i < head.len() {
                        assert(element_id(head[i]) == Some(Some(id)));
                        assert(before.contains(id));
                        let k = choose|k: int| 0 <= k < before.len() && before[k] == id;
                        assert(ids[k] == id);
                    } else {
                        assert(ids[before.len() as int] == id);
                    }
                }
            }
        } else {
            if forall|i: int| 0 <= i < elements.len() ==> element_id(#[trigger] elements[i]) is Some {
                assert forall|i: int| 0 <= i < head.len() implies element_id(
                    #[trigger] head[i],
                ) is Some by {
                    assert(element_id(elements[i]) is Some);
                }
                assert(element_id(elements[elements.len() - 1]) is Some);
                assert(false);
            }
        }
    }
}

/// Once a comment cannot be read, no longer list can be read either.
pub proof fn lemma_ids_of_elements_fail(elements: Seq<Json>, n: int)
    requires
        0 <= n <= elements.len(),
        ids_of_elements(elements.take(n)) is None,
    ensures
        ids_of_elements(elements) is None,
    decreases elements.len() - n,
{
    if n < elements.len() {
        assert(elements.take(n + 1).drop_last() =~= elements.take(n));
        lemma_ids_of_elements_fail(elements, n + 1);
    } else {
        assert(elements.take(n) =~= elements);
    }
}

/// No separator before `to`, and one at `to`, make `to` the first.
pub proof fn lemma_first_separator(s: Seq<char>, from: int, to: int)
    requires
        0 <= from <= to,
        separator_at(s, to),
        forall|i: int| from <= i < to ==> !separator_at(s, i),
    ensures
        first_separator(s, from) == Some(to),
    decreases to - from,
{
    if from < to {
        lemma_first_separator(s, from + 1, to);
    }
}

/// The comment written for an entry gives back the entry's identifier,
/// whatever the description holds.
pub proof fn lemma_comment_round_trip(toggl_id: u64, description: Seq<char>)
    ensures
        toggl_id_of_comment(comment_text(toggl_id, description)) == Some(decimal(toggl_id as nat)),
{
    let id = decimal(toggl_id as nat);
    let s = comment_text(toggl_id, description);
    lemma_decimal_digits(toggl_id as nat);
    let k = id.len() as int;
    assert(s[k] == comment_separator()[0]);
    assert(s[k + 1] == comment_separator()[1]);
    assert(s[k + 2] == comment_separator()[2]);
    assert forall|i: int| 0 <= i < k implies !separator_at(s, i) by {
        assert(s[i] == id[i]);
        assert(is_digit(id[i]));
    }
    lemma_first_separator(s, 0, k);
    assert(s.subrange(0, k) =~= id);
}

/// A listed time entry whose comment was written for the identifier
/// `toggl_id` gives the numeral of `toggl_id`.
pub proof fn lemma_posted_element(
    element: Json,
    comment: String,
    toggl_id: u64,
    description: Seq<char>,
)
    requires
        nested_member(element, "comment"@, "raw"@) == Some(Json::Text(comment)),
        comment@ == comment_text(toggl_id, description),
    ensures
        element_id(element) == Some(Some(decimal(toggl_id as nat))),
{
    lemma_comment_round_trip(toggl_id, description);
}

/// An answer that lists an entry under the comment written for the
/// identifier `toggl_id` holds the numeral of `toggl_id` among its
/// identifiers: what was posted once is found by the next lookup.
pub proof fn lemma_posted_entry_is_found(
    elements: Seq<Json>,
    i: int,
    comment: String,
    toggl_id: u64,
    description: Seq<char>,
)
    requires
        0 <= i < elements.len(),
        nested_member(elements[i], "comment"@, "raw"@) == Some(Json::Text(comment)),
        comment@ == comment_text(toggl_id, description),
        ids_of_elements(elements) is Some,
    ensures
        ids_of_elements(elements).unwrap().contains(decimal(toggl_id as nat)),
{
    lemma_posted_element(elements[i], comment, toggl_id, description);
    lemma_ids_of_elements(elements);
}

/// The query for the time entries of the work package `wp_id`.
pub fn existing_ids_path(wp_id: &str) -> (r: String)
    ensures
        r@ == existing_ids_query(wp_id@),
{
    let head =
        "time_entries?pageSize=100&filters=[{\"work_package\":{\"operator\":\"=\",\"values\":[\"";
    String::from_str(head).concat(wp_id).concat("\"]}}]")
}

/// What stands before the first separator of `comment`, or `None` where it
/// holds no separator.
pub fn toggl_id_from_comment(comment: &str) -> (r: Option<String>)
    ensures
        match r {
            Some(id) => toggl_id_of_comment(comment@) == Some(id@),
            None => toggl_id_of_comment(comment@) is None,
        },
{
    let len = comment.unicode_len();
    let mut i: usize = 0;
    while i < len && len - i >= 3
        invariant
            i <= len,
            len == comment@.len(),
            forall|j: int| 0 <= j < i ==> !separator_at(comment@, j),
        decreases len - i,
    {
        if comment.get_char(i) == ' ' && comment.get_char(i + 1) == '-' && comment.get_char(i + 2)
            == ' ' {
            proof {
                lemma_first_separator(comment@, 0, i as int);
            }
            return Some(String::from_str(comment.substring_char(0, i)));
        }
        i += 1;
    }
    proof {
        if i > 0 {
            lemma_first_separator_none_after(comment@, 0, i as int);
        }
    }
    None
}

/// No separator before `to`, and no room for one from `to` on, leave none to find.
pub proof fn lemma_first_separator_none_after(s: Seq<char>, from: int, to: int)
    requires
        0 <= from <= to,
        to + 3 > s.len(),
        forall|i: int| from <= i < to ==> !separator_at(s, i),
    ensures
        first_separator(s, from) is None,
    decreases to - from,
{
    if from < to {
        lemma_first_separator_none_after(s, from + 1, to);
    }
}

/// The member of the object `json` under `key`.
pub fn get_member<'a>(json: &'a Json, key: &str) -> (r: Option<&'a Json>)
    ensures
        match r {
            Some(m) => member(*json, key@) == Some(*m),
            None => member(*json, key@) is None,
        },
{
    match json {
        Json::Object(members) => {
            let wanted = String::from_str(key);
            let mut i: usize = 0;
            while i < members.len()
                invariant
                    i <= members.len(),
                    wanted@ == key@,
                    member(*json, key@) == first_member(members@, key@, 0),
                    first_member(members@, key@, 0) == first_member(members@, key@, i as int),
                decreases members.len() - i,
            {
                if members[i].0 == wanted {
                    assert(members@[i as int].0@ == key@);
                    assert(first_member(members@, key@, i as int) == Some(members@[i as int].1));
                    return Some(&members[i].1);
                }
                i += 1;
            }
            None
        },
        _ => None,
    }
}

/// The member under `inner` of the member under `outer`.
pub fn get_nested_member<'a>(json: &'a Json, outer: &str, inner: &str) -> (r: Option<&'a Json>)
    ensures
        match r {
            Some(m) => nested_member(*json, outer@, inner@) == Some(*m),
            None => nested_member(*json, outer@, inner@) is None,
        },
{
    match get_member(json, outer) {
        Some(m) => get_member(m, inner),
        None => None,
    }
}

/// Reads from an answer of the issue tracker the identifiers under which
/// the time tracker knows the entries that it lists. A listed entry without
/// a comment is passed over. An answer that lists no entries under
/// `_embedded` and `elements`, not even an empty array, cannot be read, nor
/// can one with a comment that is no text or holds no separator.
pub fn toggl_ids_of_response(response: &Json) -> (r: Result<Vec<String>, LookupError>)
    ensures
        match r {
            Ok(ids) => ids_of_response(*response) == Some(texts(ids@)),
            Err(e) => e == LookupError::UnexpectedResponseShape && ids_of_response(
                *response,
            ) is None,
        },
{
    let mut out: Vec<String> = Vec::new();
    match get_nested_member(response, "_embedded", "elements") {
        Some(Json::Array(elements)) => {
            let mut i: usize = 0;
            assert(texts(out@) =~= Seq::<Seq<char>>::empty());
            while i < elements.len()
                invariant
                    i <= elements.len(),
                    listed_elements(*response) == Some(elements@),
                    ids_of_elements(elements@.take(i as int)) == Some(texts(out@)),
                decreases elements.len() - i,
            {
                let ghost before = texts(out@);
                assert(elements@.take(i + 1).drop_last() =~= elements@.take(i as int));
                assert(elements@.take(i + 1).last() == elements@[i as int]);
                match get_nested_member(&elements[i], "comment", "raw") {
                    None => {},
                    Some(Json::Text(comment)) => match toggl_id_from_comment(comment.as_str()) {
                        Some(id) => {
                            out.push(id);
                            assert(texts(out@) =~= before.push(id@));
                        },
                        None => {
                            proof {
                                lemma_ids_of_elements_fail(elements@, i + 1);
                            }
                            return Err(LookupError::UnexpectedResponseShape);
                        },
                    },
                    Some(_) => {
                        proof {
                            lemma_ids_of_elements_fail(elements@, i + 1);
                        }
                        return Err(LookupError::UnexpectedResponseShape);
                    },
                }
                i += 1;
            }
            assert(elements@.take(i as int) =~= elements@);
            Ok(out)
        },
        _ => Err(LookupError::UnexpectedResponseShape),
    }
}

/// Reads the JSON text `text`.
pub fn parse_json(text: &str) -> (r: Result<Json, LookupError>)
    ensures
        match r {
            Ok(json) => json_of_text(text@) == Some(json),
            Err(e) => e is InvalidJson && json_of_text(text@) is None,
        },
{
    match json_value_from_text(text) {
        Ok(value) => Ok(json_of_value(&value)),
        Err(message) => Err(LookupError::InvalidJson(message)),
    }
}

/// Reads from the body of an answer of the issue tracker the identifiers
/// under which the time tracker knows the entries that it lists.
pub fn get_existing_toggl_ids(body: &str) -> (r: Result<Vec<String>, LookupError>)
    ensures
        match r {
            Ok(ids) => match json_of_text(body@) {
                Some(response) => ids_of_response(response) == Some(texts(ids@)),
                None => false,
            },
            Err(LookupError::InvalidJson(_)) => json_of_text(body@) is None,
            Err(LookupError::UnexpectedResponseShape) => match json_of_text(body@) {
                Some(response) => ids_of_response(response) is None,
                None => false,
            },
        },
{
    match parse_json(body) {
        Ok(response) => toggl_ids_of_response(&response),
        Err(e) => Err(e),
    }
}

/// The message for a lookup of the work package `wp_id` that failed with
/// `error`: it names the work package and, for a body that is no JSON, what
/// the parser said.
pub fn lookup_error_message(wp_id: &str, error: &LookupError) -> (r: String)
    ensures
        r@ == lookup_error_text(wp_id@, *error),
{
    match error {
        LookupError::InvalidJson(message) => String::from_str(
            "Error parsing time entries JSON for WP #",
        ).concat(wp_id).concat(": ").concat(message.as_str()),
        LookupError::UnexpectedResponseShape => String::from_str(
            "Unexpected shape of time entries JSON for WP #",
        ).concat(wp_id),
    }
}

} // verus!
