//! Reading the JSON that `gh pr view --json ...` prints.
//!
//! The fields are read the way a typed decoding of the object reads them:
//! `number` must be a non-negative integer; `title`, `url`, `state` and
//! `headRefName` are strings that default to empty; `baseRefName` is a string
//! that defaults to `main`; `mergeCommit` is absent, `null`, or an object
//! whose `oid` is absent, `null` or a string. Other members are ignored.

use vstd::prelude::*;

use crate::error::{GwError, GwErrorView};
use crate::github::json::{find_member, json_parse, lookup, members_view, parse_json, JsonValue, JsonValueView};
use crate::github::types::{RawPrData, RawPrDataView};
use crate::text::cat3;

verus! {

/// A string member: its text, the default when absent, or the reason it is unreadable.
pub open spec fn string_field(
    members: Seq<(Seq<char>, Seq<char>)>,
    key: Seq<char>,
    default: Seq<char>,
) -> Result<Seq<char>, Seq<char>> {
    match lookup(members, key) {
        None => Ok(default),
        Some(t) => match json_parse(t) {
            Some(JsonValueView::Str(s)) => Ok(s),
            _ => Err("invalid type for field `"@ + key + "`, expected a string"@),
        },
    }
}

/// The `number` member, or the reason it is missing or unreadable.
pub open spec fn number_field(members: Seq<(Seq<char>, Seq<char>)>) -> Result<u64, Seq<char>> {
    match lookup(members, "number"@) {
        None => Err("missing field `number`"@),
        Some(t) => match json_parse(t) {
            Some(JsonValueView::Number(Some(n))) => Ok(n),
            _ => Err("invalid type for field `number`, expected u64"@),
        },
    }
}

/// The `mergeCommit.oid` member, or the reason it is unreadable.
pub open spec fn merge_commit_field(members: Seq<(Seq<char>, Seq<char>)>) -> Result<
    Option<Seq<char>>,
    Seq<char>,
> {
    match lookup(members, "mergeCommit"@) {
        None => Ok(None),
        Some(t) => match json_parse(t) {
            Some(JsonValueView::Null) => Ok(None),
            Some(JsonValueView::Object(inner)) => match lookup(inner, "oid"@) {
                None => Ok(None),
                Some(t2) => match json_parse(t2) {
                    Some(JsonValueView::Null) => Ok(None),
                    Some(JsonValueView::Str(s)) => Ok(Some(s)),
                    _ => Err("invalid type for field `oid`, expected a string"@),
                },
            },
            _ => Err("invalid type for field `mergeCommit`, expected an object"@),
        },
    }
}

/// The fields of the members, or the reason of the first unreadable one.
pub open spec fn fields_of(members: Seq<(Seq<char>, Seq<char>)>) -> Result<RawPrDataView, Seq<char>> {
    let number = number_field(members);
    let title = string_field(members, "title"@, Seq::empty());
    let url = string_field(members, "url"@, Seq::empty());
    let state = string_field(members, "state"@, Seq::empty());
    let base = string_field(members, "baseRefName"@, "main"@);
    let head = string_field(members, "headRefName"@, Seq::empty());
    let merge = merge_commit_field(members);
    if number is Err {
        Err(number->Err_0)
    } else if title is Err {
        Err(title->Err_0)
    } else if url is Err {
        Err(url->Err_0)
    } else if state is Err {
        Err(state->Err_0)
    } else if base is Err {
        Err(base->Err_0)
    } else if head is Err {
        Err(head->Err_0)
    } else if merge is Err {
        Err(merge->Err_0)
    } else {
        Ok(
            RawPrDataView {
                number: number->Ok_0,
                title: title->Ok_0,
                url: url->Ok_0,
                state: state->Ok_0,
                base_branch: base->Ok_0,
                head_branch: head->Ok_0,
                merge_commit: merge->Ok_0,
            },
        )
    }
}

/// The pull request that a `gh pr view --json` text describes, or the reason it cannot be read.
pub open spec fn pr_json_result(text: Seq<char>) -> Result<RawPrDataView, Seq<char>> {
    match json_parse(text) {
        None => Err("invalid JSON"@),
        Some(JsonValueView::Object(members)) => fields_of(members),
        Some(_) => Err("expected a JSON object"@),
    }
}

/// The error reported for an unreadable text.
pub open spec fn pr_json_error(reason: Seq<char>, text: Seq<char>) -> GwErrorView {
    GwErrorView::Other("Failed to parse PR JSON: "@ + reason + ". Raw: "@ + text)
}

pub(crate) fn read_string(members: &Vec<(String, String)>, key: &str, default: &str) -> (r: Result<String, String>)
    ensures
        match r {
            Ok(s) => string_field(members_view(members@), key@, default@) == Ok::<Seq<char>, Seq<char>>(s@),
            Err(e) => string_field(members_view(members@), key@, default@) == Err::<Seq<char>, Seq<char>>(e@),
        },
{
    match find_member(members, key) {
        None => Ok(default.to_string()),
        Some(t) => match parse_json(t.as_str()) {
            Some(JsonValue::Str(s)) => Ok(s),
            _ => Err(cat3("invalid type for field `", key, "`, expected a string")),
        },
    }
}

pub(crate) fn read_number(members: &Vec<(String, String)>) -> (r: Result<u64, String>)
    ensures
        match r {
            Ok(n) => number_field(members_view(members@)) == Ok::<u64, Seq<char>>(n),
            Err(e) => number_field(members_view(members@)) == Err::<u64, Seq<char>>(e@),
        },
{
    match find_member(members, "number") {
        None => Err("missing field `number`".to_string()),
        Some(t) => match parse_json(t.as_str()) {
            Some(JsonValue::Number(Some(n))) => Ok(n),
            _ => Err("invalid type for field `number`, expected u64".to_string()),
        },
    }
}

fn read_merge_commit(members: &Vec<(String, String)>) -> (r: Result<Option<String>, String>)
    ensures
        match r {
            Ok(o) => merge_commit_field(members_view(members@)) == Ok::<Option<Seq<char>>, Seq<char>>(
                crate::error::opt_view(o),
            ),
            Err(e) => merge_commit_field(members_view(members@)) == Err::<Option<Seq<char>>, Seq<char>>(
                e@,
            ),
        },
{
    match find_member(members, "mergeCommit") {
        None => Ok(None),
        Some(t) => match parse_json(t.as_str()) {
            Some(JsonValue::Null) => Ok(None),
            Some(JsonValue::Object(inner)) => match find_member(&inner, "oid") {
                None => Ok(None),
                Some(t2) => match parse_json(t2.as_str()) {
                    Some(JsonValue::Null) => Ok(None),
                    Some(JsonValue::Str(s)) => Ok(Some(s)),
                    _ => Err("invalid type for field `oid`, expected a string".to_string()),
                },
            },
            _ => Err("invalid type for field `mergeCommit`, expected an object".to_string()),
        },
    }
}

fn read_fields(members: &Vec<(String, String)>) -> (r: Result<RawPrData, String>)
    ensures
        match r {
            Ok(raw) => fields_of(members_view(members@)) == Ok::<RawPrDataView, Seq<char>>(raw@),
            Err(e) => fields_of(members_view(members@)) == Err::<RawPrDataView, Seq<char>>(e@),
        },
{
    proof {
        reveal_strlit("");
    }
    let number = match read_number(members) {
        Ok(v) => v,
        Err(e) => {
            return Err(e);
        },
    };
    let title = match read_string(members, "title", "") {
        Ok(v) => v,
        Err(e) => {
            return Err(e);
        },
    };
    let url = match read_string(members, "url", "") {
        Ok(v) => v,
        Err(e) => {
            return Err(e);
        },
    };
    let state = match read_string(members, "state", "") {
        Ok(v) => v,
        Err(e) => {
            return Err(e);
        },
    };
    let base_branch = match read_string(members, "baseRefName", "main") {
        Ok(v) => v,
        Err(e) => {
            return Err(e);
        },
    };
    let head_branch = match read_string(members, "headRefName", "") {
        Ok(v) => v,
        Err(e) => {
            return Err(e);
        },
    };
    let merge_commit = match read_merge_commit(members) {
        Ok(v) => v,
        Err(e) => {
            return Err(e);
        },
    };
    let ghost m = members_view(members@);
    assert(""@ =~= Seq::<char>::empty());
    assert(number_field(m) == Ok::<u64, Seq<char>>(number));
    assert(string_field(m, "title"@, Seq::empty()) == Ok::<Seq<char>, Seq<char>>(title@));
    assert(string_field(m, "baseRefName"@, "main"@) == Ok::<Seq<char>, Seq<char>>(base_branch@));
    assert(merge_commit_field(m) == Ok::<Option<Seq<char>>, Seq<char>>(crate::error::opt_view(merge_commit)));
    Ok(RawPrData { number, title, url, state, base_branch, head_branch, merge_commit })
}

/// Read the pull request that `gh pr view --json ...` printed.
pub fn parse_pr_json(json: &str) -> (r: Result<RawPrData, GwError>)
    ensures
        match pr_json_result(json@) {
            Ok(raw) => r matches Ok(got) && got@ == raw,
            Err(reason) => r matches Err(e) && e@ == pr_json_error(reason, json@),
        },
{
    let fields = match parse_json(json) {
        None => Err("invalid JSON".to_string()),
        Some(JsonValue::Object(members)) => read_fields(&members),
        Some(_) => Err("expected a JSON object".to_string()),
    };
    match fields {
        Ok(raw) => Ok(raw),
        Err(reason) => {
            let head = cat3("Failed to parse PR JSON: ", reason.as_str(), ". Raw: ");
            Err(GwError::Other(crate::text::cat(head.as_str(), json)))
        },
    }
}

} // verus!
