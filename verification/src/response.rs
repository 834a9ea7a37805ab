//! The uniform response envelopes, rendered as exact JSON text with keys
//! in sorted order.

use vstd::prelude::*;

use crate::Response;
use crate::text::{dec_seq, int_seq, json_escaped, push_dec_u64, push_dec_i64, push_escaped};

verus! {

broadcast use vstd::string::group_string_axioms;

/// `{"data":<data>,"status":"success"}`
pub open spec fn ok_data_body(data: Seq<char>) -> Seq<char> {
    "{\"data\":"@ + data + ",\"status\":\"success\"}"@
}

/// `{"count":<count>,"data":[<items>],"status":"success"}`
pub open spec fn list_ok_body(count: nat, items: Seq<char>) -> Seq<char> {
    "{\"count\":"@ + dec_seq(count) + ",\"data\":["@ + items + "],\"status\":\"success\"}"@
}

/// `{"message":"<msg>","status":"error"}`
pub open spec fn error_body(msg: Seq<char>) -> Seq<char> {
    "{\"message\":\""@ + json_escaped(msg) + "\",\"status\":\"error\"}"@
}

/// `{"message":"<msg>","status":"not found"}`
pub open spec fn not_found_body(msg: Seq<char>) -> Seq<char> {
    "{\"message\":\""@ + json_escaped(msg) + "\",\"status\":\"not found\"}"@
}

/// `{"message":"<msg>","status":"success"}`
pub open spec fn message_ok_body(msg: Seq<char>) -> Seq<char> {
    "{\"message\":\""@ + json_escaped(msg) + "\",\"status\":\"success\"}"@
}

/// The renderings of `items` under `f`, joined with commas.
pub open spec fn joined<T>(items: Seq<T>, f: spec_fn(T) -> Seq<char>) -> Seq<char>
    decreases items.len(),
{
    if items.len() == 0 {
        Seq::empty()
    } else if items.len() == 1 {
        f(items[0])
    } else {
        joined(items.drop_last(), f) + seq![','] + f(items.last())
    }
}

pub proof fn lemma_joined_push<T>(items: Seq<T>, f: spec_fn(T) -> Seq<char>, x: T)
    ensures
        joined(items.push(x), f) == if items.len() == 0 {
            f(x)
        } else {
            joined(items, f) + seq![','] + f(x)
        },
{
    let t = items.push(x);
    assert(t.drop_last() =~= items);
    assert(t.last() == x);
    if items.len() == 0 {
        assert(t[0] == x);
    }
}

/// A timestamp column value: a number, or `null` where unset.
pub open spec fn opt_time_seq(o: Option<i64>) -> Seq<char> {
    match o {
        None => "null"@,
        Some(t) => int_seq(t as int),
    }
}

/// Appends a timestamp column value.
pub fn push_opt_time(out: &mut String, o: &Option<i64>)
    ensures
        final(out)@ == old(out)@ + opt_time_seq(*o),
{
    match o {
        None => out.append("null"),
        Some(t) => push_dec_i64(out, *t),
    }
}

/// A 200 envelope around already-rendered JSON data.
pub fn ok_data_response(data: &str) -> (r: Response)
    ensures
        r.status == 200,
        r.body@ == ok_data_body(data@),
{
    let mut b = "{\"data\":".to_owned();
    b.append(data);
    b.append(",\"status\":\"success\"}");
    Response { status: 200, body: b }
}

/// A 200 list envelope around a total count and already-rendered items.
pub fn list_ok_response(count: u64, items: &str) -> (r: Response)
    ensures
        r.status == 200,
        r.body@ == list_ok_body(count as nat, items@),
{
    let mut b = "{\"count\":".to_owned();
    push_dec_u64(&mut b, count);
    b.append(",\"data\":[");
    b.append(items);
    b.append("],\"status\":\"success\"}");
    Response { status: 200, body: b }
}

/// A 500 error envelope around a message.
pub fn error_response(msg: &str) -> (r: Response)
    ensures
        r.status == 500,
        r.body@ == error_body(msg@),
{
    let mut b = "{\"message\":\"".to_owned();
    push_escaped(&mut b, msg);
    b.append("\",\"status\":\"error\"}");
    Response { status: 500, body: b }
}

/// A 404 envelope around a message, with the `not found` status text.
pub fn not_found_response(msg: &str) -> (r: Response)
    ensures
        r.status == 404,
        r.body@ == not_found_body(msg@),
{
    let mut b = "{\"message\":\"".to_owned();
    push_escaped(&mut b, msg);
    b.append("\",\"status\":\"not found\"}");
    Response { status: 404, body: b }
}

/// A 200 envelope around a confirmation message.
pub fn message_ok_response(msg: &str) -> (r: Response)
    ensures
        r.status == 200,
        r.body@ == message_ok_body(msg@),
{
    let mut b = "{\"message\":\"".to_owned();
    push_escaped(&mut b, msg);
    b.append("\",\"status\":\"success\"}");
    Response { status: 200, body: b }
}

} // verus!
