//! The wire encoders: JSON bodies as the routes answer them, specified to
//! the character. Amounts are embedded as their canonical decimal text,
//! timestamps as RFC 3339 text, identifiers as JSON strings with the
//! escaping JSON demands.
use vstd::prelude::*;

use crate::model::{Agreement, ReportResult, StandardScore, Status};
use crate::text::push_char;
use crate::time::{format_rfc3339, rfc3339_of};

verus! {

/// The sixteen lowercase hexadecimal digits.
pub open spec fn hex_digit(v: int) -> char {
    seq!['0', '1', '2', '3', '4', '5', '6', '7', '8', '9', 'a', 'b', 'c', 'd', 'e', 'f'][v]
}

/// How one character appears inside a JSON string: quote and backslash are
/// escaped, control characters take the `\u00..` form, all else stands as
/// it is.
pub open spec fn escape_char(c: char) -> Seq<char> {
    if c == '"' {
        seq!['\\', '"']
    } else if c == '\\' {
        seq!['\\', '\\']
    } else if (c as int) < 32 {
        seq!['\\', 'u', '0', '0', hex_digit((c as int) / 16), hex_digit((c as int) % 16)]
    } else {
        seq![c]
    }
}

/// The body of a JSON string: every character escaped as JSON demands.
pub open spec fn json_escaped(s: Seq<char>) -> Seq<char>
    decreases s.len(),
{
    if s.len() == 0 {
        Seq::empty()
    } else {
        json_escaped(s.drop_last()) + escape_char(s.last())
    }
}

/// A JSON string: the escaped body in quotes.
pub open spec fn json_string(s: Seq<char>) -> Seq<char> {
    seq!['"'] + json_escaped(s) + seq!['"']
}

/// The JSON body of one status, camel-cased, amounts as decimal strings,
/// timestamps as RFC 3339 strings; the optional fields appear only when
/// present.
pub open spec fn spec_status_json(st: Status) -> Seq<char> {
    "{\"requested\":\""@ + st.requested@ + "\",\"accepted\":\""@ + st.accepted@
        + "\",\"confirmed\":\""@ + st.confirmed@ + "\",\"ts\":\""@ + rfc3339_of(st.ts.ms as int)
        + "\""@ + (if st.payment_due_ts is Some {
        ",\"paymentDueTs\":\""@ + rfc3339_of(st.payment_due_ts->0.ms as int) + "\""@
    } else {
        Seq::<char>::empty()
    }) + (if st.payment is Some {
        ",\"payment\":"@ + st.payment->0@
    } else {
        Seq::<char>::empty()
    }) + "}"@
}

/// The JSON body of one listed agreement.
pub open spec fn spec_agreement_json(a: Agreement) -> Seq<char> {
    "{\"agreementId\":"@ + json_string(a.agreement_id@) + ",\"peerId\":"@ + json_string(a.peer_id@)
        + ",\"createdTs\":\""@ + rfc3339_of(a.created_ts.ms as int) + "\",\"status\":"@
        + spec_status_json(a.status) + "}"@
}

/// The comma-joined elements of the agreement array.
pub open spec fn spec_agreements_inner(items: Seq<Agreement>) -> Seq<char>
    decreases items.len(),
{
    if items.len() == 0 {
        Seq::empty()
    } else if items.len() == 1 {
        spec_agreement_json(items[0])
    } else {
        spec_agreements_inner(items.drop_last()) + ","@ + spec_agreement_json(items.last())
    }
}

/// The JSON array of listed agreements.
pub open spec fn spec_agreements_json(items: Seq<Agreement>) -> Seq<char> {
    "["@ + spec_agreements_inner(items) + "]"@
}

/// The comma-joined elements of the node-identifier array.
pub open spec fn spec_nodes_inner(items: Seq<String>) -> Seq<char>
    decreases items.len(),
{
    if items.len() == 0 {
        Seq::empty()
    } else if items.len() == 1 {
        json_string(items[0]@)
    } else {
        spec_nodes_inner(items.drop_last()) + ","@ + json_string(items.last()@)
    }
}

/// The JSON array of node identifiers.
pub open spec fn spec_nodes_json(items: Seq<String>) -> Seq<char> {
    "["@ + spec_nodes_inner(items) + "]"@
}

/// The JSON body of a report outcome.
pub open spec fn spec_report_result_json(r: ReportResult) -> Seq<char> {
    match r {
        ReportResult::Okay {} => "{\"ok\":{}}"@,
        ReportResult::UnknownAgreement {} => "{\"unknownAgreement\":{}}"@,
    }
}

/// The JSON body of a score answer: the decimal as a string, or null.
pub open spec fn spec_score_json(s: StandardScore) -> Seq<char> {
    if s.score is Some {
        "{\"score\":\""@ + s.score->0@ + "\"}"@
    } else {
        "{\"score\":null}"@
    }
}

fn hex_digit_char(v: u32) -> (c: char)
    requires
        v < 16,
    ensures
        c == hex_digit(v as int),
{
    if v == 0 {
        '0'
    } else if v == 1 {
        '1'
    } else if v == 2 {
        '2'
    } else if v == 3 {
        '3'
    } else if v == 4 {
        '4'
    } else if v == 5 {
        '5'
    } else if v == 6 {
        '6'
    } else if v == 7 {
        '7'
    } else if v == 8 {
        '8'
    } else if v == 9 {
        '9'
    } else if v == 10 {
        'a'
    } else if v == 11 {
        'b'
    } else if v == 12 {
        'c'
    } else if v == 13 {
        'd'
    } else if v == 14 {
        'e'
    } else {
        'f'
    }
}

/// Appends the escaped body of `s` to `out`.
fn append_json_escaped(out: &mut String, s: &str)
    ensures
        final(out)@ == old(out)@ + json_escaped(s@),
{
    let n = s.unicode_len();
    let mut i: usize = 0;
    proof {
        assert(s@.take(0) =~= Seq::<char>::empty());
        assert(out@ =~= out@ + json_escaped(s@.take(0)));
    }
    while i < n
        invariant
            0 <= i <= n,
            n == s@.len(),
            out@ == old(out)@ + json_escaped(s@.take(i as int)),
        decreases n - i,
    {
        let c = s.get_char(i);
        if c == '"' {
            push_char(out, '\\');
            push_char(out, '"');
        } else if c == '\\' {
            push_char(out, '\\');
            push_char(out, '\\');
        } else if (c as u32) < 32 {
            let v = c as u32;
            push_char(out, '\\');
            push_char(out, 'u');
            push_char(out, '0');
            push_char(out, '0');
            push_char(out, hex_digit_char(v / 16));
            push_char(out, hex_digit_char(v % 16));
        } else {
            push_char(out, c);
        }
        proof {
            assert(s@.take(i + 1).drop_last() =~= s@.take(i as int));
            assert(s@.take(i + 1).last() == s@[i as int]);
            assert(out@ =~= old(out)@ + json_escaped(s@.take(i + 1)));
        }
        i = i + 1;
    }
    proof {
        assert(s@.take(n as int) =~= s@);
    }
}

/// Appends `s` as a JSON string, quotes and escaping included.
fn append_json_string(out: &mut String, s: &str)
    ensures
        final(out)@ == old(out)@ + json_string(s@),
{
    push_char(out, '"');
    append_json_escaped(out, s);
    push_char(out, '"');
    proof {
        assert(out@ =~= old(out)@ + json_string(s@));
    }
}

/// Writes one status as its JSON body.
pub fn encode_status(st: &Status) -> (r: String)
    requires
        st.wf(),
    ensures
        r@ == spec_status_json(*st),
{
    let mut out = String::new();
    out.append("{\"requested\":\"");
    out.append(st.requested.as_str());
    out.append("\",\"accepted\":\"");
    out.append(st.accepted.as_str());
    out.append("\",\"confirmed\":\"");
    out.append(st.confirmed.as_str());
    out.append("\",\"ts\":\"");
    let ts_text = format_rfc3339(st.ts.ms);
    out.append(ts_text.as_str());
    out.append("\"");
    match &st.payment_due_ts {
        Some(t) => {
            out.append(",\"paymentDueTs\":\"");
            let due_text = format_rfc3339(t.ms);
            out.append(due_text.as_str());
            out.append("\"");
        },
        None => {},
    }
    match &st.payment {
        Some(p) => {
            out.append(",\"payment\":");
            out.append(p.as_str());
        },
        None => {},
    }
    out.append("}");
    proof {
        assert(out@ =~= spec_status_json(*st));
    }
    out
}

/// Writes one listed agreement as its JSON body.
pub fn encode_agreement(a: &Agreement) -> (r: String)
    requires
        a.status.wf(),
        a.created_ts.wf(),
    ensures
        r@ == spec_agreement_json(*a),
{
    let mut out = String::new();
    out.append("{\"agreementId\":");
    append_json_string(&mut out, a.agreement_id.as_str());
    out.append(",\"peerId\":");
    append_json_string(&mut out, a.peer_id.as_str());
    out.append(",\"createdTs\":\"");
    let ts_text = format_rfc3339(a.created_ts.ms);
    out.append(ts_text.as_str());
    out.append("\",\"status\":");
    let status_text = encode_status(&a.status);
    out.append(status_text.as_str());
    out.append("}");
    proof {
        assert(out@ =~= spec_agreement_json(*a));
    }
    out
}

/// Writes the agreement listing as its JSON array.
pub fn encode_agreements(items: &Vec<Agreement>) -> (r: String)
    requires
        forall|j: int|
            0 <= j < items@.len() ==> (#[trigger] items@[j]).status.wf()
                && items@[j].created_ts.wf(),
    ensures
        r@ == spec_agreements_json(items@),
{
    let mut out = String::new();
    out.append("[");
    let mut i: usize = 0;
    proof {
        assert(items@.take(0) =~= Seq::<Agreement>::empty());
        assert(out@ =~= "["@ + spec_agreements_inner(items@.take(0)));
    }
    while i < items.len()
        invariant
            0 <= i <= items@.len(),
            forall|j: int|
                0 <= j < items@.len() ==> (#[trigger] items@[j]).status.wf()
                    && items@[j].created_ts.wf(),
            out@ == "["@ + spec_agreements_inner(items@.take(i as int)),
        decreases items@.len() - i,
    {
        if i > 0 {
            out.append(",");
        }
        let item_text = encode_agreement(&items[i]);
        out.append(item_text.as_str());
        proof {
            assert(items@.take(i + 1).drop_last() =~= items@.take(i as int));
            assert(items@.take(i + 1).last() == items@[i as int]);
            assert(out@ =~= "["@ + spec_agreements_inner(items@.take(i + 1)));
        }
        i = i + 1;
    }
    out.append("]");
    proof {
        assert(items@.take(items@.len() as int) =~= items@);
        assert(out@ =~= spec_agreements_json(items@));
    }
    out
}

/// Writes the node listing as its JSON array.
pub fn encode_nodes(items: &Vec<String>) -> (r: String)
    ensures
        r@ == spec_nodes_json(items@),
{
    let mut out = String::new();
    out.append("[");
    let mut i: usize = 0;
    proof {
        assert(items@.take(0) =~= Seq::<String>::empty());
        assert(out@ =~= "["@ + spec_nodes_inner(items@.take(0)));
    }
    while i < items.len()
        invariant
            0 <= i <= items@.len(),
            out@ == "["@ + spec_nodes_inner(items@.take(i as int)),
        decreases items@.len() - i,
    {
        if i > 0 {
            out.append(",");
        }
        append_json_string(&mut out, items[i].as_str());
        proof {
            assert(items@.take(i + 1).drop_last() =~= items@.take(i as int));
            assert(items@.take(i + 1).last() == items@[i as int]);
            assert(out@ =~= "["@ + spec_nodes_inner(items@.take(i + 1)));
        }
        i = i + 1;
    }
    out.append("]");
    proof {
        assert(items@.take(items@.len() as int) =~= items@);
        assert(out@ =~= spec_nodes_json(items@));
    }
    out
}

/// Writes a report outcome as its JSON body.
pub fn encode_report_result(r: &ReportResult) -> (out: String)
    ensures
        out@ == spec_report_result_json(*r),
{
    match r {
        ReportResult::Okay {} => String::from_str("{\"ok\":{}}"),
        ReportResult::UnknownAgreement {} => String::from_str("{\"unknownAgreement\":{}}"),
    }
}

/// Writes a score answer as its JSON body.
pub fn encode_score(s: &StandardScore) -> (r: String)
    ensures
        r@ == spec_score_json(*s),
{
    let mut out = String::new();
    match &s.score {
        Some(a) => {
            out.append("{\"score\":\"");
            out.append(a.as_str());
            out.append("\"}");
        },
        None => {
            out.append("{\"score\":null}");
        },
    }
    proof {
        assert(out@ =~= spec_score_json(*s));
    }
    out
}

} // verus!
