//! A JSON encoder for the response envelope, specified character by
//! character: the output of each executable function equals a spec-level
//! rendering of its input.
//!
//! String contents are escaped as JSON requires: quote and backslash get a
//! backslash escape, the common control characters get their short escapes,
//! and the remaining control characters the `\u00XX` form.

use vstd::prelude::*;

use crate::model::{Departure, DepartureView, NexTripResponse, ScheduleRelationship};

verus! {

/// Relies on `String::push` from std: appends the given `char` to the end
/// of the `String`.
pub assume_specification[ String::push ](s: &mut String, c: char)
    ensures
        final(s)@ == old(s)@.push(c),
;

/// The lower-case hexadecimal digit for a value below sixteen.
pub open spec fn hex_digit_char(n: int) -> char {
    if n == 0 {
        '0'
    } else if n == 1 {
        '1'
    } else if n == 2 {
        '2'
    } else if n == 3 {
        '3'
    } else if n == 4 {
        '4'
    } else if n == 5 {
        '5'
    } else if n == 6 {
        '6'
    } else if n == 7 {
        '7'
    } else if n == 8 {
        '8'
    } else if n == 9 {
        '9'
    } else if n == 10 {
        'a'
    } else if n == 11 {
        'b'
    } else if n == 12 {
        'c'
    } else if n == 13 {
        'd'
    } else if n == 14 {
        'e'
    } else {
        'f'
    }
}

/// How one character of string content appears inside a JSON string.
pub open spec fn escape_char(c: char) -> Seq<char> {
    if c == '"' {
        seq!['\\', '"']
    } else if c == '\\' {
        seq!['\\', '\\']
    } else if c == '\n' {
        seq!['\\', 'n']
    } else if c == '\r' {
        seq!['\\', 'r']
    } else if c == '\t' {
        seq!['\\', 't']
    } else if (c as u32) < 32 {
        seq!['\\', 'u', '0', '0', hex_digit_char(c as int / 16), hex_digit_char(c as int % 16)]
    } else {
        seq![c]
    }
}

/// A whole string's content, escaped character by character.
pub open spec fn escape_seq(s: Seq<char>) -> Seq<char>
    decreases s.len(),
{
    if s.len() == 0 {
        Seq::empty()
    } else {
        escape_seq(s.drop_last()) + escape_char(s.last())
    }
}

/// A JSON string literal: the escaped content between double quotes.
pub open spec fn json_str(s: Seq<char>) -> Seq<char> {
    seq!['"'] + escape_seq(s) + seq!['"']
}

/// The JSON rendering of a boolean.
pub open spec fn bool_text(b: bool) -> Seq<char> {
    if b {
        "true"@
    } else {
        "false"@
    }
}

/// The wire name of a schedule-relationship status.
pub open spec fn relationship_text(r: ScheduleRelationship) -> Seq<char> {
    match r {
        ScheduleRelationship::NoData => "NoData"@,
        ScheduleRelationship::Scheduled => "Scheduled"@,
        ScheduleRelationship::Skipped => "Skipped"@,
    }
}

/// The JSON object for one departure record. The `terminal` member is
/// omitted when the record has none.
pub open spec fn departure_json(d: DepartureView) -> Seq<char> {
    "{\"actual\":"@ + bool_text(d.actual) + ",\"trip_id\":"@ + json_str(d.trip_id)
        + ",\"departure_text\":"@ + json_str(d.departure_text) + ",\"route_short_name\":"@
        + json_str(d.route_short_name) + (match d.terminal {
        Some(t) => ",\"terminal\":"@ + json_str(t),
        None => Seq::<char>::empty(),
    }) + ",\"schedule_relationship\":"@ + json_str(relationship_text(d.schedule_relationship))
        + "}"@
}

/// The comma-separated JSON objects of a sequence of departures.
pub open spec fn departures_json(ds: Seq<DepartureView>) -> Seq<char>
    decreases ds.len(),
{
    if ds.len() == 0 {
        Seq::empty()
    } else if ds.len() == 1 {
        departure_json(ds[0])
    } else {
        departures_json(ds.drop_last()) + seq![','] + departure_json(ds.last())
    }
}

/// The full response body: the departures array in its envelope object.
pub open spec fn response_json(ds: Seq<DepartureView>) -> Seq<char> {
    "{\"departures\":["@ + departures_json(ds) + "]}"@
}

/// The lower-case hexadecimal digit for a value below sixteen.
fn hex_char(n: u32) -> (c: char)
    requires
        n < 16,
    ensures
        c == hex_digit_char(n as int),
{
    if n == 0 {
        '0'
    } else if n == 1 {
        '1'
    } else if n == 2 {
        '2'
    } else if n == 3 {
        '3'
    } else if n == 4 {
        '4'
    } else if n == 5 {
        '5'
    } else if n == 6 {
        '6'
    } else if n == 7 {
        '7'
    } else if n == 8 {
        '8'
    } else if n == 9 {
        '9'
    } else if n == 10 {
        'a'
    } else if n == 11 {
        'b'
    } else if n == 12 {
        'c'
    } else if n == 13 {
        'd'
    } else if n == 14 {
        'e'
    } else {
        'f'
    }
}

/// Appends one content character in its escaped form.
fn push_escaped(out: &mut String, c: char)
    ensures
        final(out)@ == old(out)@ + escape_char(c),
{
    if c == '"' {
        out.push('\\');
        out.push('"');
    } else if c == '\\' {
        out.push('\\');
        out.push('\\');
    } else if c == '\n' {
        out.push('\\');
        out.push('n');
    } else if c == '\r' {
        out.push('\\');
        out.push('r');
    } else if c == '\t' {
        out.push('\\');
        out.push('t');
    } else if (c as u32) < 32 {
        let x = c as u32;
        out.push('\\');
        out.push('u');
        out.push('0');
        out.push('0');
        out.push(hex_char(x / 16));
        out.push(hex_char(x % 16));
    } else {
        out.push(c);
    }
    proof {
        assert(out@ =~= old(out)@ + escape_char(c));
    }
}

/// Appends the JSON string literal for `s`.
fn push_json_str(out: &mut String, s: &str)
    ensures
        final(out)@ == old(out)@ + json_str(s@),
{
    let n = s.unicode_len();
    out.push('"');
    let mut i: usize = 0;
    while i < n
        invariant
            n == s@.len(),
            i <= n,
            out@ == old(out)@ + seq!['"'] + escape_seq(s@.take(i as int)),
        decreases n - i,
    {
        let c = s.get_char(i);
        push_escaped(out, c);
        proof {
            assert(s@.take(i as int + 1).drop_last() =~= s@.take(i as int));
            assert(s@.take(i as int + 1).last() == s@[i as int]);
        }
        i += 1;
    }
    out.push('"');
    proof {
        assert(s@.take(n as int) =~= s@);
        assert(out@ =~= old(out)@ + json_str(s@));
    }
}

/// Quotes and escapes a string as a standalone JSON string literal.
pub fn json_quote(s: &str) -> (out: String)
    ensures
        out@ == json_str(s@),
{
    let mut out = String::new();
    push_json_str(&mut out, s);
    proof {
        assert(out@ =~= json_str(s@));
    }
    out
}

/// Appends the JSON object for one departure record.
#[verifier::rlimit(60)]
fn push_departure(out: &mut String, d: &Departure)
    ensures
        final(out)@ == old(out)@ + departure_json(d@),
{
    out.append("{\"actual\":");
    if d.actual {
        out.append("true");
    } else {
        out.append("false");
    }
    out.append(",\"trip_id\":");
    push_json_str(out, d.trip_id.as_str());
    out.append(",\"departure_text\":");
    push_json_str(out, d.departure_text.as_str());
    out.append(",\"route_short_name\":");
    push_json_str(out, d.route_short_name.as_str());
    match &d.terminal {
        Some(t) => {
            out.append(",\"terminal\":");
            push_json_str(out, t.as_str());
        },
        None => {},
    }
    out.append(",\"schedule_relationship\":");
    match d.schedule_relationship {
        ScheduleRelationship::NoData => push_json_str(out, "NoData"),
        ScheduleRelationship::Scheduled => push_json_str(out, "Scheduled"),
        ScheduleRelationship::Skipped => push_json_str(out, "Skipped"),
    }
    out.append("}");
    proof {
        assert(out@ =~= old(out)@ + departure_json(d@));
    }
}

/// Encodes the whole response envelope as its JSON text.
pub fn encode_response(r: &NexTripResponse) -> (out: String)
    ensures
        out@ == response_json(r@),
{
    let mut out = String::new();
    out.append("{\"departures\":[");
    let n = r.departures.len();
    let mut i: usize = 0;
    while i < n
        invariant
            n == r.departures.len(),
            i <= n,
            out@ == "{\"departures\":["@ + departures_json(r@.take(i as int)),
        decreases n - i,
    {
        if i > 0 {
            out.push(',');
        }
        push_departure(&mut out, &r.departures[i]);
        proof {
            assert(r@.take(i as int + 1).drop_last() =~= r@.take(i as int));
            assert(r@.take(i as int + 1).last() == r@[i as int]);
            assert(out@ =~= "{\"departures\":["@ + departures_json(r@.take(i as int + 1)));
        }
        i += 1;
    }
    out.append("]}");
    proof {
        assert(r@.take(n as int) =~= r@);
        assert(out@ =~= response_json(r@));
    }
    out
}

} // verus!
