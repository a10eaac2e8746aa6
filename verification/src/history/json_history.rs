//! The persisted form of the audit log: one JSON object per line, shape
//! `{"time":<u64>,"token":"<string>","response":{"outcome":"<Outcome>","name":<string|null>}}`,
//! together with the filtered queries the log answers.  Reading and writing
//! the underlying file is the surrounding application's business; everything
//! here works on lines already in memory.

use vstd::prelude::*;

verus! {

use crate::history::{HistoryEntry, HistoryEntryView};
use crate::identity::{AccessResponse, AccessResponseView, Outcome};
use crate::text::{
    chars_of,
    expect_ws,
    json_escape,
    key_colon_at,
    lemma_expect_ws_prefix,
    lemma_jstring_round_trip,
    lemma_key_colon_prefix,
    lemma_skip_ws_id,
    lemma_u64_dec,
    lemma_digits_len_concat,
    parse_jstring_at,
    parse_u64_at,
    push_json_escaped,
    push_str_chars,
    push_u64_dec,
    skip_ws,
    skip_ws_at,
    spec_expect_ws,
    spec_key_colon,
    spec_parse_jstring,
    spec_parse_u64,
    spec_u64_dec,
    string_of,
    dec_val,
    digits_len,
};

// ===== serialization =====

/// The wire name of an outcome, quotes included.
pub open spec fn spec_outcome_json(o: Outcome) -> Seq<char> {
    match o {
        Outcome::Success => "\"Success\""@,
        Outcome::Revoked => "\"Revoked\""@,
        Outcome::Unknown => "\"Unknown\""@,
    }
}

/// The wire form of an optional name: a quoted, escaped string or `null`.
pub open spec fn spec_name_json(n: Option<Seq<char>>) -> Seq<char> {
    match n {
        None => "null"@,
        Some(s) => "\""@ + json_escape(s) + "\""@,
    }
}

/// The wire form of an access response.
pub open spec fn spec_response_json(r: AccessResponseView) -> Seq<char> {
    "{"@ + "\"outcome\""@ + ":"@ + spec_outcome_json(r.outcome) + ","@ + "\"name\""@ + ":"@
        + spec_name_json(r.name) + "}"@
}

/// The wire form of a whole audit entry: one line of the log.
pub open spec fn spec_entry_json(e: HistoryEntryView) -> Seq<char> {
    "{"@ + "\"time\""@ + ":"@ + spec_u64_dec(e.time as int) + ","@ + "\"token\""@ + ":"@ + "\""@
        + json_escape(e.token) + "\""@ + ","@ + "\"response\""@ + ":"@ + spec_response_json(
        e.response,
    ) + "}"@
}

fn push_response_json(out: &mut Vec<char>, r: &AccessResponse)
    ensures
        final(out)@ == old(out)@ + spec_response_json(r@),
{
    push_str_chars(out, "{");
    push_str_chars(out, "\"outcome\"");
    push_str_chars(out, ":");
    match r.outcome {
        Outcome::Success => push_str_chars(out, "\"Success\""),
        Outcome::Revoked => push_str_chars(out, "\"Revoked\""),
        Outcome::Unknown => push_str_chars(out, "\"Unknown\""),
    }
    push_str_chars(out, ",");
    push_str_chars(out, "\"name\"");
    push_str_chars(out, ":");
    match &r.name {
        None => push_str_chars(out, "null"),
        Some(nm) => {
            push_str_chars(out, "\"");
            let ncs = chars_of(nm.as_str());
            push_json_escaped(out, &ncs);
            push_str_chars(out, "\"");
        },
    }
    push_str_chars(out, "}");
    assert(out@ =~= old(out)@ + spec_response_json(r@));
}

impl HistoryEntry {
    /// Render this entry as its audit-log line (without the newline).
    pub fn to_json_line(&self) -> (s: String)
        ensures
            s@ == spec_entry_json(self@),
    {
        let mut out: Vec<char> = Vec::new();
        push_str_chars(&mut out, "{");
        push_str_chars(&mut out, "\"time\"");
        push_str_chars(&mut out, ":");
        push_u64_dec(&mut out, self.time);
        push_str_chars(&mut out, ",");
        push_str_chars(&mut out, "\"token\"");
        push_str_chars(&mut out, ":");
        push_str_chars(&mut out, "\"");
        let tcs = chars_of(self.token.as_str());
        push_json_escaped(&mut out, &tcs);
        push_str_chars(&mut out, "\"");
        push_str_chars(&mut out, ",");
        push_str_chars(&mut out, "\"response\"");
        push_str_chars(&mut out, ":");
        push_response_json(&mut out, &self.response);
        push_str_chars(&mut out, "}");
        assert(out@ =~= spec_entry_json(self@));
        string_of(&out)
    }
}

// ===== parsing =====

pub open spec fn spec_parse_outcome(s: Seq<char>) -> Option<(Outcome, Seq<char>)> {
    match spec_expect_ws(s, "\"Success\""@) {
        Some(r) => Some((Outcome::Success, r)),
        None => match spec_expect_ws(s, "\"Revoked\""@) {
            Some(r) => Some((Outcome::Revoked, r)),
            None => match spec_expect_ws(s, "\"Unknown\""@) {
                Some(r) => Some((Outcome::Unknown, r)),
                None => None,
            },
        },
    }
}

pub open spec fn spec_parse_name(s: Seq<char>) -> Option<(Option<Seq<char>>, Seq<char>)> {
    match spec_expect_ws(s, "null"@) {
        Some(r) => Some((None, r)),
        None => match spec_expect_ws(s, "\""@) {
            Some(r) => match spec_parse_jstring(r) {
                Some(p) => Some((Some(p.0), p.1)),
                None => None,
            },
            None => None,
        },
    }
}

pub open spec fn spec_parse_response(s: Seq<char>) -> Option<(AccessResponseView, Seq<char>)> {
    match spec_expect_ws(s, "{"@) {
        None => None,
        Some(s1) => match spec_key_colon(s1, "\"outcome\""@) {
            None => None,
            Some(s2) => match spec_parse_outcome(s2) {
                None => None,
                Some((o, s3)) => match spec_expect_ws(s3, ","@) {
                    None => None,
                    Some(s4) => match spec_key_colon(s4, "\"name\""@) {
                        None => None,
                        Some(s5) => match spec_parse_name(s5) {
                            None => None,
                            Some((nm, s6)) => match spec_expect_ws(s6, "}"@) {
                                None => None,
                                Some(s7) => Some(
                                    (AccessResponseView { outcome: o, name: nm }, s7),
                                ),
                            },
                        },
                    },
                },
            },
        },
    }
}

/// Parse what follows an audit line's time value: the token and response
/// fields, the closing brace, and the line's end.
pub open spec fn spec_parse_entry_tail(s: Seq<char>) -> Option<(Seq<char>, AccessResponseView)> {
    match spec_expect_ws(s, ","@) {
        None => None,
        Some(s4) => match spec_key_colon(s4, "\"token\""@) {
            None => None,
            Some(s5) => match spec_expect_ws(s5, "\""@) {
                None => None,
                Some(s6) => match spec_parse_jstring(s6) {
                    None => None,
                    Some((tok, s7)) => match spec_expect_ws(s7, ","@) {
                        None => None,
                        Some(s8) => match spec_key_colon(s8, "\"response\""@) {
                            None => None,
                            Some(s9) => match spec_parse_response(s9) {
                                None => None,
                                Some((resp, s10)) => match spec_expect_ws(s10, "}"@) {
                                    None => None,
                                    Some(s11) => if skip_ws(s11).len() == 0 {
                                        Some((tok, resp))
                                    } else {
                                        None
                                    },
                                },
                            },
                        },
                    },
                },
            },
        },
    }
}

/// Parse one whole audit-log line: the object's fields in their fixed
/// order, with any run of spaces forgiven around the structural tokens.
/// Anything else, trailing garbage included, is rejected.
pub open spec fn spec_parse_entry(s: Seq<char>) -> Option<HistoryEntryView> {
    match spec_expect_ws(s, "{"@) {
        None => None,
        Some(s1) => match spec_key_colon(s1, "\"time\""@) {
            None => None,
            Some(s2) => match spec_parse_u64(skip_ws(s2)) {
                None => None,
                Some((t, s3)) => match spec_parse_entry_tail(s3) {
                    None => None,
                    Some((tok, resp)) => Some(
                        HistoryEntryView { time: t, token: tok, response: resp },
                    ),
                },
            },
        },
    }
}

fn parse_outcome_at(v: &Vec<char>, i: usize) -> (r: Option<(Outcome, usize)>)
    requires
        i <= v@.len(),
    ensures
        match spec_parse_outcome(v@.skip(i as int)) {
            Some(p) => {
                &&& r matches Some(q)
                &&& q.0 == p.0
                &&& i <= q.1 <= v@.len()
                &&& v@.skip(q.1 as int) == p.1
            },
            None => r is None,
        },
{
    if let Some(j) = expect_ws(v, i, "\"Success\"") {
        return Some((Outcome::Success, j));
    }
    if let Some(j) = expect_ws(v, i, "\"Revoked\"") {
        return Some((Outcome::Revoked, j));
    }
    if let Some(j) = expect_ws(v, i, "\"Unknown\"") {
        return Some((Outcome::Unknown, j));
    }
    None
}

fn parse_name_at(v: &Vec<char>, i: usize) -> (r: Option<(Option<Vec<char>>, usize)>)
    requires
        i <= v@.len(),
    ensures
        match spec_parse_name(v@.skip(i as int)) {
            Some(p) => {
                &&& r matches Some(q)
                &&& match (q.0, p.0) {
                    (Some(a), Some(b)) => a@ == b,
                    (None, None) => true,
                    _ => false,
                }
                &&& i <= q.1 <= v@.len()
                &&& v@.skip(q.1 as int) == p.1
            },
            None => r is None,
        },
{
    if let Some(j) = expect_ws(v, i, "null") {
        return Some((None, j));
    }
    let j = match expect_ws(v, i, "\"") {
        Some(j) => j,
        None => {
            return None;
        },
    };
    match parse_jstring_at(v, j) {
        Some((content, k)) => Some((Some(content), k)),
        None => None,
    }
}

fn parse_response_at(v: &Vec<char>, i: usize) -> (r: Option<(AccessResponse, usize)>)
    requires
        i <= v@.len(),
    ensures
        match spec_parse_response(v@.skip(i as int)) {
            Some(p) => {
                &&& r matches Some(q)
                &&& q.0@ == p.0
                &&& i <= q.1 <= v@.len()
                &&& v@.skip(q.1 as int) == p.1
            },
            None => r is None,
        },
{
    let i0 = match expect_ws(v, i, "{") {
        Some(j) => j,
        None => {
            return None;
        },
    };
    let i1 = match key_colon_at(v, i0, "\"outcome\"") {
        Some(j) => j,
        None => {
            return None;
        },
    };
    let (o, i2) = match parse_outcome_at(v, i1) {
        Some(p) => p,
        None => {
            return None;
        },
    };
    let i2b = match expect_ws(v, i2, ",") {
        Some(j) => j,
        None => {
            return None;
        },
    };
    let i3 = match key_colon_at(v, i2b, "\"name\"") {
        Some(j) => j,
        None => {
            return None;
        },
    };
    let (nm, i4) = match parse_name_at(v, i3) {
        Some(p) => p,
        None => {
            return None;
        },
    };
    let i5 = match expect_ws(v, i4, "}") {
        Some(j) => j,
        None => {
            return None;
        },
    };
    let name: Option<String> = match nm {
        Some(cs) => Some(string_of(&cs)),
        None => None,
    };
    Some((AccessResponse { outcome: o, name }, i5))
}

impl HistoryEntry {
    /// Parse one audit-log line; `None` on any corruption.
    pub fn from_json_line(line: &str) -> (r: Option<HistoryEntry>)
        ensures
            match spec_parse_entry(line@) {
                Some(e) => r matches Some(x) && x@ == e,
                None => r is None,
            },
    {
        let v = chars_of(line);
        assert(v@.skip(0) =~= line@);
        let i0 = match expect_ws(&v, 0, "{") {
            Some(j) => j,
            None => {
                return None;
            },
        };
        let i1 = match key_colon_at(&v, i0, "\"time\"") {
            Some(j) => j,
            None => {
                return None;
            },
        };
        let i1b = skip_ws_at(&v, i1);
        let (t, i2) = match parse_u64_at(&v, i1b) {
            Some(p) => p,
            None => {
                return None;
            },
        };
        let i2b = match expect_ws(&v, i2, ",") {
            Some(j) => j,
            None => {
                return None;
            },
        };
        let i3 = match key_colon_at(&v, i2b, "\"token\"") {
            Some(j) => j,
            None => {
                return None;
            },
        };
        let i3b = match expect_ws(&v, i3, "\"") {
            Some(j) => j,
            None => {
                return None;
            },
        };
        let (tok, i4) = match parse_jstring_at(&v, i3b) {
            Some(p) => p,
            None => {
                return None;
            },
        };
        let i4b = match expect_ws(&v, i4, ",") {
            Some(j) => j,
            None => {
                return None;
            },
        };
        let i5 = match key_colon_at(&v, i4b, "\"response\"") {
            Some(j) => j,
            None => {
                return None;
            },
        };
        let (resp, i6) = match parse_response_at(&v, i5) {
            Some(p) => p,
            None => {
                return None;
            },
        };
        let i7 = match expect_ws(&v, i6, "}") {
            Some(j) => j,
            None => {
                return None;
            },
        };
        let i8 = skip_ws_at(&v, i7);
        if i8 != v.len() {
            assert(v@.skip(i8 as int).len() != 0);
            return None;
        }
        assert(v@.skip(i8 as int).len() == 0);
        let entry = HistoryEntry { time: t, token: string_of(&tok), response: resp };
        assert(entry@ == spec_parse_entry(line@).unwrap());
        Some(entry)
    }
}

// ===== round trip =====

proof fn lemma_outcome_round_trip(o: Outcome, rest: Seq<char>)
    ensures
        spec_parse_outcome(spec_outcome_json(o) + rest) == Some((o, rest)),
{
    reveal_strlit("\"Success\"");
    reveal_strlit("\"Revoked\"");
    reveal_strlit("\"Unknown\"");
    let t = spec_outcome_json(o) + rest;
    assert(t[0] == '"');
    lemma_skip_ws_id(t);
    match o {
        Outcome::Success => {
            lemma_expect_ws_prefix("\"Success\""@, rest);
        },
        Outcome::Revoked => {
            if spec_expect_ws(t, "\"Success\""@) is Some {
                assert(t.take("\"Success\""@.len() as int) == "\"Success\""@);
                assert(t.take("\"Success\""@.len() as int)[1] == t[1]);
                assert(t[1] == "\"Revoked\""@[1]);
                assert(false);
            }
            lemma_expect_ws_prefix("\"Revoked\""@, rest);
        },
        Outcome::Unknown => {
            if spec_expect_ws(t, "\"Success\""@) is Some {
                assert(t.take("\"Success\""@.len() as int) == "\"Success\""@);
                assert(t.take("\"Success\""@.len() as int)[1] == t[1]);
                assert(t[1] == "\"Unknown\""@[1]);
                assert(false);
            }
            if spec_expect_ws(t, "\"Revoked\""@) is Some {
                assert(t.take("\"Revoked\""@.len() as int) == "\"Revoked\""@);
                assert(t.take("\"Revoked\""@.len() as int)[1] == t[1]);
                assert(t[1] == "\"Unknown\""@[1]);
                assert(false);
            }
            lemma_expect_ws_prefix("\"Unknown\""@, rest);
        },
    }
}

proof fn lemma_name_round_trip(n: Option<Seq<char>>, rest: Seq<char>)
    ensures
        spec_parse_name(spec_name_json(n) + rest) == Some((n, rest)),
{
    reveal_strlit("null");
    reveal_strlit("\"");
    let t = spec_name_json(n) + rest;
    match n {
        None => {
            lemma_expect_ws_prefix("null"@, rest);
        },
        Some(s) => {
            assert(t[0] == '"');
            lemma_skip_ws_id(t);
            if spec_expect_ws(t, "null"@) is Some {
                assert(t.take("null"@.len() as int) == "null"@);
                assert(t.take("null"@.len() as int)[0] == t[0]);
                assert(false);
            }
            let r1 = json_escape(s) + "\""@ + rest;
            assert(t =~= "\""@ + r1);
            lemma_expect_ws_prefix("\""@, r1);
            assert(r1 =~= json_escape(s) + seq!['"'] + rest);
            lemma_jstring_round_trip(s, rest);
        },
    }
}

#[verifier::rlimit(100)]
proof fn lemma_response_round_trip(r: AccessResponseView, rest: Seq<char>)
    ensures
        spec_parse_response(spec_response_json(r) + rest) == Some((r, rest)),
{
    reveal_strlit("{");
    reveal_strlit("}");
    reveal_strlit(",");
    reveal_strlit("\"outcome\"");
    reveal_strlit("\"name\"");
    let t = spec_response_json(r) + rest;
    let a = spec_outcome_json(r.outcome);
    let b = spec_name_json(r.name);
    let r1 = "\"outcome\""@ + ":"@ + a + ","@ + "\"name\""@ + ":"@ + b + "}"@ + rest;
    assert(t =~= "{"@ + r1);
    lemma_expect_ws_prefix("{"@, r1);
    let r2 = a + ","@ + "\"name\""@ + ":"@ + b + "}"@ + rest;
    assert(r1 =~= "\"outcome\""@ + (":"@ + r2));
    lemma_key_colon_prefix("\"outcome\""@, r2);
    let r3 = ","@ + "\"name\""@ + ":"@ + b + "}"@ + rest;
    assert(r2 =~= a + r3);
    lemma_outcome_round_trip(r.outcome, r3);
    let r4 = "\"name\""@ + ":"@ + b + "}"@ + rest;
    assert(r3 =~= ","@ + r4);
    lemma_expect_ws_prefix(","@, r4);
    let r5 = b + "}"@ + rest;
    assert(r4 =~= "\"name\""@ + (":"@ + r5));
    lemma_key_colon_prefix("\"name\""@, r5);
    let r6 = "}"@ + rest;
    assert(r5 =~= b + r6);
    lemma_name_round_trip(r.name, r6);
    lemma_expect_ws_prefix("}"@, rest);
    assert(AccessResponseView { outcome: r.outcome, name: r.name } =~= r);
}

#[verifier::rlimit(100)]
proof fn lemma_entry_tail_round_trip(token: Seq<char>, resp: AccessResponseView)
    ensures
        spec_parse_entry_tail(
            ","@ + "\"token\""@ + ":"@ + "\""@ + json_escape(token) + "\""@ + ","@
                + "\"response\""@ + ":"@ + spec_response_json(resp) + "}"@,
        ) == Some((token, resp)),
{
    reveal_strlit("}");
    reveal_strlit(",");
    reveal_strlit("\"");
    reveal_strlit("\"token\"");
    reveal_strlit("\"response\"");
    let tk = json_escape(token);
    let rj = spec_response_json(resp);
    let r3 = ","@ + "\"token\""@ + ":"@ + "\""@ + tk + "\""@ + ","@ + "\"response\""@ + ":"@ + rj
        + "}"@;
    let r4 = "\"token\""@ + ":"@ + "\""@ + tk + "\""@ + ","@ + "\"response\""@ + ":"@ + rj + "}"@;
    assert(r3 =~= ","@ + r4);
    lemma_expect_ws_prefix(","@, r4);
    let r5 = "\""@ + tk + "\""@ + ","@ + "\"response\""@ + ":"@ + rj + "}"@;
    assert(r4 =~= "\"token\""@ + (":"@ + r5));
    lemma_key_colon_prefix("\"token\""@, r5);
    let r6 = tk + "\""@ + ","@ + "\"response\""@ + ":"@ + rj + "}"@;
    assert(r5 =~= "\""@ + r6);
    lemma_expect_ws_prefix("\""@, r6);
    let r7 = ","@ + "\"response\""@ + ":"@ + rj + "}"@;
    assert(r6 =~= tk + seq!['"'] + r7);
    lemma_jstring_round_trip(token, r7);
    let r8 = "\"response\""@ + ":"@ + rj + "}"@;
    assert(r7 =~= ","@ + r8);
    lemma_expect_ws_prefix(","@, r8);
    let r9 = rj + "}"@;
    assert(r8 =~= "\"response\""@ + (":"@ + r9));
    lemma_key_colon_prefix("\"response\""@, r9);
    let r10 = "}"@ + Seq::<char>::empty();
    assert(r9 =~= rj + r10);
    lemma_response_round_trip(resp, r10);
    lemma_expect_ws_prefix("}"@, Seq::<char>::empty());
    lemma_skip_ws_id(Seq::<char>::empty());
}

/// Serializing an audit entry and parsing the line back yields the entry:
/// the log's wire format loses nothing.
#[verifier::rlimit(100)]
pub proof fn lemma_entry_round_trip(e: HistoryEntryView)
    ensures
        spec_parse_entry(spec_entry_json(e)) == Some(e),
{
    reveal_strlit("{");
    reveal_strlit(",");
    reveal_strlit("\"");
    reveal_strlit("\"time\"");
    reveal_strlit("\"token\"");
    reveal_strlit("\"response\"");
    let t = spec_entry_json(e);
    let d = spec_u64_dec(e.time as int);
    let tk = json_escape(e.token);
    let rj = spec_response_json(e.response);
    let r1 = "\"time\""@ + ":"@ + d + ","@ + "\"token\""@ + ":"@ + "\""@ + tk + "\""@ + ","@
        + "\"response\""@ + ":"@ + rj + "}"@;
    assert(t =~= "{"@ + r1);
    lemma_expect_ws_prefix("{"@, r1);
    let r2 = d + ","@ + "\"token\""@ + ":"@ + "\""@ + tk + "\""@ + ","@ + "\"response\""@ + ":"@
        + rj + "}"@;
    assert(r1 =~= "\"time\""@ + (":"@ + r2));
    lemma_key_colon_prefix("\"time\""@, r2);
    lemma_u64_dec(e.time as int);
    let r3 = ","@ + "\"token\""@ + ":"@ + "\""@ + tk + "\""@ + ","@ + "\"response\""@ + ":"@ + rj
        + "}"@;
    assert(r2 =~= d + r3);
    assert(r2[0] == d[0]);
    assert(crate::text::is_dec_digit(d[0]));
    lemma_skip_ws_id(r2);
    assert(r3[0] == ',');
    assert(!crate::text::is_dec_digit(','));
    lemma_digits_len_concat(d, r3);
    let k = d.len() as int;
    assert(digits_len(r2) == k);
    assert(r2.take(k) =~= d);
    assert(dec_val(r2.take(k)) == e.time as int);
    assert(r2.skip(k) =~= r3);
    assert(spec_parse_u64(skip_ws(r2)) == Some((e.time, r3)));
    lemma_entry_tail_round_trip(e.token, e.response);
    assert(spec_parse_entry_tail(r3) == Some((e.token, e.response)));
    assert(HistoryEntryView { time: e.time, token: e.token, response: e.response } =~= e);
}

// ===== filtered queries =====

/// Conjunction of optional constraints an audit entry is tested against.
pub struct HistoryFilter {
    pub time_min: Option<u64>,
    pub time_max: Option<u64>,
    pub token: Option<String>,
    pub name: Option<String>,
    pub outcome: Option<Outcome>,
    pub only_latest: bool,
}

/// Spec-level value of a `HistoryFilter`.
#[verifier::ext_equal]
pub ghost struct HistoryFilterView {
    pub time_min: Option<u64>,
    pub time_max: Option<u64>,
    pub token: Option<Seq<char>>,
    pub name: Option<Seq<char>>,
    pub outcome: Option<Outcome>,
    pub only_latest: bool,
}

impl View for HistoryFilter {
    type V = HistoryFilterView;

    open spec fn view(&self) -> HistoryFilterView {
        HistoryFilterView {
            time_min: self.time_min,
            time_max: self.time_max,
            token: match self.token {
                Some(t) => Some(t@),
                None => None,
            },
            name: match self.name {
                Some(n) => Some(n@),
                None => None,
            },
            outcome: self.outcome,
            only_latest: self.only_latest,
        }
    }
}

impl HistoryFilter {
    /// The filter with no constraints: every entry matches.
    pub fn unconstrained() -> (f: HistoryFilter)
        ensures
            f@.time_min is None,
            f@.time_max is None,
            f@.token is None,
            f@.name is None,
            f@.outcome is None,
            !f@.only_latest,
    {
        HistoryFilter {
            time_min: None,
            time_max: None,
            token: None,
            name: None,
            outcome: None,
            only_latest: false,
        }
    }
}

/// Every provided constraint must hold of the entry.
pub open spec fn spec_entry_matches(e: HistoryEntryView, f: HistoryFilterView) -> bool {
    &&& (f.time_min matches Some(t) ==> t <= e.time)
    &&& (f.time_max matches Some(t) ==> e.time <= t)
    &&& (f.token matches Some(t) ==> e.token == t)
    &&& (f.name matches Some(n) ==> e.response.name == Some(n))
    &&& (f.outcome matches Some(o) ==> e.response.outcome == o)
}

/// Decide whether `e` satisfies every constraint of `f`.
pub fn entry_matches(e: &HistoryEntry, f: &HistoryFilter) -> (r: bool)
    ensures
        r == spec_entry_matches(e@, f@),
{
    let time_ok = match &f.time_min {
        Some(t) => *t <= e.time,
        None => true,
    } && match &f.time_max {
        Some(t) => e.time <= *t,
        None => true,
    };
    if !time_ok {
        return false;
    }
    match &f.token {
        Some(t) => {
            if *t != e.token {
                return false;
            }
        },
        None => {},
    }
    match &f.name {
        Some(n) => match &e.response.name {
            Some(en) => {
                if *n != *en {
                    return false;
                }
            },
            None => {
                return false;
            },
        },
        None => {},
    }
    match &f.outcome {
        Some(o) => *o == e.response.outcome,
        None => true,
    }
}

/// The views of a sequence of entries.
pub open spec fn views_of(entries: Seq<HistoryEntry>) -> Seq<HistoryEntryView> {
    entries.map_values(|e: HistoryEntry| e@)
}

/// The views of a sequence of lines.
pub open spec fn line_views(lines: Seq<String>) -> Seq<Seq<char>> {
    lines.map_values(|l: String| l@)
}

/// The corrupt-line report is exact: an index is reported if and only if
/// that line does not parse.
pub open spec fn warnings_exact(bad: Seq<usize>, lines: Seq<Seq<char>>) -> bool {
    forall|j: int|
        0 <= j < lines.len() ==> ((exists|k: int| 0 <= k < bad.len() && bad[k] == j)
            <==> spec_parse_entry(lines[j]) is None)
}

/// The entries that parse and match `f`, in original append order.
/// A line that does not parse is skipped and constrains nothing else.
pub open spec fn spec_matching(lines: Seq<Seq<char>>, f: HistoryFilterView) -> Seq<
    HistoryEntryView,
>
    decreases lines.len(),
{
    if lines.len() == 0 {
        Seq::empty()
    } else {
        let rest = spec_matching(lines.drop_first(), f);
        match spec_parse_entry(lines[0]) {
            Some(e) => if spec_entry_matches(e, f) {
                seq![e] + rest
            } else {
                rest
            },
            None => rest,
        }
    }
}

/// What a query answers: all matches in append order, or, under
/// `only_latest`, just the match greatest in append order.
pub open spec fn spec_query(lines: Seq<Seq<char>>, f: HistoryFilterView) -> Seq<
    HistoryEntryView,
> {
    let m = spec_matching(lines, f);
    if f.only_latest {
        if m.len() == 0 {
            Seq::empty()
        } else {
            seq![m.last()]
        }
    } else {
        m
    }
}

/// Settings of the file-backed audit log.
pub struct JsonHistorySettings {
    pub filename: String,
}

/// The file-backed audit log.  It holds only its settings: the surrounding
/// application reads and appends the file named there and hands the lines
/// in.
pub struct JsonHistory {
    pub settings: JsonHistorySettings,
}

impl JsonHistory {
    pub fn new(settings: JsonHistorySettings) -> (h: JsonHistory)
        ensures
            h.settings == settings,
    {
        JsonHistory { settings }
    }

    /// The line `append` owes the log for `entry`.  Writing and flushing it
    /// is the caller's side of the bargain.
    pub fn insert_line(&self, entry: &HistoryEntry) -> (s: String)
        ensures
            s@ == spec_entry_json(entry@),
    {
        entry.to_json_line()
    }

    /// Run a filtered query over the log's lines.  Returns the matching
    /// entries (all of them, or just the latest under `only_latest`) and the
    /// indices of the corrupt lines, for the caller to warn about.
    pub fn query(&self, lines: &Vec<String>, filter: &HistoryFilter) -> (r: (
        Vec<HistoryEntry>,
        Vec<usize>,
    ))
        ensures
            views_of(r.0@) == spec_query(line_views(lines@), filter@),
            warnings_exact(r.1@, line_views(lines@)),
    {
        let ghost lv = line_views(lines@);
        let mut found: Vec<HistoryEntry> = Vec::new();
        let mut bad: Vec<usize> = Vec::new();
        let mut i: usize = 0;
        assert(lv.skip(0) =~= lv);
        assert(views_of(found@) + spec_matching(lv, filter@) =~= spec_matching(lv, filter@));
    while i < lines.len()
            invariant
                i <= lines@.len(),
                lv == line_views(lines@),
                spec_matching(lv, filter@) == views_of(found@) + spec_matching(
                    lv.skip(i as int),
                    filter@,
                ),
                forall|j: int|
                    0 <= j < i ==> ((exists|k: int|
                        0 <= k < bad@.len() && bad@[k] == j) <==> spec_parse_entry(lv[j]) is None),
                forall|k: int| 0 <= k < bad@.len() ==> bad@[k] < i,
            decreases lines@.len() - i,
        {
            let ghost suffix = lv.skip(i as int);
            assert(suffix[0] == lv[i as int]);
            assert(suffix.drop_first() =~= lv.skip(i + 1));
            match HistoryEntry::from_json_line(lines[i].as_str()) {
                Some(en) => {
                    proof {
                        assert(forall|k: int| 0 <= k < bad@.len() ==> bad@[k] != i);
                        assert(spec_parse_entry(lv[i as int]) is Some);
                    }
                    if entry_matches(&en, filter) {
                        proof {
                            assert(views_of(found@.push(en)) =~= views_of(found@) + seq![en@]);
                            assert(views_of(found@) + (seq![en@] + spec_matching(
                                lv.skip(i + 1),
                                filter@,
                            )) =~= (views_of(found@) + seq![en@]) + spec_matching(
                                lv.skip(i + 1),
                                filter@,
                            ));
                        }
                        found.push(en);
                    }
                },
                None => {
                    let ghost ob = bad@;
                    bad.push(i);
                    proof {
                        assert(spec_parse_entry(lv[i as int]) is None);
                        assert(bad@ == ob.push(i));
                        assert(bad@[ob.len() as int] == i);
                        assert(forall|k: int| 0 <= k < ob.len() ==> bad@[k] == ob[k]);
                        assert(forall|k: int|
                            0 <= k < bad@.len() ==> ((#[trigger] bad@[k]) == i || (k < ob.len()
                                && ob[k] == bad@[k])));
                        assert(forall|j: int|
                            0 <= j < i + 1 ==> ((exists|k: int|
                                0 <= k < bad@.len() && bad@[k] == j) <==> spec_parse_entry(
                                lv[j],
                            ) is None));
                    }
                },
            }
            i += 1;
        }
        assert(lv.skip(lines@.len() as int) =~= Seq::<Seq<char>>::empty());
        assert(views_of(found@) + Seq::<HistoryEntryView>::empty() =~= views_of(found@));
        assert(warnings_exact(bad@, lv));
        if filter.only_latest {
            let ghost m = spec_matching(lv, filter@);
            let mut latest: Vec<HistoryEntry> = Vec::new();
            if found.len() > 0 {
                let ghost fb = found@;
                assert(m.len() == fb.len());
                match found.pop() {
                    Some(e) => {
                        proof {
                            assert(e == fb.last());
                            assert(views_of(fb)[fb.len() - 1] == fb.last()@);
                            assert(e@ == m.last());
                        }
                        latest.push(e);
                    },
                    None => {},
                }
                assert(views_of(latest@) =~= seq![m.last()]);
            } else {
                assert(m.len() == found@.len());
                assert(views_of(latest@) =~= Seq::<HistoryEntryView>::empty());
            }
            (latest, bad)
        } else {
            (found, bad)
        }
    }
}

// ===== laws of the query =====

/// Under `only_latest` a query answers exactly one entry — the match
/// greatest in append order — or nothing when no entry matches.
pub proof fn lemma_only_latest(lines: Seq<Seq<char>>, f: HistoryFilterView)
    requires
        f.only_latest,
    ensures
        spec_matching(lines, f).len() == 0 ==> spec_query(lines, f) == Seq::<
            HistoryEntryView,
        >::empty(),
        spec_matching(lines, f).len() > 0 ==> spec_query(lines, f) == seq![
            spec_matching(lines, f).last(),
        ],
{
}

/// A corrupt line, wherever it sits in the log, changes no query result:
/// every entry parsed from the other lines is still answered, in the same
/// order.
pub proof fn lemma_corrupt_line_ignored(
    lines: Seq<Seq<char>>,
    f: HistoryFilterView,
    i: int,
    bad: Seq<char>,
)
    requires
        0 <= i <= lines.len(),
        spec_parse_entry(bad) is None,
    ensures
        spec_matching(lines.insert(i, bad), f) == spec_matching(lines, f),
        spec_query(lines.insert(i, bad), f) == spec_query(lines, f),
    decreases i,
{
    let w = lines.insert(i, bad);
    if i == 0 {
        assert(w[0] == bad);
        assert(w.drop_first() =~= lines);
    } else {
        assert(w[0] == lines[0]);
        assert(w.drop_first() =~= lines.drop_first().insert(i - 1, bad));
        lemma_corrupt_line_ignored(lines.drop_first(), f, i - 1, bad);
        assert(lines.len() > 0);
    }
}

} // verus!
