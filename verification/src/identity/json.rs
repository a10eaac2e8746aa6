//! The file-backed identity store.  Its record file holds one JSON object
//! per line, shape `{"username":"<string>","token":"<string>","access":<bool>}`.
//! The surrounding application re-opens and reads the file on every check
//! (the file may be edited externally between calls) and hands the lines in;
//! the scan itself — parse each line, skip corrupt ones with a warning, first
//! token match wins — lives here.

use vstd::prelude::*;

verus! {

use crate::identity::{AccessResponse, AccessResponseView, Outcome};
use crate::text::{
    chars_of,
    expect_ws,
    key_colon_at,
    parse_jstring_at,
    skip_ws,
    skip_ws_at,
    spec_expect_ws,
    spec_key_colon,
    spec_parse_jstring,
    string_of,
};

/// One record of the identity file.
#[derive(Clone, Debug)]
pub struct UserRecord {
    pub username: String,
    pub token: String,
    pub access: bool,
}

/// Spec-level value of a `UserRecord`.
#[verifier::ext_equal]
pub ghost struct UserRecordView {
    pub username: Seq<char>,
    pub token: Seq<char>,
    pub access: bool,
}

impl View for UserRecord {
    type V = UserRecordView;

    open spec fn view(&self) -> UserRecordView {
        UserRecordView { username: self.username@, token: self.token@, access: self.access }
    }
}

pub open spec fn spec_parse_bool(s: Seq<char>) -> Option<(bool, Seq<char>)> {
    match spec_expect_ws(s, "true"@) {
        Some(r) => Some((true, r)),
        None => match spec_expect_ws(s, "false"@) {
            Some(r) => Some((false, r)),
            None => None,
        },
    }
}

/// Parse what follows a record's username value: the token and access
/// fields, the closing brace, and the line's end.
pub open spec fn spec_parse_user_tail(s: Seq<char>) -> Option<(Seq<char>, bool)> {
    match spec_expect_ws(s, ","@) {
        None => None,
        Some(s5) => match spec_key_colon(s5, "\"token\""@) {
            None => None,
            Some(s6) => match spec_expect_ws(s6, "\""@) {
                None => None,
                Some(s7) => match spec_parse_jstring(s7) {
                    None => None,
                    Some((tok, s8)) => match spec_expect_ws(s8, ","@) {
                        None => None,
                        Some(s9) => match spec_key_colon(s9, "\"access\""@) {
                            None => None,
                            Some(s10) => match spec_parse_bool(s10) {
                                None => None,
                                Some((acc, s11)) => match spec_expect_ws(s11, "}"@) {
                                    None => None,
                                    Some(s12) => if skip_ws(s12).len() == 0 {
                                        Some((tok, acc))
                                    } else {
                                        None
                                    },
                                },
                            },
                        },
                    },
                },
            },
        },
    }
}

/// Parse one whole record line of the identity file: the object's fields in
/// their fixed order, with any run of spaces forgiven around the structural
/// tokens.
pub open spec fn spec_parse_user(s: Seq<char>) -> Option<UserRecordView> {
    match spec_expect_ws(s, "{"@) {
        None => None,
        Some(s1) => match spec_key_colon(s1, "\"username\""@) {
            None => None,
            Some(s2) => match spec_expect_ws(s2, "\""@) {
                None => None,
                Some(s3) => match spec_parse_jstring(s3) {
                    None => None,
                    Some((user, s4)) => match spec_parse_user_tail(s4) {
                        None => None,
                        Some((tok, acc)) => Some(
                            UserRecordView { username: user, token: tok, access: acc },
                        ),
                    },
                },
            },
        },
    }
}

fn parse_bool_at(v: &Vec<char>, i: usize) -> (r: Option<(bool, usize)>)
    requires
        i <= v@.len(),
    ensures
        match spec_parse_bool(v@.skip(i as int)) {
            Some(p) => {
                &&& r matches Some(q)
                &&& q.0 == p.0
                &&& i <= q.1 <= v@.len()
                &&& v@.skip(q.1 as int) == p.1
            },
            None => r is None,
        },
{
    if let Some(j) = expect_ws(v, i, "true") {
        return Some((true, j));
    }
    if let Some(j) = expect_ws(v, i, "false") {
        return Some((false, j));
    }
    None
}

impl UserRecord {
    /// Parse one record line of the identity file; `None` on any corruption.
    pub fn from_json_line(line: &str) -> (r: Option<UserRecord>)
        ensures
            match spec_parse_user(line@) {
                Some(u) => r matches Some(x) && x@ == u,
                None => r is None,
            },
    {
        let v = chars_of(line);
        assert(v@.skip(0) =~= line@);
        let i0 = match expect_ws(&v, 0, "{") {
            Some(j) => j,
            None => {
                return None;
            },
        };
        let i1 = match key_colon_at(&v, i0, "\"username\"") {
            Some(j) => j,
            None => {
                return None;
            },
        };
        let i1b = match expect_ws(&v, i1, "\"") {
            Some(j) => j,
            None => {
                return None;
            },
        };
        let (user, i2) = match parse_jstring_at(&v, i1b) {
            Some(p) => p,
            None => {
                return None;
            },
        };
        let i2b = match expect_ws(&v, i2, ",") {
            Some(j) => j,
            None => {
                return None;
            },
        };
        let i3 = match key_colon_at(&v, i2b, "\"token\"") {
            Some(j) => j,
            None => {
                return None;
            },
        };
        let i3b = match expect_ws(&v, i3, "\"") {
            Some(j) => j,
            None => {
                return None;
            },
        };
        let (tok, i4) = match parse_jstring_at(&v, i3b) {
            Some(p) => p,
            None => {
                return None;
            },
        };
        let i4b = match expect_ws(&v, i4, ",") {
            Some(j) => j,
            None => {
                return None;
            },
        };
        let i5 = match key_colon_at(&v, i4b, "\"access\"") {
            Some(j) => j,
            None => {
                return None;
            },
        };
        let (acc, i6) = match parse_bool_at(&v, i5) {
            Some(p) => p,
            None => {
                return None;
            },
        };
        let i7 = match expect_ws(&v, i6, "}") {
            Some(j) => j,
            None => {
                return None;
            },
        };
        let i8 = skip_ws_at(&v, i7);
        if i8 != v.len() {
            assert(v@.skip(i8 as int).len() != 0);
            return None;
        }
        assert(v@.skip(i8 as int).len() == 0);
        let rec = UserRecord {
            username: string_of(&user),
            token: string_of(&tok),
            access: acc,
        };
        assert(rec@ == spec_parse_user(line@).unwrap());
        Some(rec)
    }
}

/// The views of the lines handed in.
pub open spec fn user_line_views(lines: Seq<String>) -> Seq<Seq<char>> {
    lines.map_values(|l: String| l@)
}

/// The answer of a scan: the first record whose token equals `token` decides
/// — access enabled gives `Success` with the record's username, disabled
/// gives `Revoked` with no name — and a file with no such record gives
/// `Unknown`.  A line that does not parse decides nothing and is skipped.
pub open spec fn spec_file_verify(lines: Seq<Seq<char>>, token: Seq<char>) -> AccessResponseView
    decreases lines.len(),
{
    if lines.len() == 0 {
        AccessResponseView { outcome: Outcome::Unknown, name: None }
    } else {
        match spec_parse_user(lines[0]) {
            Some(u) => if u.token == token {
                if u.access {
                    AccessResponseView { outcome: Outcome::Success, name: Some(u.username) }
                } else {
                    AccessResponseView { outcome: Outcome::Revoked, name: None }
                }
            } else {
                spec_file_verify(lines.drop_first(), token)
            },
            None => spec_file_verify(lines.drop_first(), token),
        }
    }
}

/// How many lines a scan examines: everything up to and including the
/// deciding line, or the whole file when no record matches.
pub open spec fn spec_scan_len(lines: Seq<Seq<char>>, token: Seq<char>) -> int
    decreases lines.len(),
{
    if lines.len() == 0 {
        0
    } else {
        match spec_parse_user(lines[0]) {
            Some(u) => if u.token == token {
                1
            } else {
                1 + spec_scan_len(lines.drop_first(), token)
            },
            None => 1 + spec_scan_len(lines.drop_first(), token),
        }
    }
}

/// The corrupt-line report of a scan is exact over the scanned prefix.
pub open spec fn scan_warnings_exact(
    bad: Seq<usize>,
    lines: Seq<Seq<char>>,
    token: Seq<char>,
) -> bool {
    forall|j: int|
        0 <= j < spec_scan_len(lines, token) ==> ((exists|k: int|
            0 <= k < bad.len() && bad[k] == j) <==> spec_parse_user(lines[j]) is None)
}

/// Settings of the file-backed identity store.
pub struct JsonIdentitySettings {
    pub filename: String,
}

/// The file-backed identity store.  It holds only its settings: the
/// surrounding application reads the file named there and hands the lines
/// in.
pub struct Json {
    pub settings: JsonIdentitySettings,
}

impl Json {
    pub fn new(settings: JsonIdentitySettings) -> (s: Self)
        ensures
            s.settings == settings,
    {
        Json { settings }
    }

    /// Check `token` against the file's lines.  Returns the response and
    /// the indices of the corrupt lines among those scanned, for the caller
    /// to warn about.
    pub fn access(&self, lines: &Vec<String>, token: &str) -> (r: (AccessResponse, Vec<usize>))
        ensures
            r.0@ == spec_file_verify(user_line_views(lines@), token@),
            r.0@.valid(),
            scan_warnings_exact(r.1@, user_line_views(lines@), token@),
    {
        let ghost lv = user_line_views(lines@);
        let ghost tok = token@;
        let token_owned = token.to_owned();
        let mut bad: Vec<usize> = Vec::new();
        let mut i: usize = 0;
        assert(lv.skip(0) =~= lv);
        while i < lines.len()
            invariant
                i <= lines@.len(),
                lv == user_line_views(lines@),
                tok == token@,
                token_owned@ == tok,
                spec_file_verify(lv, tok) == spec_file_verify(lv.skip(i as int), tok),
                spec_scan_len(lv, tok) == i + spec_scan_len(lv.skip(i as int), tok),
                forall|j: int|
                    0 <= j < i ==> ((exists|k: int|
                        0 <= k < bad@.len() && bad@[k] == j) <==> spec_parse_user(lv[j]) is None),
                forall|k: int| 0 <= k < bad@.len() ==> bad@[k] < i,
            decreases lines@.len() - i,
        {
            let ghost suffix = lv.skip(i as int);
            assert(suffix[0] == lv[i as int]);
            assert(lv[i as int] == lines@[i as int]@);
            assert(suffix.drop_first() =~= lv.skip(i + 1));
            match UserRecord::from_json_line(lines[i].as_str()) {
                Some(u) => {
                    proof {
                        assert(forall|k: int| 0 <= k < bad@.len() ==> bad@[k] != i);
                        assert(spec_parse_user(lv[i as int]) is Some);
                    }
                    if u.token == token_owned {
                        proof {
                            let su = spec_parse_user(lv[i as int]).unwrap();
                            assert(su == u@);
                            assert(u.token@ == token_owned@);
                            assert(token_owned@ == token@);
                            assert(su.token == u@.token);
                            assert(u@.token == u.token@);
                            assert(su.token == tok);
                            assert(spec_scan_len(suffix, tok) == 1);
                            assert(spec_file_verify(suffix, tok) == spec_file_verify(lv, tok));
                        }
                        let response = if u.access {
                            AccessResponse { outcome: Outcome::Success, name: Some(u.username) }
                        } else {
                            AccessResponse { outcome: Outcome::Revoked, name: None }
                        };
                        assert(spec_scan_len(lv, tok) == i + 1);
                        return (response, bad);
                    } else {
                        proof {
                            let su = spec_parse_user(lv[i as int]).unwrap();
                            assert(su == u@);
                            assert(su.token != tok);
                            assert(spec_file_verify(suffix, tok) == spec_file_verify(
                                lv.skip(i + 1),
                                tok,
                            ));
                            assert(spec_scan_len(suffix, tok) == 1 + spec_scan_len(
                                lv.skip(i + 1),
                                tok,
                            ));
                        }
                    }
                },
                None => {
                    let ghost ob = bad@;
                    bad.push(i);
                    proof {
                        assert(spec_parse_user(lv[i as int]) is None);
                        assert(bad@ == ob.push(i));
                        assert(bad@[ob.len() as int] == i);
                        assert(forall|k: int| 0 <= k < ob.len() ==> bad@[k] == ob[k]);
                        assert(forall|k: int|
                            0 <= k < bad@.len() ==> ((#[trigger] bad@[k]) == i || (k < ob.len()
                                && ob[k] == bad@[k])));
                        assert(forall|j: int|
                            0 <= j < i + 1 ==> ((exists|k: int|
                                0 <= k < bad@.len() && bad@[k] == j) <==> spec_parse_user(
                                lv[j],
                            ) is None));
                    }
                },
            }
            i += 1;
        }
        assert(lv.skip(lines@.len() as int) =~= Seq::<Seq<char>>::empty());
        (AccessResponse { outcome: Outcome::Unknown, name: None }, bad)
    }
}

// ===== laws of the scan =====

/// The first record carrying the token decides the check: with access
/// enabled the answer is `Success`, named by that record's username; with
/// access disabled it is `Revoked`, with no name.  Corrupt lines and
/// records for other tokens before it change nothing.
pub proof fn lemma_first_match_decides(lines: Seq<Seq<char>>, token: Seq<char>, i: int)
    requires
        0 <= i < lines.len(),
        spec_parse_user(lines[i]) matches Some(u) && u.token == token,
        forall|j: int|
            0 <= j < i ==> match #[trigger] spec_parse_user(lines[j]) {
                Some(u) => u.token != token,
                None => true,
            },
    ensures
        ({
            let u = spec_parse_user(lines[i]).unwrap();
            spec_file_verify(lines, token) == if u.access {
                AccessResponseView { outcome: Outcome::Success, name: Some(u.username) }
            } else {
                AccessResponseView { outcome: Outcome::Revoked, name: None }
            }
        }),
    decreases i,
{
    if i > 0 {
        let rest = lines.drop_first();
        assert(rest[i - 1] == lines[i]);
        assert(forall|j: int|
            0 <= j < i - 1 ==> match #[trigger] spec_parse_user(rest[j]) {
                Some(u) => u.token != token,
                None => true,
            }) by {
            assert(forall|j: int| 0 <= j < i - 1 ==> rest[j] == lines[j + 1]);
        }
        lemma_first_match_decides(rest, token, i - 1);
        assert(match spec_parse_user(lines[0]) {
            Some(u) => u.token != token,
            None => true,
        });
    }
}

/// A token no record of the file carries is answered `Unknown`, with no
/// name.
pub proof fn lemma_no_match_unknown(lines: Seq<Seq<char>>, token: Seq<char>)
    requires
        forall|j: int|
            0 <= j < lines.len() ==> match #[trigger] spec_parse_user(lines[j]) {
                Some(u) => u.token != token,
                None => true,
            },
    ensures
        spec_file_verify(lines, token) == (AccessResponseView {
            outcome: Outcome::Unknown,
            name: None,
        }),
    decreases lines.len(),
{
    if lines.len() > 0 {
        let rest = lines.drop_first();
        assert(forall|j: int|
            0 <= j < rest.len() ==> match #[trigger] spec_parse_user(rest[j]) {
                Some(u) => u.token != token,
                None => true,
            }) by {
            assert(forall|j: int| 0 <= j < rest.len() ==> rest[j] == lines[j + 1]);
        }
        lemma_no_match_unknown(rest, token);
        assert(match spec_parse_user(lines[0]) {
            Some(u) => u.token != token,
            None => true,
        });
    }
}

} // verus!
