//! The directory-backed identity store.  Opening the connection, binding and
//! searching are the surrounding application's business; what lives here is
//! the request side — escaping the token and substituting it into the
//! configured filter template — and the response side: classifying the
//! search's result cardinality and joining the name attribute's values.

use vstd::prelude::*;

verus! {

use crate::identity::{AccessResponse, AccessResponseView, Outcome};
use crate::text::{chars_of, string_of};

// ===== token escaping =====

/// What one character contributes to an escaped filter literal: backslash,
/// asterisk, the two parentheses and NUL become two-digit lowercase hex
/// escapes; every other character stands for itself.
pub open spec fn ldap_escaped_char(c: char) -> Seq<char> {
    if c == '\\' {
        seq!['\\', '5', 'c']
    } else if c == '*' {
        seq!['\\', '2', 'a']
    } else if c == '(' {
        seq!['\\', '2', '8']
    } else if c == ')' {
        seq!['\\', '2', '9']
    } else if c == '\u{0}' {
        seq!['\\', '0', '0']
    } else {
        seq![c]
    }
}

/// The escaped form of a whole filter literal.
pub open spec fn ldap_escaped(s: Seq<char>) -> Seq<char>
    decreases s.len(),
{
    if s.len() == 0 {
        Seq::empty()
    } else {
        ldap_escaped_char(s[0]) + ldap_escaped(s.drop_first())
    }
}

/// Relies on `ldap3::ldap_escape`: it replaces each backslash, asterisk,
/// parenthesis and NUL byte with `\` followed by the byte's two lowercase
/// hex digits, and leaves every other byte of the literal alone.  All five
/// escaped bytes are ASCII, so the per-byte replacement is exactly the
/// per-character one stated here.
#[verifier::external_body]
fn ldap_escape_token(s: &str) -> (r: String)
    ensures
        r@ == ldap_escaped(s@),
{
    ldap3::ldap_escape(s).into_owned()
}

// ===== template substitution =====

/// The filter template with every `%t` placeholder replaced by `rep`,
/// leftmost occurrence first, without rescanning what was substituted.
pub open spec fn spec_subst(s: Seq<char>, rep: Seq<char>) -> Seq<char>
    decreases s.len(),
{
    if s.len() >= 2 && s[0] == '%' && s[1] == 't' {
        rep + spec_subst(s.skip(2), rep)
    } else if s.len() == 0 {
        Seq::empty()
    } else {
        seq![s[0]] + spec_subst(s.drop_first(), rep)
    }
}

fn subst_template(template: &Vec<char>, rep: &Vec<char>) -> (out: Vec<char>)
    ensures
        out@ == spec_subst(template@, rep@),
{
    let mut out: Vec<char> = Vec::new();
    let mut i: usize = 0;
    assert(template@.skip(0) =~= template@);
    while i < template.len()
        invariant
            i <= template@.len(),
            spec_subst(template@, rep@) == out@ + spec_subst(template@.skip(i as int), rep@),
        decreases template@.len() - i,
    {
        let ghost suffix = template@.skip(i as int);
        assert(suffix[0] == template@[i as int]);
        if i + 1 < template.len() && template[i] == '%' && template[i + 1] == 't' {
            assert(suffix[1] == template@[i + 1]);
            assert(suffix.skip(2) =~= template@.skip(i + 2));
            let ghost ob = out@;
            out.extend_from_slice(rep.as_slice());
            proof {
                assert(out@ =~= ob + rep@);
                assert(ob + (rep@ + spec_subst(template@.skip(i + 2), rep@)) =~= out@
                    + spec_subst(template@.skip(i + 2), rep@));
            }
            i += 2;
        } else {
            assert(suffix.drop_first() =~= template@.skip(i + 1));
            proof {
                if suffix.len() >= 2 && suffix[0] == '%' && suffix[1] == 't' {
                    assert(template@[i + 1] == suffix[1]);
                    assert(false);
                }
                assert(out@ + (seq![suffix[0]] + spec_subst(template@.skip(i + 1), rep@)) =~= (
                out@ + seq![suffix[0]]) + spec_subst(template@.skip(i + 1), rep@));
            }
            out.push(template[i]);
            i += 1;
        }
    }
    assert(template@.skip(template@.len() as int) =~= Seq::<char>::empty());
    assert(out@ + Seq::<char>::empty() =~= out@);
    out
}

// ===== joining attribute values =====

/// What follows the first value when several are joined with `;`.
pub open spec fn spec_join_rest(values: Seq<Seq<char>>) -> Seq<char>
    decreases values.len(),
{
    if values.len() == 0 {
        Seq::empty()
    } else {
        seq![';'] + values[0] + spec_join_rest(values.drop_first())
    }
}

/// The values joined with `;`: a directory attribute is multi-valued.
pub open spec fn spec_join(values: Seq<Seq<char>>) -> Seq<char> {
    if values.len() == 0 {
        Seq::empty()
    } else {
        values[0] + spec_join_rest(values.drop_first())
    }
}

/// The views of the attribute values handed in.
pub open spec fn value_views(values: Seq<String>) -> Seq<Seq<char>> {
    values.map_values(|v: String| v@)
}

fn join_values(values: &Vec<String>) -> (out: String)
    ensures
        out@ == spec_join(value_views(values@)),
{
    let ghost vv = value_views(values@);
    let mut acc: Vec<char> = Vec::new();
    if values.len() == 0 {
        return string_of(&acc);
    }
    let mut first = chars_of(values[0].as_str());
    acc.append(&mut first);
    assert(vv[0] == values@[0]@);
    let mut i: usize = 1;
    assert(vv.drop_first() =~= vv.skip(1));
    assert(spec_join(vv) == vv[0] + spec_join_rest(vv.skip(1)));
    while i < values.len()
        invariant
            1 <= i <= values@.len(),
            vv == value_views(values@),
            spec_join(vv) == acc@ + spec_join_rest(vv.skip(i as int)),
        decreases values@.len() - i,
    {
        let ghost suffix = vv.skip(i as int);
        assert(suffix[0] == vv[i as int]);
        assert(vv[i as int] == values@[i as int]@);
        assert(suffix.drop_first() =~= vv.skip(i + 1));
        let ghost ob = acc@;
        acc.push(';');
        let mut next = chars_of(values[i].as_str());
        acc.append(&mut next);
        proof {
            assert(acc@ =~= ob + seq![';'] + suffix[0]);
            assert(ob + (seq![';'] + suffix[0] + spec_join_rest(vv.skip(i + 1))) =~= acc@
                + spec_join_rest(vv.skip(i + 1)));
        }
        i += 1;
    }
    assert(vv.skip(values@.len() as int) =~= Seq::<Seq<char>>::empty());
    assert(acc@ + Seq::<char>::empty() =~= acc@);
    string_of(&acc)
}

// ===== the backend =====

/// Settings of the directory-backed identity store.
pub struct LdapSettings {
    pub url: String,
    pub base_dn: String,
    pub bind_dn: String,
    pub bind_password: String,
    pub user_filter: String,
    pub user_name_attr: String,
}

/// What a directory search must answer for one check: how the `Success`,
/// `Revoked` and `Unknown` outcomes follow from the number of entries found.
pub open spec fn spec_classify(count: int, values: Seq<Seq<char>>) -> AccessResponseView {
    if count == 0 {
        AccessResponseView { outcome: Outcome::Unknown, name: None }
    } else if count == 1 {
        AccessResponseView { outcome: Outcome::Success, name: Some(spec_join(values)) }
    } else {
        AccessResponseView { outcome: Outcome::Revoked, name: None }
    }
}

/// The directory-backed identity store.  It holds its settings; the
/// surrounding application owns the connection, binds with the configured
/// credentials, runs the search this module builds, and hands the result
/// back to be classified.
pub struct Ldap {
    pub settings: LdapSettings,
}

impl Ldap {
    pub fn new(settings: LdapSettings) -> (s: Self)
        ensures
            s.settings == settings,
    {
        Ldap { settings }
    }

    /// Build the search filter for `token`: the token is escaped and then
    /// substituted for the `%t` placeholder of the configured template.
    pub fn search_filter(&self, token: &str) -> (f: String)
        ensures
            f@ == spec_subst(self.settings.user_filter@, ldap_escaped(token@)),
    {
        let escaped = ldap_escape_token(token);
        let template = chars_of(self.settings.user_filter.as_str());
        let rep = chars_of(escaped.as_str());
        let out = subst_template(&template, &rep);
        string_of(&out)
    }

    /// Classify a search that found `count` entries; `values` holds the name
    /// attribute's values of the single entry when `count` is 1.  Zero
    /// entries mean the token is unknown; exactly one is a success, named by
    /// the joined attribute values; two or more are ambiguous, and ambiguity
    /// is denied as a revocation, with no name.
    pub fn classify(&self, count: usize, values: &Vec<String>) -> (r: AccessResponse)
        ensures
            r@ == spec_classify(count as int, value_views(values@)),
            r@.valid(),
    {
        if count == 0 {
            AccessResponse { outcome: Outcome::Unknown, name: None }
        } else if count == 1 {
            AccessResponse { outcome: Outcome::Success, name: Some(join_values(values)) }
        } else {
            AccessResponse { outcome: Outcome::Revoked, name: None }
        }
    }
}

} // verus!
