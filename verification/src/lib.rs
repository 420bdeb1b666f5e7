//! A client for the Edupage school system: the state of a session, the
//! reading of the server's answers, and the decoding of a user's data.
//!
//! The network exchange itself is made by the caller: this crate says what
//! to ask for (the URLs), what to take from the answers, and what the
//! answers mean.
pub mod decode;
pub mod edupage_data;
pub mod edupage_types;
pub mod json;
pub mod overview;
pub mod text;

use vstd::prelude::*;

use crate::decode::{data_outcome, decode_data, Outcome};
use crate::edupage_data::{Data, DataView};
use crate::edupage_types::{account_from_chars, account_name_ok, AccountType, Error};
use crate::json::{json_of_text, parse_json, JsonModel, JsonValue};
use crate::text::{
    chars_of, contains, find_from, first_piece, free_of_breaks, has_prefix, lemma_find_contains,
    lemma_find_first_at, lemma_find_from, lemma_no_occurrence_across, lemma_no_occurrence_before,
    lemma_split_free_of_breaks, lemma_without_breaks_append, lemma_without_breaks_free,
    lemma_without_breaks_unchanged, occurs_at, parse_i32, second_piece, split_first, split_second,
    string_from_range, strip_breaks, without_breaks,
};

verus! {

/// The state of a session with one school's Edupage site.
#[derive(Debug)]
pub struct Educlient {
    pub logged_in: bool,
    pub domain: String,
    pub json: JsonValue,
}

/// The address of a page of the school's site: `https://{domain}.edupage.org{path}`.
pub open spec fn site_url(domain: Seq<char>, path: Seq<char>) -> Seq<char> {
    "https://"@ + domain + ".edupage.org"@ + path
}

/// The JSON text that the page after a login carries: with tabs and line
/// breaks removed, what stands between the first `userhome(` and the next `);`.
pub open spec fn userhome_payload(body: Seq<char>) -> Seq<char> {
    split_first(split_second(without_breaks(body), "userhome("@).unwrap(), ");"@)
}

/// The JSON text taken from the answer to a login holds no tab, carriage
/// return or line feed.
pub proof fn lemma_userhome_payload_free_of_breaks(body: Seq<char>)
    requires
        contains(without_breaks(body), "userhome("@),
    ensures
        free_of_breaks(userhome_payload(body)),
{
    let page = without_breaks(body);
    lemma_without_breaks_free(body);
    lemma_find_contains(page, "userhome("@);
    lemma_split_free_of_breaks(page, "userhome("@);
    lemma_split_free_of_breaks(split_second(page, "userhome("@).unwrap(), ");"@);
}

/// The JSON text taken from the answer to a login is exactly what stands
/// between `userhome(` and the `);` after it: for a page
/// `before + "userhome(" + json + ");" + after`, where `before` (its breaks
/// removed) holds no `userhome(`, and `json` holds no break, no `);` and no
/// `userhome(`, it is `json`, whatever `after` holds.
pub proof fn lemma_userhome_payload_exact(before: Seq<char>, json: Seq<char>, after: Seq<char>)
    requires
        !contains(without_breaks(before), "userhome("@),
        free_of_breaks(json),
        !contains(json, ");"@),
        !contains(json, "userhome("@),
    ensures
        userhome_payload(before + "userhome("@ + json + ");"@ + after) == json,
{
    let u = "userhome("@;
    let e = ");"@;
    reveal_strlit("userhome(");
    reveal_strlit(");");
    let wb = without_breaks(before);
    let wa = without_breaks(after);
    let body = before + u + json + e + after;
    lemma_without_breaks_append(before + u + json + e, after);
    lemma_without_breaks_append(before + u + json, e);
    lemma_without_breaks_append(before + u, json);
    lemma_without_breaks_append(before, u);
    lemma_without_breaks_unchanged(u);
    lemma_without_breaks_unchanged(e);
    lemma_without_breaks_unchanged(json);
    let page = without_breaks(body);
    let tail = u + json + e + wa;
    assert(page =~= wb + tail);
    assert(tail.take(u.len() as int) =~= u);
    lemma_no_occurrence_before(wb, tail, u);
    assert(page.subrange(wb.len() as int, (wb.len() + u.len()) as int) =~= u);
    lemma_find_first_at(page, u, wb.len() as int);
    let rest = page.skip((wb.len() + u.len()) as int);
    assert(rest =~= json + (e + wa));
    lemma_no_occurrence_across(json, e + wa, u);
    lemma_find_from(rest, u, 0);
    let q = split_first(rest, u);
    let n = json.len() as int;
    assert(rest[n] == ')');
    assert(rest[n + 1] == ';');
    match find_from(rest, u, 0) {
        Some(k) => {
            assert(occurs_at(rest, u, k));
            assert(rest.subrange(k, k + u.len())[0] == rest[k]);
            assert(k >= n);
            assert(k >= n + 2);
            assert(q =~= rest.take(k));
        },
        None => {},
    }
    assert(q.len() >= n + 2);
    assert(q.take(n + 2) =~= json + e);
    let t = q.skip(n);
    assert(q =~= json + t);
    assert(t[0] == ')');
    lemma_no_occurrence_across(json, t, e);
    assert(q.subrange(n, n + 2) =~= e);
    lemma_find_first_at(q, e, n);
    assert(q.take(n) =~= json);
}

/// The grades payload is exactly what stands between
/// `.znamkyStudentViewer(` and the script's closing lines after it: for a
/// page `before + marker + json + end + after`, where `before` holds no
/// marker and `json` holds neither the marker nor the closing lines, it is
/// `json`, whatever `after` holds.
pub proof fn lemma_grades_payload_exact(before: Seq<char>, json: Seq<char>, after: Seq<char>)
    requires
        !contains(before, ".znamkyStudentViewer("@),
        !contains(json, ".znamkyStudentViewer("@),
        !contains(json, ");\r\n\t\t});\r\n\t\t</script>"@),
    ensures
        grades_payload_of(
            before + ".znamkyStudentViewer("@ + json + ");\r\n\t\t});\r\n\t\t</script>"@ + after,
        ) == json,
{
    let m = ".znamkyStudentViewer("@;
    let e = ");\r\n\t\t});\r\n\t\t</script>"@;
    reveal_strlit(".znamkyStudentViewer(");
    reveal_strlit(");\r\n\t\t});\r\n\t\t</script>");
    let page = before + m + json + e + after;
    let tail = m + json + e + after;
    assert(page =~= before + tail);
    assert(tail.take(m.len() as int) =~= m);
    assert(forall|k: int| 0 <= k < m.len() - 1 ==> #[trigger] m[k] != m[m.len() - 1]);
    lemma_no_occurrence_before(before, tail, m);
    assert(page.subrange(before.len() as int, (before.len() + m.len()) as int) =~= m);
    lemma_find_first_at(page, m, before.len() as int);
    let rest = page.skip((before.len() + m.len()) as int);
    assert(rest =~= json + (e + after));
    assert((e + after)[0] == ')');
    lemma_no_occurrence_across(json, e + after, m);
    lemma_find_from(rest, m, 0);
    let q = split_first(rest, m);
    let n = json.len() as int;
    assert(forall|j: int| 0 <= j < e.len() ==> #[trigger] e[j] != '.');
    match find_from(rest, m, 0) {
        Some(k) => {
            assert(occurs_at(rest, m, k));
            assert(rest.subrange(k, k + m.len())[0] == rest[k]);
            assert(k >= n);
            if k < n + e.len() {
                assert(rest[k] == e[k - n]);
            }
            assert(q =~= rest.take(k));
        },
        None => {},
    }
    assert(q.len() >= n + e.len());
    assert(q.take(n + e.len()) =~= json + e);
    let t = q.skip(n);
    assert(q =~= json + t);
    assert(t.take(e.len() as int) =~= e);
    assert(forall|k: int| 0 <= k < e.len() - 1 ==> #[trigger] e[k] != e[e.len() - 1]);
    lemma_no_occurrence_before(json, t, e);
    assert(q.subrange(n, n + e.len()) =~= e);
    lemma_find_first_at(q, e, n);
    assert(q.take(n) =~= json);
}

/// Decoding a session's data depends on nothing but whether it is logged in
/// and what its JSON holds: two sessions alike in these, or two reads of one
/// session, give the same outcome.
pub proof fn lemma_data_outcome_depends_on_state(a: Educlient, b: Educlient)
    requires
        a.logged_in == b.logged_in,
        a.json.model() == b.json.model(),
    ensures
        data_outcome(a.json.model(), a.logged_in) == data_outcome(b.json.model(), b.logged_in),
{
}

/// The JSON text of the grades page: what stands after the first
/// `.znamkyStudentViewer(` and before the script's closing lines.
pub open spec fn grades_payload_of(page: Seq<char>) -> Seq<char> {
    split_first(
        split_second(page, ".znamkyStudentViewer("@).unwrap(),
        ");\r\n\t\t});\r\n\t\t</script>"@,
    )
}

fn site_url_string(domain: &String, path: &str) -> (r: String)
    ensures
        r@ == site_url(domain@, path@),
{
    let r = String::from_str("https://").concat(domain.as_str()).concat(".edupage.org").concat(path);
    r
}

impl Clone for Educlient {
    fn clone(&self) -> (r: Self)
        ensures
            r.logged_in == self.logged_in,
            r.domain == self.domain,
            r.json.model() == self.json.model(),
    {
        Educlient { logged_in: self.logged_in, domain: self.domain.clone(), json: self.json.clone() }
    }
}

impl Educlient {
    /// A session with the school at `domain`, not logged in and with no data.
    pub fn new(domain: String) -> (r: Educlient)
        ensures
            !r.logged_in,
            r.domain == domain,
            r.json.model() == JsonModel::Null,
    {
        Educlient { logged_in: false, domain, json: JsonValue::Null }
    }

    /// Where the login form is sent.
    pub fn login_url(&self) -> (r: String)
        ensures
            r@ == site_url(self.domain@, "/login/edubarlogin.php"@),
    {
        site_url_string(&self.domain, "/login/edubarlogin.php")
    }

    /// Reads the answer to a login: the address the server finally answered
    /// from, and the page it sent. A refused login (an address that holds
    /// `bad=1`) logs the session out; otherwise the JSON text of the user's
    /// data is returned and the session is left as it was.
    pub fn login_response(&mut self, final_url: &str, body: &str) -> (r: Result<String, Error>)
        requires
            !contains(final_url@, "bad=1"@) ==> contains(without_breaks(body@), "userhome("@),
        ensures
            contains(final_url@, "bad=1"@) ==> r == Err::<String, Error>(Error::LoginFailed)
                && !final(self).logged_in && final(self).domain == old(self).domain
                && final(self).json == old(self).json,
            !contains(final_url@, "bad=1"@) ==> r is Ok && r->Ok_0@ == userhome_payload(body@)
                && *final(self) == *old(self),
    {
        let url = chars_of(final_url);
        let bad = chars_of("bad=1");
        proof {
            reveal_strlit("bad=1");
            crate::text::lemma_find_contains(url@, bad@);
        }
        let refused = crate::text::find(url.as_slice(), bad.as_slice(), 0).is_some();
        if refused {
            self.logged_in = false;
            return Err(Error::LoginFailed);
        }
        let page = strip_breaks(chars_of(body).as_slice());
        let start = chars_of("userhome(");
        let end = chars_of(");");
        proof {
            reveal_strlit("userhome(");
            reveal_strlit(");");
        }
        let inner = second_piece(page.as_slice(), start.as_slice());
        let inner_chars = chars_of(inner.as_str());
        Ok(first_piece(inner_chars.as_slice(), end.as_slice()))
    }

    /// Takes the user's data that a successful login delivered: `null` means
    /// the server sent nothing, and the session is logged out; anything else
    /// logs the session in and keeps the data.
    pub fn accept_login_data(&mut self, data: JsonValue) -> (r: Result<(), Error>)
        ensures
            data.model().is_null() ==> r == Err::<(), Error>(Error::NoResponse)
                && !final(self).logged_in && final(self).domain == old(self).domain
                && final(self).json == old(self).json,
            !data.model().is_null() ==> r is Ok && final(self).logged_in && final(self).domain
                == old(self).domain && final(self).json == data,
    {
        if data.is_null() {
            self.logged_in = false;
            return Err(Error::NoResponse);
        }
        self.logged_in = true;
        self.json = data;
        Ok(())
    }

    /// Where the grades are read from; only a logged-in session may ask.
    pub fn grades_url(&self) -> (r: Result<String, Error>)
        ensures
            !self.logged_in ==> r == Err::<String, Error>(Error::NotLoggedIn),
            self.logged_in ==> r is Ok && r->Ok_0@ == site_url(self.domain@, "/znamky/?"@),
    {
        if !self.logged_in {
            return Err(Error::NotLoggedIn);
        }
        Ok(site_url_string(&self.domain, "/znamky/?"))
    }

    /// The JSON text of the grades that the grades page carries.
    pub fn grades_payload(page: &str) -> (r: String)
        requires
            contains(page@, ".znamkyStudentViewer("@),
        ensures
            r@ == grades_payload_of(page@),
    {
        let text = chars_of(page);
        let start = chars_of(".znamkyStudentViewer(");
        let end = chars_of(");\r\n\t\t});\r\n\t\t</script>");
        proof {
            reveal_strlit(".znamkyStudentViewer(");
            reveal_strlit(");\r\n\t\t});\r\n\t\t</script>");
        }
        let inner = second_piece(text.as_slice(), start.as_slice());
        let inner_chars = chars_of(inner.as_str());
        first_piece(inner_chars.as_slice(), end.as_slice())
    }

    /// The grades that the grades page carries, read as JSON; text that is
    /// no JSON gives `ParseError`.
    pub fn grades_from_page(page: &str) -> (r: Result<JsonValue, Error>)
        requires
            contains(page@, ".znamkyStudentViewer("@),
        ensures
            match r {
                Ok(v) => json_of_text(grades_payload_of(page@)) == Some(v.model()),
                Err(e) => e == Error::ParseError && json_of_text(grades_payload_of(page@)) is None,
            },
    {
        let payload = Educlient::grades_payload(page);
        match parse_json(payload.as_str()) {
            Some(v) => Ok(v),
            None => Err(Error::ParseError),
        }
    }

    /// Takes the answer to a login: the address the server finally answered
    /// from and the page it sent. A refused login (`bad=1` in the address)
    /// logs the session out with `LoginFailed`; user data that reads as
    /// `null` logs it out with `NoResponse`; other user data logs it in and
    /// is kept. A page without user data, or whose user data is no JSON,
    /// cannot be read, and leaves the session as it was.
    pub fn login_answer(&mut self, final_url: &str, body: &str) -> (r: Outcome<()>)
        ensures
            contains(final_url@, "bad=1"@) ==> r == Outcome::<()>::Fails(Error::LoginFailed)
                && !final(self).logged_in && final(self).domain == old(self).domain
                && final(self).json == old(self).json,
            !contains(final_url@, "bad=1"@) && !contains(without_breaks(body@), "userhome("@) ==> (
            r is Unreadable && *final(self) == *old(self)),
            !contains(final_url@, "bad=1"@) && contains(without_breaks(body@), "userhome("@) ==> match json_of_text(
                userhome_payload(body@),
            ) {
                None => r is Unreadable && *final(self) == *old(self),
                Some(m) => if m.is_null() {
                    r == Outcome::<()>::Fails(Error::NoResponse) && !final(self).logged_in
                        && final(self).domain == old(self).domain && final(self).json == old(self).json
                } else {
                    r == Outcome::<()>::Done(()) && final(self).logged_in && final(self).domain
                        == old(self).domain && final(self).json.model() == m
                },
            },
    {
        let url = chars_of(final_url);
        let bad = chars_of("bad=1");
        proof {
            reveal_strlit("bad=1");
            crate::text::lemma_find_contains(url@, bad@);
        }
        if crate::text::find(url.as_slice(), bad.as_slice(), 0).is_some() {
            self.logged_in = false;
            return Outcome::Fails(Error::LoginFailed);
        }
        let page = strip_breaks(chars_of(body).as_slice());
        let start = chars_of("userhome(");
        proof {
            reveal_strlit("userhome(");
            crate::text::lemma_find_contains(page@, start@);
        }
        if crate::text::find(page.as_slice(), start.as_slice(), 0).is_none() {
            return Outcome::Unreadable;
        }
        let payload = match self.login_response(final_url, body) {
            Ok(p) => p,
            Err(e) => return Outcome::Fails(e),
        };
        match parse_json(payload.as_str()) {
            None => Outcome::Unreadable,
            Some(data) => match self.accept_login_data(data) {
                Ok(()) => Outcome::Done(()),
                Err(e) => Outcome::Fails(e),
            },
        }
    }

    /// Takes user data saved earlier as JSON text, as the session's data;
    /// the session stays logged out or in as it was. Text that is no JSON is
    /// refused (`false`) and changes nothing.
    pub fn import_json(&mut self, text: &str) -> (r: bool)
        ensures
            match json_of_text(text@) {
                None => !r && *final(self) == *old(self),
                Some(m) => r && final(self).logged_in == old(self).logged_in && final(self).domain
                    == old(self).domain && final(self).json.model() == m,
            },
    {
        match parse_json(text) {
            None => false,
            Some(v) => {
                self.json = v;
                true
            },
        }
    }

    /// Decodes the user's data from the session's JSON: an error when there
    /// is none (`NotLoggedIn` before a login, `NotFound` after one), or when
    /// the account kind or a gender is not one the school uses
    /// (`ParseError`). The data must be readable (see [`Educlient::read_data`]).
    pub fn data(&self) -> (r: Result<Data, Error>)
        requires
            !(data_outcome(self.json.model(), self.logged_in) is Unreadable),
        ensures
            match r {
                Ok(d) => data_outcome(self.json.model(), self.logged_in) == Outcome::Done(d@),
                Err(e) => data_outcome(self.json.model(), self.logged_in) == Outcome::<
                    DataView,
                >::Fails(e),
            },
    {
        match decode_data(&self.json, self.logged_in) {
            Outcome::Done(d) => Ok(d),
            Outcome::Fails(e) => Err(e),
            Outcome::Unreadable => unreached(),
        }
    }

    /// Decodes the user's data, telling apart data that cannot be read at
    /// all (a required field missing or of the wrong kind, an id that is no
    /// number) from data that is refused.
    pub fn read_data(&self) -> (r: Outcome<Data>)
        ensures
            r@ == data_outcome(self.json.model(), self.logged_in),
    {
        decode_data(&self.json, self.logged_in)
    }

    /// The account that a name on the timeline stands for: `Student…`,
    /// `Rodic-…`, `Ucitel…` followed by an id, or `Admin`; any other name,
    /// or one whose id does not parse, is kept as `Other`.
    pub fn account_from_string(name: String) -> (r: AccountType)
        requires
            account_name_ok(name@),
        ensures
            r@ == account_from_chars(name@),
    {
        let cs = chars_of(name.as_str());
        let n = cs.len();
        proof {
            reveal_strlit("Student");
            reveal_strlit("Rodic-");
            reveal_strlit("Ucitel");
            reveal_strlit("Admin");
        }
        if has_prefix(cs.as_slice(), chars_of("Student").as_slice()) {
            let rest = string_from_range(cs.as_slice(), 8, n);
            assert(rest@ =~= name@.skip(8));
            return match parse_i32(rest.as_str()) {
                Some(id) => AccountType::Student(id),
                None => AccountType::Other(name),
            };
        }
        if has_prefix(cs.as_slice(), chars_of("Rodic-").as_slice()) {
            let rest = string_from_range(cs.as_slice(), 6, n);
            assert(rest@ =~= name@.skip(6));
            return match parse_i32(rest.as_str()) {
                Some(id) => AccountType::Parent(id),
                None => AccountType::Other(name),
            };
        }
        if has_prefix(cs.as_slice(), chars_of("Ucitel").as_slice()) {
            let rest = string_from_range(cs.as_slice(), 7, n);
            assert(rest@ =~= name@.skip(7));
            return match parse_i32(rest.as_str()) {
                Some(id) => AccountType::Teacher(id),
                None => AccountType::Other(name),
            };
        }
        if has_prefix(cs.as_slice(), chars_of("Admin").as_slice()) {
            return AccountType::Admin;
        }
        AccountType::Other(name)
    }
}

} // verus!
