//! Shared pieces: the title validator applied to usernames and to App/Repo
//! titles, and the [`Cleaned`] pair of safe representations every stored
//! string passes through before rendering — a percent-encoded form for URL
//! contexts and an entity-escaped form for HTML text contexts.

use vstd::prelude::*;
use vstd::string::*;
use crate::store::Store;
use crate::text::{chars_of, check_alnum, is_alnum};

verus! {

/// The byte length of a string, i.e. of its UTF-8 encoding (what
/// `str::len` reports).
pub open spec fn byte_len(s: Seq<char>) -> usize {
    vstd::utf8::encode_utf8(s).len() as usize
}

// ------------------------------------------------------------------
// Title validation
// ------------------------------------------------------------------

/// A middle character of a title: alphanumeric, underscore or hyphen.
pub open spec fn is_title_char(c: char) -> bool {
    is_alnum(c) || c == '_' || c == '-'
}

/// The title format: at least three characters, alphanumeric at both ends,
/// alphanumeric, `_` or `-` in between.
pub open spec fn title_ok(s: Seq<char>) -> bool {
    &&& s.len() >= 3
    &&& is_alnum(s[0])
    &&& is_alnum(s[s.len() - 1])
    &&& forall|i: int| 0 < i < s.len() - 1 ==> is_title_char(#[trigger] s[i])
}

/// The title format admits no string of fewer than three characters.
pub proof fn lemma_title_min_len(s: Seq<char>)
    ensures
        title_ok(s) ==> s.len() >= 3,
{
}

pub fn validate_title(title: &str) -> (r: bool)
    ensures
        r == title_ok(title@),
{
    let cs = chars_of(title);
    let n = cs.len();
    if n < 3 {
        return false;
    }
    if !check_alnum(cs[0]) || !check_alnum(cs[n - 1]) {
        return false;
    }
    let mut i: usize = 1;
    while i < n - 1
        invariant
            cs@ == title@,
            n == title@.len(),
            3 <= n,
            1 <= i <= n - 1,
            forall|k: int| 0 < k < i ==> is_title_char(#[trigger] title@[k]),
        decreases n - 1 - i,
    {
        let c = cs[i];
        if !(check_alnum(c) || c == '_' || c == '-') {
            assert(!is_title_char(title@[i as int]));
            return false;
        }
        i += 1;
    }
    true
}

// ------------------------------------------------------------------
// HTML text escaping
// ------------------------------------------------------------------

/// What HTML text escaping substitutes for one character: the characters
/// that can open or close markup become entities, everything else passes
/// through verbatim.
pub open spec fn clean_char(c: char) -> Seq<char> {
    if c == '<' {
        seq!['&', 'l', 't', ';']
    } else if c == '>' {
        seq!['&', 'g', 't', ';']
    } else if c == '"' {
        seq!['&', 'q', 'u', 'o', 't', ';']
    } else if c == '\'' {
        seq!['&', 'a', 'p', 'o', 's', ';']
    } else if c == '`' {
        seq!['&', 'g', 'r', 'a', 'v', 'e', ';']
    } else if c == '/' {
        seq!['&', '#', '4', '7', ';']
    } else if c == '&' {
        seq!['&', 'a', 'm', 'p', ';']
    } else if c == '=' {
        seq!['&', '#', '6', '1', ';']
    } else if c == ' ' {
        seq!['&', '#', '3', '2', ';']
    } else if c == '\t' {
        seq!['&', '#', '9', ';']
    } else if c == '\n' {
        seq!['&', '#', '1', '0', ';']
    } else if c == '\u{000C}' {
        seq!['&', '#', '1', '2', ';']
    } else if c == '\r' {
        seq!['&', '#', '1', '3', ';']
    } else if c == '\0' {
        seq!['&', '#', '6', '5', '5', '3', '3', ';']
    } else {
        seq![c]
    }
}

/// A string with every character escaped for safe inclusion in HTML text.
pub open spec fn html_escaped(s: Seq<char>) -> Seq<char>
    decreases s.len(),
{
    if s.len() == 0 {
        Seq::empty()
    } else {
        clean_char(s[0]) + html_escaped(s.drop_first())
    }
}

/// Relies on `ammonia::clean_text`: it maps each character of the input to
/// the substitution given by [`clean_char`] and concatenates the results.
#[verifier::external_body]
pub(crate) fn clean_text(s: &str) -> (r: String)
    ensures
        r@ == html_escaped(s@),
{
    ammonia::clean_text(s)
}

/// The escaped form of a string contains no character that could open or
/// close HTML markup or an attribute value.
pub proof fn lemma_html_escaped_no_markup(s: Seq<char>)
    ensures
        forall|i: int| 0 <= i < html_escaped(s).len() ==> {
            let c = #[trigger] html_escaped(s)[i];
            c != '<' && c != '>' && c != '"' && c != '\'' && c != '`' && c != '/'
        },
    decreases s.len(),
{
    if s.len() > 0 {
        lemma_html_escaped_no_markup(s.drop_first());
        let head = clean_char(s[0]);
        let tail = html_escaped(s.drop_first());
        assert(html_escaped(s) == head + tail);
        assert forall|i: int| 0 <= i < html_escaped(s).len() implies {
            let c = #[trigger] html_escaped(s)[i];
            c != '<' && c != '>' && c != '"' && c != '\'' && c != '`' && c != '/'
        } by {
            if i < head.len() {
                assert(html_escaped(s)[i] == head[i]);
            } else {
                assert(html_escaped(s)[i] == tail[i - head.len()]);
            }
        }
    }
}

// ------------------------------------------------------------------
// Percent-encoding
// ------------------------------------------------------------------

pub open spec fn is_alnum_byte(b: u8) -> bool {
    (48 <= b <= 57) || (65 <= b <= 90) || (97 <= b <= 122)
}

/// The uppercase hexadecimal digit for a value below 16.
pub open spec fn hex_upper(v: u8) -> char {
    if v == 0 {
        '0'
    } else if v == 1 {
        '1'
    } else if v == 2 {
        '2'
    } else if v == 3 {
        '3'
    } else if v == 4 {
        '4'
    } else if v == 5 {
        '5'
    } else if v == 6 {
        '6'
    } else if v == 7 {
        '7'
    } else if v == 8 {
        '8'
    } else if v == 9 {
        '9'
    } else if v == 10 {
        'A'
    } else if v == 11 {
        'B'
    } else if v == 12 {
        'C'
    } else if v == 13 {
        'D'
    } else if v == 14 {
        'E'
    } else {
        'F'
    }
}

/// How one byte is percent-encoded: ASCII alphanumerics stand for
/// themselves, every other byte becomes `%` and two uppercase hex digits.
pub open spec fn encoded_byte(b: u8) -> Seq<char> {
    if is_alnum_byte(b) {
        seq![b as char]
    } else {
        seq!['%', hex_upper(b / 16), hex_upper(b % 16)]
    }
}

/// The percent-encoding of a byte string under the non-alphanumeric set.
pub open spec fn percent_encoded(bytes: Seq<u8>) -> Seq<char>
    decreases bytes.len(),
{
    if bytes.len() == 0 {
        Seq::empty()
    } else {
        encoded_byte(bytes[0]) + percent_encoded(bytes.drop_first())
    }
}

/// Relies on `percent_encoding::percent_encode` with `NON_ALPHANUMERIC`:
/// every byte that is not an ASCII alphanumeric is written as `%` and two
/// uppercase hex digits, every other byte stands for itself.
#[verifier::external_body]
fn percent_encode_str(s: &str) -> (r: String)
    ensures
        r@ == percent_encoded(s.spec_bytes()),
{
    percent_encoding::percent_encode(s.as_bytes(), percent_encoding::NON_ALPHANUMERIC).to_string()
}

/// A percent-encoded string consists of ASCII alphanumerics and `%` only.
pub proof fn lemma_percent_encoded_safe(bytes: Seq<u8>)
    ensures
        forall|i: int| 0 <= i < percent_encoded(bytes).len() ==> {
            let c = #[trigger] percent_encoded(bytes)[i];
            is_alnum(c) || c == '%'
        },
    decreases bytes.len(),
{
    if bytes.len() > 0 {
        lemma_percent_encoded_safe(bytes.drop_first());
        let b = bytes[0];
        let head = encoded_byte(b);
        let tail = percent_encoded(bytes.drop_first());
        assert(percent_encoded(bytes) == head + tail);
        assert forall|i: int| 0 <= i < percent_encoded(bytes).len() implies {
            let c = #[trigger] percent_encoded(bytes)[i];
            is_alnum(c) || c == '%'
        } by {
            if i < head.len() {
                assert(percent_encoded(bytes)[i] == head[i]);
                if is_alnum_byte(b) {
                    assert(head[i] == b as char);
                    assert(is_alnum(b as char));
                } else {
                    assert(0 <= b / 16 < 16 && 0 <= b % 16 < 16);
                    assert(is_alnum(hex_upper(b / 16)));
                    assert(is_alnum(hex_upper(b % 16)));
                }
            } else {
                assert(percent_encoded(bytes)[i] == tail[i - head.len()]);
            }
        }
    }
}

// ------------------------------------------------------------------
// The safe pair
// ------------------------------------------------------------------

/// The two safe representations of a stored string: percent-encoded for URL
/// contexts, entity-escaped for HTML text contexts.
pub struct Cleaned {
    pub url: String,
    pub html: String,
}

/// `c` holds the two safe representations of the string `s`.
pub open spec fn is_clean_of(c: Cleaned, s: Seq<char>) -> bool {
    &&& c.url@ == percent_encoded(vstd::utf8::encode_utf8(s))
    &&& c.html@ == html_escaped(s)
}

impl Cleaned {
    pub fn new(string: &String) -> (c: Cleaned)
        ensures
            is_clean_of(c, string@),
    {
        Cleaned { url: percent_encode_str(string.as_str()), html: clean_text(string.as_str()) }
    }
}

// ------------------------------------------------------------------
// Page context
// ------------------------------------------------------------------

/// What every page starts from: the site's own domain, and the signed-in
/// user's display fields when somebody is signed in.
pub struct PageContext {
    pub domain: String,
    pub clean_user: Option<crate::users::CleanUser>,
}

/// The context shows the signed-in user exactly when the cookies resolve
/// to one.
pub open spec fn context_for(store: Store, cookie: Option<&str>, c: PageContext) -> bool {
    &&& c.domain@ == "https://schoolthings.xyz"@
    &&& match c.clean_user {
        Some(cu) => exists|u: crate::users::User|
            #[trigger] store.users@.contains(u) && crate::users::signed_in_as(store, cookie, u)
                && cu.is_clean_of(u),
        None => !(exists|u: crate::users::User|
            #[trigger] store.users@.contains(u) && crate::users::signed_in_as(store, cookie, u)),
    }
}

/// The context of an anonymous visit.
pub fn default_context() -> (c: PageContext)
    ensures
        c.domain@ == "https://schoolthings.xyz"@,
        c.clean_user is None,
{
    PageContext { domain: String::from_str("https://schoolthings.xyz"), clean_user: None }
}

/// Resolve the request into a page context, its session and its user.
/// Never fails outward: every lookup failure degrades to an anonymous
/// context.
pub fn signed_in_context<'a>(store: &'a Store, cookie: Option<&str>) -> (r: (
    PageContext,
    Option<&'a crate::sessions::Session>,
    Option<&'a crate::users::User>,
))
    requires
        store.wf(),
    ensures
        context_for(*store, cookie, r.0),
        match r.1 {
            Some(s) => store.sessions@.contains(*s) && Some(s.id)
                == crate::users::cookie_session_id(cookie),
            None => crate::users::cookie_session_id(cookie) is None || !store.has_session(
                crate::users::cookie_session_id(cookie).unwrap(),
            ),
        },
        match r.2 {
            Some(u) => r.1 is Some && r.1.unwrap().logged_in_user == Some(u.id)
                && store.users@.contains(*u) && r.0.clean_user is Some
                && r.0.clean_user.unwrap().is_clean_of(*u),
            None => r.0.clean_user is None,
        },
{
    let mut context = default_context();
    match crate::sessions::get_from_cookies(store, cookie) {
        Ok(session) => match crate::users::get_from_session(store, session) {
            Ok(user) => {
                context.clean_user = Some(crate::users::CleanUser::from_user(user));
                proof {
                    assert(store.sessions@.contains(*session));
                    assert(crate::users::signed_in_as(*store, cookie, *user));
                }
                (context, Some(session), Some(user))
            },
            Err(_) => {
                proof {
                    crate::users::lemma_nobody_signed_in(*store, cookie, *session);
                }
                (context, Some(session), None)
            },
        },
        Err(_) => {
            proof {
                assert forall|u: crate::users::User|
                    !(#[trigger] store.users@.contains(u) && crate::users::signed_in_as(
                        *store,
                        cookie,
                        u,
                    )) by {
                    if store.users@.contains(u) && crate::users::signed_in_as(*store, cookie, u) {
                        let s = choose|s: crate::sessions::Session|
                            #[trigger] store.sessions@.contains(s) && Some(s.id)
                                == crate::users::cookie_session_id(cookie) && s.logged_in_user
                                == Some(u.id);
                        let j = choose|j: int|
                            0 <= j < store.sessions@.len() && store.sessions@[j] == s;
                        assert(store.has_session(s.id));
                    }
                }
            }
            (context, None, None)
        },
    }
}

/// The home page: the shared context, anonymous or personalized.
pub fn home(store: &Store, cookie: Option<&str>) -> (c: PageContext)
    requires
        store.wf(),
    ensures
        context_for(*store, cookie, c),
{
    let (context, _, _) = signed_in_context(store, cookie);
    context
}

/// The sitemap: every app and every user, in their safe representations.
pub struct SitemapPage {
    pub context: PageContext,
    pub clean_apps: Vec<crate::apps::CleanApp>,
    pub clean_users: Vec<crate::users::CleanUser>,
}

pub fn sitemap(store: &Store) -> (p: SitemapPage)
    ensures
        p.context.domain@ == "https://schoolthings.xyz"@,
        p.context.clean_user is None,
        p.clean_apps@.len() == store.apps@.len(),
        forall|i: int|
            0 <= i < store.apps@.len() ==> (#[trigger] p.clean_apps@[i]).is_clean_of(
                store.apps@[i],
            ),
        p.clean_users@.len() == store.users@.len(),
        forall|i: int|
            0 <= i < store.users@.len() ==> (#[trigger] p.clean_users@[i]).is_clean_of(
                store.users@[i],
            ),
{
    SitemapPage {
        context: default_context(),
        clean_apps: crate::apps::CleanApp::from_vec(crate::apps::get_all(store)),
        clean_users: crate::users::CleanUser::from_vec(crate::users::get_all(store)),
    }
}

} // verus!

