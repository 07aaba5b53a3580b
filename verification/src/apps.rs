//! Apps: registered integration records owned by a user, identified by a
//! unique title. Creation validates the submitted fields; deletion is
//! guarded by re-submitted credentials and prunes the app from every repo.

use vstd::prelude::*;
use crate::common::{Cleaned, is_clean_of};
use crate::store::Store;
use crate::users::{User, LoginUser, CleanUser};
use crate::text::{
    str_eq,
    chars_of,
    check_alnum,
    check_alpha,
    check_digit,
    is_alnum,
    is_alpha,
    is_digit,
    digits_value,
};

verus! {

pub struct App {
    pub id: i64,
    pub owner_id: i64,
    pub title: String,
    pub description: String,
    pub domain: String,
    pub token: String,
    pub connected: bool,
    pub connected_error: String,
}

/// An app's display fields in their two safe representations.
pub struct CleanApp {
    pub title: Cleaned,
    pub description: Cleaned,
    pub domain: Cleaned,
    pub token: Cleaned,
    pub connected_error: Cleaned,
}

impl CleanApp {
    pub open spec fn is_clean_of(self, app: App) -> bool {
        &&& is_clean_of(self.title, app.title@)
        &&& is_clean_of(self.description, app.description@)
        &&& is_clean_of(self.domain, app.domain@)
        &&& is_clean_of(self.token, app.token@)
        &&& is_clean_of(self.connected_error, app.connected_error@)
    }

    pub fn from_app(app: &App) -> (c: CleanApp)
        ensures
            c.is_clean_of(*app),
    {
        CleanApp {
            title: Cleaned::new(&app.title),
            description: Cleaned::new(&app.description),
            domain: Cleaned::new(&app.domain),
            token: Cleaned::new(&app.token),
            connected_error: Cleaned::new(&app.connected_error),
        }
    }

    pub fn from_vec(apps: &Vec<App>) -> (v: Vec<CleanApp>)
        ensures
            v@.len() == apps@.len(),
            forall|i: int| 0 <= i < v@.len() ==> (#[trigger] v@[i]).is_clean_of(apps@[i]),
    {
        let mut cleaned: Vec<CleanApp> = Vec::new();
        let n = apps.len();
        let mut i: usize = 0;
        while i < n
            invariant
                n == apps@.len(),
                i <= n,
                cleaned@.len() == i,
                forall|k: int| 0 <= k < i ==> (#[trigger] cleaned@[k]).is_clean_of(apps@[k]),
            decreases n - i,
        {
            cleaned.push(CleanApp::from_app(&apps[i]));
            i += 1;
        }
        cleaned
    }
}

/// The create-app form as submitted.
pub struct FormApp {
    pub title: String,
    pub description: String,
    pub domain: String,
    pub token: String,
}

impl FormApp {
    pub fn to_new_app(self, owner_id: i64) -> (n: NewApp)
        ensures
            n.owner_id == owner_id,
            n.title == self.title,
            n.description == self.description,
            n.domain == self.domain,
            n.token == self.token,
    {
        NewApp {
            owner_id,
            title: self.title,
            description: self.description,
            domain: self.domain,
            token: self.token,
        }
    }
}

/// A validated app row waiting for its id.
pub struct NewApp {
    pub owner_id: i64,
    pub title: String,
    pub description: String,
    pub domain: String,
    pub token: String,
}

// ------------------------------------------------------------------
// Domain validation
// ------------------------------------------------------------------

/// A host label: 3 to 63 characters, alphanumeric at both ends,
/// alphanumeric or `-` in between.
pub open spec fn label_ok(l: Seq<char>) -> bool {
    &&& 3 <= l.len() <= 63
    &&& is_alnum(l[0])
    &&& is_alnum(l[l.len() - 1])
    &&& forall|i: int| 0 < i < l.len() - 1 ==> is_alnum(#[trigger] l[i]) || l[i] == '-'
}

/// The separator the pattern puts between labels: any character but a
/// newline.
pub open spec fn sep_ok(c: char) -> bool {
    c != '\n'
}

/// A top-level-domain part: two or three letters.
pub open spec fn tld_ok(t: Seq<char>) -> bool {
    &&& 2 <= t.len() <= 3
    &&& forall|i: int| 0 <= i < t.len() ==> is_alpha(#[trigger] t[i])
}

/// One label, or a label, a separator and a label.
pub open spec fn host_ok(h: Seq<char>) -> bool {
    label_ok(h) || exists|i: int|
        0 <= i < h.len() && label_ok(#[trigger] h.take(i)) && sep_ok(h[i]) && label_ok(
            h.skip(i + 1),
        )
}

/// A host, a separator and a top-level domain.
pub open spec fn host_tld_ok(h: Seq<char>) -> bool {
    exists|j: int|
        0 <= j < h.len() && host_ok(#[trigger] h.take(j)) && sep_ok(h[j]) && tld_ok(h.skip(j + 1))
}

/// A `:` followed by one to five digits closes the string at position `p`.
pub open spec fn port_split_at(b: Seq<char>, p: int) -> bool {
    &&& 0 <= p < b.len()
    &&& b[p] == ':'
    &&& 1 <= b.len() - (p + 1) <= 5
    &&& forall|k: int| p < k < b.len() ==> is_digit(#[trigger] b[k])
}

/// The string ends in a port whose value is below 65536, preceded by a
/// valid host and top-level domain.
pub open spec fn has_valid_port(b: Seq<char>) -> bool {
    exists|p: int|
        #[trigger] port_split_at(b, p) && host_tld_ok(b.take(p)) && digits_value(b.skip(p + 1))
            < 65536
}

pub open spec fn https_prefix() -> Seq<char> {
    seq!['h', 't', 't', 'p', 's', ':', '/', '/']
}

/// A valid domain: `https://`, then a host with its top-level domain,
/// optionally closed by a port below 65536.
pub open spec fn domain_ok(s: Seq<char>) -> bool {
    &&& s.len() > 8
    &&& s.take(8) == https_prefix()
    &&& (host_tld_ok(s.skip(8)) || has_valid_port(s.skip(8)))
}

/// Check `label_ok` on the characters between `lo` and `hi`.
fn check_label(cs: &Vec<char>, lo: usize, hi: usize) -> (r: bool)
    requires
        lo <= hi <= cs@.len(),
    ensures
        r == label_ok(cs@.subrange(lo as int, hi as int)),
{
    let ghost l = cs@.subrange(lo as int, hi as int);
    let len = hi - lo;
    if len < 3 || len > 63 {
        return false;
    }
    if !check_alnum(cs[lo]) {
        assert(l[0] == cs@[lo as int]);
        return false;
    }
    if !check_alnum(cs[hi - 1]) {
        assert(l[l.len() - 1] == cs@[hi - 1]);
        return false;
    }
    let mut i: usize = lo + 1;
    while i < hi - 1
        invariant
            lo + 1 <= i <= hi - 1,
            lo + 3 <= hi <= cs@.len(),
            l == cs@.subrange(lo as int, hi as int),
            forall|k: int| lo < k < i ==> is_alnum(#[trigger] cs@[k]) || cs@[k] == '-',
        decreases hi - i,
    {
        let c = cs[i];
        if !(check_alnum(c) || c == '-') {
            assert(l[i - lo] == cs@[i as int]);
            return false;
        }
        i += 1;
    }
    assert forall|k: int| 0 < k < l.len() - 1 implies is_alnum(#[trigger] l[k]) || l[k] == '-' by {
        assert(l[k] == cs@[lo + k]);
    }
    assert(l[0] == cs@[lo as int] && l[l.len() - 1] == cs@[hi - 1]);
    true
}

/// Check `tld_ok` on the characters between `lo` and `hi`.
fn check_tld(cs: &Vec<char>, lo: usize, hi: usize) -> (r: bool)
    requires
        lo <= hi <= cs@.len(),
    ensures
        r == tld_ok(cs@.subrange(lo as int, hi as int)),
{
    let ghost t = cs@.subrange(lo as int, hi as int);
    let len = hi - lo;
    if len < 2 || len > 3 {
        return false;
    }
    let mut i: usize = lo;
    while i < hi
        invariant
            lo <= i <= hi <= cs@.len(),
            t == cs@.subrange(lo as int, hi as int),
            forall|k: int| lo <= k < i ==> is_alpha(#[trigger] cs@[k]),
        decreases hi - i,
    {
        if !check_alpha(cs[i]) {
            assert(t[i - lo] == cs@[i as int]);
            return false;
        }
        i += 1;
    }
    assert forall|k: int| 0 <= k < t.len() implies is_alpha(#[trigger] t[k]) by {
        assert(t[k] == cs@[lo + k]);
    }
    true
}

/// Check `host_ok` on the characters between `lo` and `hi`.
fn check_host(cs: &Vec<char>, lo: usize, hi: usize) -> (r: bool)
    requires
        lo <= hi <= cs@.len(),
    ensures
        r == host_ok(cs@.subrange(lo as int, hi as int)),
{
    let ghost h = cs@.subrange(lo as int, hi as int);
    if check_label(cs, lo, hi) {
        return true;
    }
    let mut i: usize = lo;
    while i < hi
        invariant
            lo <= i <= hi <= cs@.len(),
            h == cs@.subrange(lo as int, hi as int),
            forall|k: int|
                lo <= k < i ==> !(label_ok(#[trigger] cs@.subrange(lo as int, k)) && sep_ok(
                    cs@[k],
                ) && label_ok(cs@.subrange(k + 1, hi as int))),
        decreases hi - i,
    {
        if check_label(cs, lo, i) && cs[i] != '\n' && check_label(cs, i + 1, hi) {
            proof {
                let i_rel = i - lo;
                assert(h.take(i_rel) =~= cs@.subrange(lo as int, i as int));
                assert(h.skip(i_rel + 1) =~= cs@.subrange(i + 1, hi as int));
                assert(h[i_rel] == cs@[i as int]);
                assert(label_ok(h.take(i_rel)) && sep_ok(h[i_rel]) && label_ok(
                    h.skip(i_rel + 1),
                ));
            }
            return true;
        }
        i += 1;
    }
    assert forall|i_rel: int|
        0 <= i_rel < h.len() implies !(label_ok(#[trigger] h.take(i_rel)) && sep_ok(h[i_rel])
        && label_ok(h.skip(i_rel + 1))) by {
        let k = lo + i_rel;
        assert(h.take(i_rel) =~= cs@.subrange(lo as int, k));
        assert(h.skip(i_rel + 1) =~= cs@.subrange(k + 1, hi as int));
        assert(h[i_rel] == cs@[k]);
    }
    false
}

/// Check `host_tld_ok` on the characters between `lo` and `hi`: a valid
/// top-level domain has two or three letters, so the separator can only
/// stand three or four characters from the end.
fn check_host_tld(cs: &Vec<char>, lo: usize, hi: usize) -> (r: bool)
    requires
        lo <= hi <= cs@.len(),
    ensures
        r == host_tld_ok(cs@.subrange(lo as int, hi as int)),
{
    let ghost h = cs@.subrange(lo as int, hi as int);
    let len = hi - lo;
    if len >= 3 && check_host(cs, lo, hi - 3) && cs[hi - 3] != '\n' && check_tld(cs, hi - 2, hi) {
        proof {
            let j = len - 3;
            assert(h.take(j) =~= cs@.subrange(lo as int, hi - 3));
            assert(h.skip(j + 1) =~= cs@.subrange(hi - 2, hi as int));
            assert(h[j] == cs@[hi - 3]);
            assert(host_ok(h.take(j)) && sep_ok(h[j]) && tld_ok(h.skip(j + 1)));
        }
        return true;
    }
    if len >= 4 && check_host(cs, lo, hi - 4) && cs[hi - 4] != '\n' && check_tld(cs, hi - 3, hi) {
        proof {
            let j = len - 4;
            assert(h.take(j) =~= cs@.subrange(lo as int, hi - 4));
            assert(h.skip(j + 1) =~= cs@.subrange(hi - 3, hi as int));
            assert(h[j] == cs@[hi - 4]);
            assert(host_ok(h.take(j)) && sep_ok(h[j]) && tld_ok(h.skip(j + 1)));
        }
        return true;
    }
    proof {
        if host_tld_ok(h) {
            let j = choose|j: int|
                0 <= j < h.len() && host_ok(#[trigger] h.take(j)) && sep_ok(h[j]) && tld_ok(
                    h.skip(j + 1),
                );
            assert(2 <= h.len() - (j + 1) <= 3);
            assert(j == len - 3 || j == len - 4);
            if j == len - 3 {
                assert(h.take(j) =~= cs@.subrange(lo as int, hi - 3));
                assert(h.skip(j + 1) =~= cs@.subrange(hi - 2, hi as int));
                assert(h[j] == cs@[hi - 3]);
                assert(false);
            } else {
                assert(h.take(j) =~= cs@.subrange(lo as int, hi - 4));
                assert(h.skip(j + 1) =~= cs@.subrange(hi - 3, hi as int));
                assert(h[j] == cs@[hi - 4]);
                assert(false);
            }
        }
    }
    false
}

/// Any port split agrees with the maximal run of trailing digits: the `:`
/// can only stand right before that run.
proof fn lemma_port_split_unique(s: Seq<char>, p: int, run: int)
    requires
        s.len() > 8,
        0 <= run <= s.len(),
        forall|j: int| s.len() - run <= j < s.len() ==> is_digit(#[trigger] s[j]),
        run == s.len() || !is_digit(s[s.len() - run - 1]),
        port_split_at(s.skip(8), p),
    ensures
        p == s.len() - 9 - run,
        1 <= run <= 5,
{
    let b = s.skip(8);
    let k = b.len() - (p + 1);
    assert(1 <= k <= 5);
    assert(b[p] == ':' && !is_digit(b[p]));
    assert(forall|j: int| p < j < b.len() ==> is_digit(#[trigger] b[j]));
    assert(b[p] == s[8 + p]);
    assert forall|j: int| 8 + p < j < s.len() implies is_digit(#[trigger] s[j]) by {
        assert(is_digit(b[j - 8]));
        assert(b[j - 8] == s[j]);
    }
    if k < run {
        // the `:` would sit inside the digit run
        assert(s.len() - run <= s.len() - 1 - k < s.len());
        assert(is_digit(s[s.len() - 1 - k]));
        assert(s[s.len() - 1 - k] == s[8 + p]);
        assert(false);
    }
    if k > run {
        // the run would have stopped inside the digits after the `:`
        assert(run < s.len());
        assert(8 + p < s.len() - run - 1 < s.len());
        assert(is_digit(s[s.len() - run - 1]));
        assert(false);
    }
    assert(k == run);
}

/// Validate a domain: `https://`, a host with two or three labels and a
/// two-or-three-letter top-level domain, and an optional `:port` with the
/// port below 65536.
pub fn validate_domain(domain: &str) -> (r: bool)
    ensures
        r == domain_ok(domain@),
{
    let cs = chars_of(domain);
    let n = cs.len();
    if n <= 8 {
        return false;
    }
    if !(cs[0] == 'h' && cs[1] == 't' && cs[2] == 't' && cs[3] == 'p' && cs[4] == 's' && cs[5]
        == ':' && cs[6] == '/' && cs[7] == '/') {
        proof {
            if domain@.take(8) == https_prefix() {
                assert(forall|i: int| 0 <= i < 8 ==> domain@.take(8)[i] == #[trigger] domain@[i]);
                assert(domain@[0] == 'h' && domain@[1] == 't' && domain@[2] == 't' && domain@[3]
                    == 'p' && domain@[4] == 's' && domain@[5] == ':' && domain@[6] == '/'
                    && domain@[7] == '/');
            }
        }
        return false;
    }
    proof {
        assert(domain@.take(8) =~= https_prefix());
    }
    let ghost b = domain@.skip(8);
    if check_host_tld(&cs, 8, n) {
        proof {
            assert(b =~= cs@.subrange(8, n as int));
        }
        return true;
    }
    proof {
        assert(b =~= cs@.subrange(8, n as int));
    }
    // no direct match: only a port form can remain; find the trailing digits
    let mut run: usize = 0;
    while run < n && check_digit(cs[n - 1 - run])
        invariant
            run <= n,
            n == cs@.len(),
            cs@ == domain@,
            forall|j: int| n - run <= j < n ==> is_digit(#[trigger] cs@[j]),
        decreases n - run,
    {
        run += 1;
    }
    assert(run == n || !is_digit(domain@[n - run - 1]));
    let shape_ok = 1 <= run && run <= 5 && run + 9 <= n && cs[n - 1 - run] == ':';
    if !shape_ok {
        proof {
            assert forall|p: int| !port_split_at(b, p) by {
                if port_split_at(b, p) {
                    lemma_port_split_unique(domain@, p, run as int);
                    assert(p == n - 9 - run >= 0);
                    assert(b[p] == ':');
                    assert(b[p] == domain@[8 + p]);
                    assert(false);
                }
            }
        }
        return false;
    }
    let p_abs = n - 1 - run;
    let host = check_host_tld(&cs, 8, p_abs);
    // the port's value, at most five digits
    let mut value: u32 = 0;
    let mut k: usize = p_abs + 1;
    while k < n
        invariant
            p_abs + 1 <= k <= n,
            n == cs@.len(),
            cs@ == domain@,
            n - run <= p_abs + 1,
            run <= 5,
            p_abs + 1 + 5 >= n,
            forall|j: int| n - run <= j < n ==> is_digit(#[trigger] cs@[j]),
            value == digits_value(cs@.subrange(p_abs + 1, k as int)),
            k - p_abs - 1 == 0 ==> value == 0,
            k - p_abs - 1 == 1 ==> value <= 9,
            k - p_abs - 1 == 2 ==> value <= 99,
            k - p_abs - 1 == 3 ==> value <= 999,
            k - p_abs - 1 == 4 ==> value <= 9999,
            k - p_abs - 1 == 5 ==> value <= 99999,
        decreases n - k,
    {
        let c = cs[k];
        assert(is_digit(c));
        let d: u32 = (c as u32) - 48;
        assert(d <= 9);
        value = value * 10 + d;
        proof {
            let q = cs@.subrange(p_abs + 1, k + 1);
            assert(q.drop_last() =~= cs@.subrange(p_abs + 1, k as int));
            assert(q.last() == cs@[k as int]);
        }
        k += 1;
    }
    let good = host && value < 65536;
    proof {
        let p_rel = p_abs - 8;
        assert(b.take(p_rel) =~= cs@.subrange(8, p_abs as int));
        assert(b.skip(p_rel + 1) =~= cs@.subrange(p_abs + 1, n as int));
        if good {
            assert(b[p_rel] == cs@[p_abs as int]);
            assert(forall|j: int|
                p_rel < j < b.len() ==> #[trigger] b[j] == cs@[8 + j] && n - run <= 8 + j < n);
            assert(port_split_at(b, p_rel));
            assert(has_valid_port(b));
        } else {
            assert forall|p: int| !(#[trigger] port_split_at(b, p) && host_tld_ok(b.take(p))
                && digits_value(b.skip(p + 1)) < 65536) by {
                if port_split_at(b, p) {
                    lemma_port_split_unique(domain@, p, run as int);
                    assert(p == p_rel);
                }
            }
            assert(!has_valid_port(b));
        }
    }
    good
}

/// The app row with the given title, if any.
pub fn get_by_title<'a>(store: &'a Store, title: &str) -> (r: Option<&'a App>)
    ensures
        match r {
            Some(a) => a.title@ == title@ && store.apps@.contains(*a),
            None => !store.has_app_titled(title@),
        },
{
    let n = store.apps.len();
    let mut i: usize = 0;
    while i < n
        invariant
            n == store.apps@.len(),
            i <= n,
            forall|k: int| 0 <= k < i ==> (#[trigger] store.apps@[k]).title@ != title@,
        decreases n - i,
    {
        if str_eq(store.apps[i].title.as_str(), title) {
            return Some(&store.apps[i]);
        }
        i += 1;
    }
    None
}

/// Every app row.
pub fn get_all<'a>(store: &'a Store) -> (r: &'a Vec<App>)
    ensures
        r@ == store.apps@,
{
    &store.apps
}

/// The app row with the given id, if any.
pub(crate) fn get_by_id<'a>(store: &'a Store, app_id: i64) -> (r: Option<&'a App>)
    ensures
        match r {
            Some(a) => a.id == app_id && store.apps@.contains(*a),
            None => !store.has_app(app_id),
        },
{
    let n = store.apps.len();
    let mut i: usize = 0;
    while i < n
        invariant
            n == store.apps@.len(),
            i <= n,
            forall|k: int| 0 <= k < i ==> (#[trigger] store.apps@[k]).id != app_id,
        decreases n - i,
    {
        if store.apps[i].id == app_id {
            return Some(&store.apps[i]);
        }
        i += 1;
    }
    None
}

/// The index of the app row with the given title, if any.
fn find_app_index(store: &Store, title: &str) -> (r: Option<usize>)
    ensures
        match r {
            Some(i) => i < store.apps@.len() && store.apps@[i as int].title@ == title@,
            None => !store.has_app_titled(title@),
        },
{
    let n = store.apps.len();
    let mut i: usize = 0;
    while i < n
        invariant
            n == store.apps@.len(),
            i <= n,
            forall|k: int| 0 <= k < i ==> (#[trigger] store.apps@[k]).title@ != title@,
        decreases n - i,
    {
        if str_eq(store.apps[i].title.as_str(), title) {
            return Some(i);
        }
        i += 1;
    }
    None
}

// ------------------------------------------------------------------
// Pages
// ------------------------------------------------------------------

/// The app listing page: the shared context and every app, cleaned.
pub fn apps(store: &Store, cookie: Option<&str>) -> (r: (crate::common::PageContext, Vec<CleanApp>))
    requires
        store.wf(),
    ensures
        crate::common::context_for(*store, cookie, r.0),
        r.1@.len() == store.apps@.len(),
        forall|i: int|
            0 <= i < store.apps@.len() ==> (#[trigger] r.1@[i]).is_clean_of(store.apps@[i]),
{
    let (context, _, _) = crate::common::signed_in_context(store, cookie);
    let cleaned = CleanApp::from_vec(get_all(store));
    (context, cleaned)
}

/// The create-app form page.
pub fn create_app(store: &Store, cookie: Option<&str>) -> (c: crate::common::PageContext)
    requires
        store.wf(),
    ensures
        crate::common::context_for(*store, cookie, c),
{
    let (context, _, _) = crate::common::signed_in_context(store, cookie);
    context
}

/// An app's detail page: the row, its safe representations, and the
/// owner's display data when the owner row exists; an error (a 404) when
/// no app carries the title.
pub fn app<'a>(store: &'a Store, title: &str, cookie: Option<&str>) -> (r: Result<
    (crate::common::PageContext, &'a App, CleanApp, Option<(&'a User, CleanUser)>),
    (),
>)
    requires
        store.wf(),
    ensures
        match r {
            Ok(page) => {
                &&& crate::common::context_for(*store, cookie, page.0)
                &&& page.1.title@ == title@
                &&& store.apps@.contains(*page.1)
                &&& page.2.is_clean_of(*page.1)
                &&& match page.3 {
                    Some(owner) => owner.0.id == page.1.owner_id && store.users@.contains(*owner.0)
                        && owner.1.is_clean_of(*owner.0),
                    None => !store.has_user(page.1.owner_id),
                }
            },
            Err(()) => !store.has_app_titled(title@),
        },
{
    let (context, _, _) = crate::common::signed_in_context(store, cookie);
    match get_by_title(store, title) {
        Some(found) => {
            let cleaned = CleanApp::from_app(found);
            let owner = match crate::users::get(store, found.owner_id) {
                Some(u) => Some((u, crate::users::CleanUser::from_user(u))),
                None => None,
            };
            Ok((context, found, cleaned, owner))
        },
        None => Err(()),
    }
}

// ------------------------------------------------------------------
// Creating an app
// ------------------------------------------------------------------

/// A valid app or repo title: the title format, at most 24 bytes.
pub open spec fn submitted_title_ok(t: Seq<char>) -> bool {
    crate::common::title_ok(t) && crate::common::byte_len(t) <= 24
}

/// A description of at most 256 bytes.
pub open spec fn description_ok(d: Seq<char>) -> bool {
    crate::common::byte_len(d) <= 256
}

/// A token of exactly 60 bytes.
pub open spec fn token_ok(t: Seq<char>) -> bool {
    crate::common::byte_len(t) == 60
}

/// The app table grew by exactly one row: the form's fields under the
/// next id, owned by `owner_id`, not yet connected.
pub open spec fn app_inserted(pre: Store, post: Store, owner_id: i64, form: FormApp) -> bool {
    &&& post.apps@.len() == pre.apps@.len() + 1
    &&& forall|i: int| 0 <= i < pre.apps@.len() ==> post.apps@[i] == pre.apps@[i]
    &&& post.apps@.last().id == pre.next_app_id
    &&& post.apps@.last().owner_id == owner_id
    &&& post.apps@.last().title == form.title
    &&& post.apps@.last().description == form.description
    &&& post.apps@.last().domain == form.domain
    &&& post.apps@.last().token == form.token
    &&& post.apps@.last().connected == false
    &&& post.apps@.last().connected_error@ == Seq::<char>::empty()
    &&& post.next_app_id == pre.next_app_id + 1
}

/// Why creating an app failed.
#[derive(Clone, Copy, Debug, PartialEq, Eq, Structural)]
pub enum SubmitAppError {
    /// Nobody is signed in on the request's session.
    NotSignedIn,
    /// The domain fails validation.
    InvalidDomain,
    /// The title fails the title format or is over 24 bytes.
    InvalidTitle,
    /// The description is over 256 bytes.
    DescriptionTooLong,
    /// The token is not exactly 60 bytes.
    InvalidToken,
    /// Another app already carries this title.
    DuplicateTitle,
}

/// Create an app for the signed-in user: validate the domain, the title,
/// the description and the token in that order, reject a duplicate title,
/// and store the row. Returns the new app's id.
pub fn submit_app(store: &mut Store, cookie: Option<&str>, app_form: FormApp) -> (r: Result<
    i64,
    SubmitAppError,
>)
    requires
        old(store).wf(),
        old(store).next_app_id < i64::MAX,
    ensures
        final(store).users@ == old(store).users@,
        final(store).sessions@ == old(store).sessions@,
        final(store).repos@ == old(store).repos@,
        final(store).next_user_id == old(store).next_user_id,
        final(store).next_session_id == old(store).next_session_id,
        final(store).next_repo_id == old(store).next_repo_id,
        final(store).wf(),
        match r {
            Ok(new_id) => {
                &&& exists|u: User|
                    #[trigger] old(store).users@.contains(u) && crate::users::signed_in_as(
                        *old(store),
                        cookie,
                        u,
                    ) && final(store).apps@.last().owner_id == u.id
                &&& domain_ok(app_form.domain@)
                &&& submitted_title_ok(app_form.title@)
                &&& description_ok(app_form.description@)
                &&& token_ok(app_form.token@)
                &&& !old(store).has_app_titled(app_form.title@)
                &&& app_inserted(*old(store), *final(store), final(store).apps@.last().owner_id, app_form)
                &&& new_id == old(store).next_app_id
            },
            Err(SubmitAppError::NotSignedIn) => !(exists|u: User|
                #[trigger] old(store).users@.contains(u) && crate::users::signed_in_as(
                    *old(store),
                    cookie,
                    u,
                )) && *final(store) == *old(store),
            Err(SubmitAppError::InvalidDomain) => !domain_ok(app_form.domain@) && *final(store)
                == *old(store),
            Err(SubmitAppError::InvalidTitle) => domain_ok(app_form.domain@) && !submitted_title_ok(
                app_form.title@,
            ) && *final(store) == *old(store),
            Err(SubmitAppError::DescriptionTooLong) => domain_ok(app_form.domain@)
                && submitted_title_ok(app_form.title@) && !description_ok(app_form.description@)
                && *final(store) == *old(store),
            Err(SubmitAppError::InvalidToken) => domain_ok(app_form.domain@) && submitted_title_ok(
                app_form.title@,
            ) && description_ok(app_form.description@) && !token_ok(app_form.token@)
                && *final(store) == *old(store),
            Err(SubmitAppError::DuplicateTitle) => domain_ok(app_form.domain@)
                && submitted_title_ok(app_form.title@) && description_ok(app_form.description@)
                && token_ok(app_form.token@) && old(store).has_app_titled(app_form.title@)
                && *final(store) == *old(store),
        },
{
    let owner_id: i64;
    match crate::users::get_from_cookies(store, cookie) {
        Ok(user) => {
            owner_id = user.id;
        },
        Err(_) => {
            return Err(SubmitAppError::NotSignedIn);
        },
    }
    if !validate_domain(app_form.domain.as_str()) {
        return Err(SubmitAppError::InvalidDomain);
    }
    if !(crate::common::validate_title(app_form.title.as_str()) && app_form.title.as_str().len()
        <= 24) {
        return Err(SubmitAppError::InvalidTitle);
    }
    if app_form.description.as_str().len() > 256 {
        return Err(SubmitAppError::DescriptionTooLong);
    }
    if app_form.token.as_str().len() != 60 {
        return Err(SubmitAppError::InvalidToken);
    }
    match get_by_title(store, app_form.title.as_str()) {
        Some(_) => {
            return Err(SubmitAppError::DuplicateTitle);
        },
        None => {},
    }
    let new_id = store.next_app_id;
    let new_app = app_form.to_new_app(owner_id);
    store.apps.push(
        App {
            id: new_id,
            owner_id: new_app.owner_id,
            title: new_app.title,
            description: new_app.description,
            domain: new_app.domain,
            token: new_app.token,
            connected: false,
            connected_error: String::new(),
        },
    );
    store.next_app_id = new_id + 1;
    proof {
        assert forall|i: int, j: int| 0 <= i < j < store.apps@.len() implies {
            &&& (#[trigger] store.apps@[i]).id != (#[trigger] store.apps@[j]).id
            &&& store.apps@[i].title@ != store.apps@[j].title@
        } by {
            if j == store.apps@.len() - 1 {
                assert(store.apps@[i] == old(store).apps@[i]);
                assert(old(store).apps@[i].id < new_id);
            }
        }
    }
    Ok(new_id)
}

// ------------------------------------------------------------------
// Deleting an app
// ------------------------------------------------------------------

/// Delete an app through the ownership gate: re-authenticate from the
/// submitted credentials, look the app up by title, compare owners; on
/// success prune the app's id from every repo's member list (first
/// occurrence each) and drop the row.
pub fn delete_app(store: &mut Store, title: &str, login_user: &LoginUser) -> (r: Result<
    (),
    crate::users::OwnershipError,
>)
    requires
        old(store).wf(),
    ensures
        final(store).users@ == old(store).users@,
        final(store).sessions@ == old(store).sessions@,
        final(store).next_user_id == old(store).next_user_id,
        final(store).next_session_id == old(store).next_session_id,
        final(store).next_app_id == old(store).next_app_id,
        final(store).next_repo_id == old(store).next_repo_id,
        final(store).wf(),
        match r {
            Ok(()) => exists|ai: int|
                {
                    &&& 0 <= ai < old(store).apps@.len()
                    &&& (#[trigger] old(store).apps@[ai]).title@ == title@
                    &&& (exists|ui: int|
                        0 <= ui < old(store).users@.len() && (
                        #[trigger] old(store).users@[ui]).username@ == login_user.username@
                            && crate::crypt_eq::crypt_verifies(
                            login_user.password@,
                            old(store).users@[ui].password_hash@,
                        ) && old(store).apps@[ai].owner_id == old(store).users@[ui].id)
                    &&& final(store).apps@ == old(store).apps@.remove(ai)
                    &&& crate::repos::repos_pruned(
                        old(store).repos@,
                        final(store).repos@,
                        old(store).apps@[ai].id,
                    )
                },
            Err(crate::users::OwnershipError::AuthFailed) => !old(store).authenticates(
                login_user.username@,
                login_user.password@,
            ) && *final(store) == *old(store),
            Err(crate::users::OwnershipError::NotFound) => old(store).authenticates(
                login_user.username@,
                login_user.password@,
            ) && !old(store).has_app_titled(title@) && *final(store) == *old(store),
            Err(crate::users::OwnershipError::NotOwner) => exists|ai: int|
                {
                    &&& 0 <= ai < old(store).apps@.len()
                    &&& (#[trigger] old(store).apps@[ai]).title@ == title@
                    &&& (exists|ui: int|
                        0 <= ui < old(store).users@.len() && (
                        #[trigger] old(store).users@[ui]).username@ == login_user.username@
                            && crate::crypt_eq::crypt_verifies(
                            login_user.password@,
                            old(store).users@[ui].password_hash@,
                        ) && old(store).apps@[ai].owner_id != old(store).users@[ui].id)
                    &&& *final(store) == *old(store)
                },
        },
{
    let user_id: i64;
    let ghost mut wi: int = 0;
    match crate::users::authenticate(store, login_user) {
        Some(user) => {
            user_id = user.id;
            proof {
                let u = *user;
                wi = choose|i: int| 0 <= i < store.users@.len() && store.users@[i] == u;
            }
        },
        None => {
            return Err(crate::users::OwnershipError::AuthFailed);
        },
    }
    let app_idx: usize;
    match find_app_index(store, title) {
        Some(i) => {
            app_idx = i;
        },
        None => {
            proof {
                assert(old(store).users@[wi].username@ == login_user.username@);
            }
            return Err(crate::users::OwnershipError::NotFound);
        },
    }
    if store.apps[app_idx].owner_id != user_id {
        proof {
            assert(old(store).users@[wi].username@ == login_user.username@);
        }
        return Err(crate::users::OwnershipError::NotOwner);
    }
    let app_id = store.apps[app_idx].id;
    let m = store.repos.len();
    let mut j: usize = 0;
    while j < m
        invariant
            m == store.repos@.len(),
            j <= m,
            old(store).wf(),
            store.users@ == old(store).users@,
            store.sessions@ == old(store).sessions@,
            store.apps@ == old(store).apps@,
            store.next_user_id == old(store).next_user_id,
            store.next_session_id == old(store).next_session_id,
            store.next_app_id == old(store).next_app_id,
            store.next_repo_id == old(store).next_repo_id,
            forall|k: int|
                0 <= k < j ==> {
                    &&& (#[trigger] store.repos@[k]).id == old(store).repos@[k].id
                    &&& store.repos@[k].owner_id == old(store).repos@[k].owner_id
                    &&& store.repos@[k].title == old(store).repos@[k].title
                    &&& store.repos@[k].description == old(store).repos@[k].description
                    &&& store.repos@[k].apps@ == crate::repos::remove_first(
                        old(store).repos@[k].apps@,
                        app_id,
                    )
                },
            forall|k: int| j <= k < m ==> store.repos@[k] == old(store).repos@[k],
        decreases m - j,
    {
        let row = &mut store.repos[j];
        let _ = row.remove_app(app_id);
        proof {
            if !old(store).repos@[j as int].apps@.contains(app_id) {
                crate::repos::lemma_remove_first_absent(old(store).repos@[j as int].apps@, app_id);
            }
        }
        j += 1;
    }
    let _ = store.apps.remove(app_idx);
    proof {
        assert forall|i: int, k: int| 0 <= i < k < store.apps@.len() implies {
            &&& (#[trigger] store.apps@[i]).id != (#[trigger] store.apps@[k]).id
            &&& store.apps@[i].title@ != store.apps@[k].title@
        } by {
            let oi: int = if i < app_idx {
                i
            } else {
                i + 1
            };
            let ok: int = if k < app_idx {
                k
            } else {
                k + 1
            };
            assert(store.apps@[i] == old(store).apps@[oi]);
            assert(store.apps@[k] == old(store).apps@[ok]);
        }
        assert forall|i: int| 0 <= i < store.apps@.len() implies (#[trigger] store.apps@[i]).id
            < store.next_app_id by {
            let oi: int = if i < app_idx {
                i
            } else {
                i + 1
            };
            assert(store.apps@[i] == old(store).apps@[oi]);
        }
        assert forall|i: int, k: int| 0 <= i < k < store.repos@.len() implies {
            &&& (#[trigger] store.repos@[i]).id != (#[trigger] store.repos@[k]).id
            &&& store.repos@[i].title@ != store.repos@[k].title@
        } by {
            assert(store.repos@[i].id == old(store).repos@[i].id);
            assert(store.repos@[k].id == old(store).repos@[k].id);
            assert(store.repos@[i].title == old(store).repos@[i].title);
            assert(store.repos@[k].title == old(store).repos@[k].title);
        }
        assert forall|i: int| 0 <= i < store.repos@.len() implies (#[trigger] store.repos@[i]).id
            < store.next_repo_id by {
            assert(store.repos@[i].id == old(store).repos@[i].id);
        }
        assert(old(store).users@[wi].username@ == login_user.username@);
        assert(old(store).apps@[app_idx as int].title@ == title@);
    }
    Ok(())
}

} // verus!
