//! Cookies and the session state.

use vstd::prelude::*;

use crate::clock::now_unix_secs;
use crate::commands::encoder::{some_unsigned, text_value, unsigned_value};
use crate::events::wire::{attrs_json, attrs_to_json, some_text};
use crate::json::{
    add_member, add_some, add_value, found, lemma_plain, list, member, one_member, opt_json,
    out_members_view, outs_view, plain, record, some_member, start_record, JsonOut, JsonValue,
    JsonView, OutView,
};
use crate::session::storage::{
    clone_overrides, overrides_view, NetworkOverride, OverrideView, StorageArea,
};
use crate::string_map::StringMap;
use crate::text::{
    clone_opt, concat3, lemma_trimmed_twice, opt_text, str_eq, strip_leading, to_lowercase, trim,
    trim_start_char, trimmed, unicode_lowercase,
};

verus! {

/// The `SameSite` attribute of a cookie; `SameSite=None` is `NoRestriction`.
#[derive(Debug, Clone, Copy, PartialEq, Eq, Structural)]
pub enum CookieSameSite {
    Unspecified,
    NoRestriction,
    Lax,
    Strict,
}

/// A cookie.
#[derive(Debug, PartialEq, Eq)]
pub struct Cookie {
    pub name: String,
    pub value: String,
    pub domain: String,
    pub path: Option<String>,
    pub expires_unix: Option<u64>,
    pub secure: bool,
    pub http_only: bool,
    pub same_site: Option<CookieSameSite>,
}

/// The contents of a `Cookie`.
#[verifier::ext_equal]
pub struct CookieView {
    pub name: Seq<char>,
    pub value: Seq<char>,
    pub domain: Seq<char>,
    pub path: Option<Seq<char>>,
    pub expires_unix: Option<u64>,
    pub secure: bool,
    pub http_only: bool,
    pub same_site: Option<CookieSameSite>,
}

impl View for Cookie {
    type V = CookieView;

    open spec fn view(&self) -> CookieView {
        CookieView {
            name: self.name@,
            value: self.value@,
            domain: self.domain@,
            path: opt_text(self.path),
            expires_unix: self.expires_unix,
            secure: self.secure,
            http_only: self.http_only,
            same_site: self.same_site,
        }
    }
}

impl Clone for Cookie {
    fn clone(&self) -> (res: Self)
        ensures
            res@ == self@,
    {
        Cookie {
            name: self.name.clone(),
            value: self.value.clone(),
            domain: self.domain.clone(),
            path: clone_opt(&self.path),
            expires_unix: self.expires_unix,
            secure: self.secure,
            http_only: self.http_only,
            same_site: self.same_site,
        }
    }
}

/// The contents of a list of cookies.
pub open spec fn cookies_view(list: Seq<Cookie>) -> Seq<CookieView> {
    Seq::new(list.len(), |i: int| list[i]@)
}

/// A copy of a list of cookies.
pub fn clone_cookies(list: &Vec<Cookie>) -> (res: Vec<Cookie>)
    ensures
        cookies_view(res@) == cookies_view(list@),
{
    let mut out: Vec<Cookie> = Vec::new();
    let mut i: usize = 0;
    while i < list.len()
        invariant
            i <= list@.len(),
            out@.len() == i,
            forall|j: int| 0 <= j < i ==> (#[trigger] out@[j])@ == list@[j]@,
        decreases list@.len() - i,
    {
        out.push(list[i].clone());
        i += 1;
    }
    assert(cookies_view(out@) =~= cookies_view(list@));
    out
}

/// What a browser session carries.
#[derive(Debug, PartialEq, Eq)]
pub struct SessionState {
    pub cookies: Vec<Cookie>,
    pub local_storage: StringMap,
    pub session_storage: StringMap,
    pub network_overrides: Vec<NetworkOverride>,
}

/// The contents of a `SessionState`.
#[verifier::ext_equal]
pub struct SessionView {
    pub cookies: Seq<CookieView>,
    pub local_storage: Map<Seq<char>, Seq<char>>,
    pub session_storage: Map<Seq<char>, Seq<char>>,
    pub network_overrides: Seq<OverrideView>,
}

impl View for SessionState {
    type V = SessionView;

    open spec fn view(&self) -> SessionView {
        SessionView {
            cookies: cookies_view(self.cookies@),
            local_storage: self.local_storage@,
            session_storage: self.session_storage@,
            network_overrides: overrides_view(self.network_overrides@),
        }
    }
}

/// The session without anything in it.
pub open spec fn empty_session() -> SessionView {
    SessionView {
        cookies: Seq::empty(),
        local_storage: Map::empty(),
        session_storage: Map::empty(),
        network_overrides: Seq::empty(),
    }
}

impl Default for SessionState {
    fn default() -> (res: Self)
        ensures
            res@ == empty_session(),
    {
        let cookies: Vec<Cookie> = Vec::new();
        let network_overrides: Vec<NetworkOverride> = Vec::new();
        assert(cookies_view(cookies@) =~= Seq::<CookieView>::empty());
        assert(overrides_view(network_overrides@) =~= Seq::<OverrideView>::empty());
        SessionState {
            cookies,
            local_storage: StringMap::new(),
            session_storage: StringMap::new(),
            network_overrides,
        }
    }
}

impl Clone for SessionState {
    fn clone(&self) -> (res: Self)
        ensures
            res@ == self@,
    {
        SessionState {
            cookies: clone_cookies(&self.cookies),
            local_storage: self.local_storage.clone(),
            session_storage: self.session_storage.clone(),
            network_overrides: clone_overrides(&self.network_overrides),
        }
    }
}

/// What is wrong with a cookie: it lacks a name, or else a domain.
pub open spec fn cookie_error(c: CookieView) -> Option<Seq<char>> {
    if trimmed(c.name).len() == 0 {
        Some("cookie name must not be empty"@)
    } else if trimmed(c.domain).len() == 0 {
        Some("cookie "@ + c.name + " must include a domain"@)
    } else {
        None
    }
}

/// What is wrong with the first cookie that something is wrong with.
pub open spec fn first_cookie_error(list: Seq<CookieView>) -> Option<Seq<char>>
    decreases list.len(),
{
    if list.len() == 0 {
        None
    } else if cookie_error(list[0]) is Some {
        cookie_error(list[0])
    } else {
        first_cookie_error(list.drop_first())
    }
}

/// Whether an override lacks a header.
pub open spec fn lacks_header(o: OverrideView) -> bool {
    trimmed(o.header).len() == 0
}

/// What is wrong with a session: the first fault of a cookie, or else an override without a
/// header.
pub open spec fn session_error(s: SessionView) -> Option<Seq<char>> {
    match first_cookie_error(s.cookies) {
        Some(e) => Some(e),
        None => if exists|i: int|
            0 <= i < s.network_overrides.len() && lacks_header(#[trigger] s.network_overrides[i]) {
            Some("network override header must not be empty"@)
        } else {
            None
        },
    }
}

/// The outcome of a check, as the fault that it found.
pub open spec fn fault_of(res: Result<(), String>) -> Option<Seq<char>> {
    match res {
        Ok(()) => None,
        Err(e) => Some(e@),
    }
}

/// Whether a cookie counts at a time: it has a name and a domain and has not expired.
pub open spec fn cookie_counts(c: CookieView, now: u64) -> bool {
    &&& trimmed(c.name).len() > 0
    &&& trimmed(c.domain).len() > 0
    &&& (c.expires_unix matches Some(expires) ==> expires > now)
}

/// The domain of a cookie in lower case, without white space around it or dots before it.
pub open spec fn normal_domain(c: CookieView) -> Seq<char> {
    unicode_lowercase(strip_leading(trimmed(c.domain), '.'))
}

/// The path of a cookie without white space around it; the root where none is left.
pub open spec fn normal_path(c: CookieView) -> Seq<char> {
    match c.path {
        Some(p) => if trimmed(p).len() > 0 {
            trimmed(p)
        } else {
            "/"@
        },
        None => "/"@,
    }
}

/// What makes two cookies the same: name and domain in lower case, and path.
pub open spec fn cookie_key(c: CookieView) -> (Seq<char>, Seq<char>, Seq<char>) {
    (unicode_lowercase(trimmed(c.name)), normal_domain(c), normal_path(c))
}

/// A cookie in normal form.
pub open spec fn normal_cookie(c: CookieView) -> CookieView {
    CookieView {
        name: trimmed(c.name),
        domain: normal_domain(c),
        path: Some(normal_path(c)),
        ..c
    }
}

/// Whether the cookie at `i` counts and no later one that counts is the same cookie.
pub open spec fn survives(list: Seq<CookieView>, now: u64, i: int) -> bool {
    &&& 0 <= i < list.len()
    &&& cookie_counts(list[i], now)
    &&& forall|j: int|
        i < j < list.len() && cookie_counts(#[trigger] list[j], now) ==> cookie_key(list[j])
            != cookie_key(list[i])
}

/// The surviving cookies among the first `n`, in order and in normal form.
pub open spec fn survivors(list: Seq<CookieView>, now: u64, n: int) -> Seq<CookieView>
    decreases n,
{
    if n <= 0 {
        Seq::empty()
    } else if survives(list, now, n - 1) {
        survivors(list, now, n - 1).push(normal_cookie(list[n - 1]))
    } else {
        survivors(list, now, n - 1)
    }
}

/// A session in normal form: of each cookie the last one that counts, in normal form;
/// everything else as it is.
pub open spec fn normalized_session(s: SessionView, now: u64) -> SessionView {
    SessionView { cookies: survivors(s.cookies, now, s.cookies.len() as int), ..s }
}

/// A cookie in normal form, with the key that tells it from others.
struct KeyedCookie {
    key_name: String,
    cookie: Cookie,
}

fn normalize_cookie(cookie: &Cookie) -> (res: KeyedCookie)
    ensures
        res.cookie@ == normal_cookie(cookie@),
        res.key_name@ == cookie_key(cookie@).0,
{
    let name = trim(cookie.name.as_str());
    let key_name = to_lowercase(name.as_str());
    let bare_domain = trim_start_char(trim(cookie.domain.as_str()).as_str(), '.');
    let domain = to_lowercase(bare_domain.as_str());
    let path = match &cookie.path {
        Some(p) => {
            let t = trim(p.as_str());
            if t.as_str().unicode_len() > 0 {
                t
            } else {
                "/".to_owned()
            }
        },
        None => "/".to_owned(),
    };
    KeyedCookie {
        key_name,
        cookie: Cookie {
            name,
            value: cookie.value.clone(),
            domain,
            path: Some(path),
            expires_unix: cookie.expires_unix,
            secure: cookie.secure,
            http_only: cookie.http_only,
            same_site: cookie.same_site,
        },
    }
}

fn counts(cookie: &Cookie, now: u64) -> (res: bool)
    ensures
        res == cookie_counts(cookie@, now),
{
    let fresh = match cookie.expires_unix {
        Some(expires) => expires > now,
        None => true,
    };
    trim(cookie.name.as_str()).as_str().unicode_len() > 0 && trim(
        cookie.domain.as_str(),
    ).as_str().unicode_len() > 0 && fresh
}

fn same_key(a: &KeyedCookie, b: &KeyedCookie) -> (res: bool)
    ensures
        res == (a.key_name@ == b.key_name@ && a.cookie.domain@ == b.cookie.domain@ && opt_text(
            a.cookie.path,
        ) == opt_text(b.cookie.path)),
{
    str_eq(a.key_name.as_str(), b.key_name.as_str()) && str_eq(
        a.cookie.domain.as_str(),
        b.cookie.domain.as_str(),
    ) && crate::text::opt_eq(&a.cookie.path, &b.cookie.path)
}

impl SessionState {
    /// The session with one more entry in a storage area.
    pub fn with_storage(self, area: StorageArea, key: String, value: String) -> (res: Self)
        ensures
            res@ == match area {
                StorageArea::Local => SessionView {
                    local_storage: self@.local_storage.insert(key@, value@),
                    ..self@
                },
                StorageArea::Session => SessionView {
                    session_storage: self@.session_storage.insert(key@, value@),
                    ..self@
                },
            },
    {
        let mut session = self;
        match area {
            StorageArea::Local => {
                session.local_storage.insert(key, value);
            },
            StorageArea::Session => {
                session.session_storage.insert(key, value);
            },
        }
        session
    }

    /// Whether the session is sound: every cookie has a name and a domain, every override a
    /// header. The first fault is the error.
    pub fn validate(&self) -> (res: Result<(), String>)
        ensures
            fault_of(res) == session_error(self@),
    {
        let ghost all = self@.cookies;
        let mut i: usize = 0;
        assert(all.skip(0) =~= all);
        while i < self.cookies.len()
            invariant
                i <= self.cookies@.len(),
                all == cookies_view(self.cookies@),
                all == self@.cookies,
                first_cookie_error(all) == first_cookie_error(all.skip(i as int)),
            decreases self.cookies@.len() - i,
        {
            let cookie = &self.cookies[i];
            assert(all.skip(i as int)[0] == cookie@);
            assert(all.skip(i as int).drop_first() =~= all.skip(i + 1));
            if trim(cookie.name.as_str()).as_str().unicode_len() == 0 {
                return Err("cookie name must not be empty".to_owned());
            }
            if trim(cookie.domain.as_str()).as_str().unicode_len() == 0 {
                return Err(concat3("cookie ", cookie.name.as_str(), " must include a domain"));
            }
            i += 1;
        }
        let ghost overrides = self@.network_overrides;
        let mut i: usize = 0;
        while i < self.network_overrides.len()
            invariant
                i <= self.network_overrides@.len(),
                overrides == overrides_view(self.network_overrides@),
                overrides == self@.network_overrides,
                first_cookie_error(self@.cookies) is None,
                forall|j: int| 0 <= j < i ==> !lacks_header(#[trigger] overrides[j]),
            decreases self.network_overrides@.len() - i,
        {
            assert(overrides[i as int] == self.network_overrides@[i as int]@);
            if trim(self.network_overrides[i].header.as_str()).as_str().unicode_len() == 0 {
                assert(lacks_header(overrides[i as int]));
                return Err("network override header must not be empty".to_owned());
            }
            i += 1;
        }
        Ok(())
    }

    /// The session in normal form at a time.
    pub fn normalized_at(&self, now_unix: u64) -> (res: Self)
        ensures
            res@ == normalized_session(self@, now_unix),
    {
        let ghost all = self@.cookies;
        let mut keyed: Vec<Option<KeyedCookie>> = Vec::new();
        let mut i: usize = 0;
        while i < self.cookies.len()
            invariant
                i <= self.cookies@.len(),
                all == cookies_view(self.cookies@),
                keyed@.len() == i,
                forall|j: int|
                    0 <= j < i ==> match #[trigger] keyed@[j] {
                        Some(k) => cookie_counts(all[j], now_unix) && k.cookie@ == normal_cookie(
                            all[j],
                        ) && k.key_name@ == cookie_key(all[j]).0,
                        None => !cookie_counts(all[j], now_unix),
                    },
            decreases self.cookies@.len() - i,
        {
            assert(all[i as int] == self.cookies@[i as int]@);
            if counts(&self.cookies[i], now_unix) {
                keyed.push(Some(normalize_cookie(&self.cookies[i])));
            } else {
                keyed.push(None);
            }
            i += 1;
        }
        let mut cookies: Vec<Cookie> = Vec::new();
        let mut i: usize = 0;
        assert(cookies_view(cookies@) =~= Seq::empty());
        while i < keyed.len()
            invariant
                i <= keyed@.len(),
                keyed@.len() == all.len(),
                forall|j: int|
                    0 <= j < keyed@.len() ==> match #[trigger] keyed@[j] {
                        Some(k) => cookie_counts(all[j], now_unix) && k.cookie@ == normal_cookie(
                            all[j],
                        ) && k.key_name@ == cookie_key(all[j]).0,
                        None => !cookie_counts(all[j], now_unix),
                    },
                cookies_view(cookies@) == survivors(all, now_unix, i as int),
            decreases keyed@.len() - i,
        {
            assert(match keyed@[i as int] {
                Some(k) => cookie_counts(all[i as int], now_unix),
                None => !cookie_counts(all[i as int], now_unix),
            });
            if let Some(candidate) = &keyed[i] {
                let last = is_last_of_key(&keyed, i, candidate, Ghost(all), Ghost(now_unix));
                if last {
                    let ghost before = cookies@;
                    cookies.push(candidate.cookie.clone());
                    assert(cookies_view(cookies@) =~= cookies_view(before).push(
                        normal_cookie(all[i as int]),
                    ));
                }
            }
            i += 1;
        }
        SessionState {
            cookies,
            local_storage: self.local_storage.clone(),
            session_storage: self.session_storage.clone(),
            network_overrides: clone_overrides(&self.network_overrides),
        }
    }

    /// The session in normal form at the present time.
    pub fn normalized(&self) -> (res: Self)
        ensures
            exists|now: u64| res@ == #[trigger] normalized_session(self@, now),
    {
        let now_unix: u64 = now_unix_secs();
        let res = self.normalized_at(now_unix);
        assert(res@ == normalized_session(self@, now_unix));
        res
    }
}

/// Whether no cookie after position `at` that counts has the key of `candidate`.
fn is_last_of_key(
    keyed: &Vec<Option<KeyedCookie>>,
    at: usize,
    candidate: &KeyedCookie,
    Ghost(all): Ghost<Seq<CookieView>>,
    Ghost(now): Ghost<u64>,
) -> (res: bool)
    requires
        at < keyed@.len(),
        keyed@.len() == all.len(),
        keyed@[at as int] == Some(*candidate),
        forall|j: int|
            0 <= j < keyed@.len() ==> match #[trigger] keyed@[j] {
                Some(k) => cookie_counts(all[j], now) && k.cookie@ == normal_cookie(all[j])
                    && k.key_name@ == cookie_key(all[j]).0,
                None => !cookie_counts(all[j], now),
            },
    ensures
        res == survives(all, now, at as int),
{
    assert(cookie_counts(all[at as int], now) && candidate.cookie@ == normal_cookie(all[at as int])
        && candidate.key_name@ == cookie_key(all[at as int]).0) by {
        assert(keyed@[at as int] is Some);
    }
    let total: usize = keyed.len();
    assert(at < total);
    let mut j: usize = at + 1;
    while j < keyed.len()
        invariant
            at < j <= keyed@.len(),
            keyed@.len() == all.len(),
            cookie_counts(all[at as int], now),
            candidate.cookie@ == normal_cookie(all[at as int]),
            candidate.key_name@ == cookie_key(all[at as int]).0,
            forall|k: int|
                0 <= k < keyed@.len() ==> match #[trigger] keyed@[k] {
                    Some(c) => cookie_counts(all[k], now) && c.cookie@ == normal_cookie(all[k])
                        && c.key_name@ == cookie_key(all[k]).0,
                    None => !cookie_counts(all[k], now),
                },
            forall|k: int|
                at < k < j && cookie_counts(#[trigger] all[k], now) ==> cookie_key(all[k])
                    != cookie_key(all[at as int]),
        decreases keyed@.len() - j,
    {
        assert(match keyed@[j as int] {
            Some(c) => cookie_counts(all[j as int], now) && c.cookie@ == normal_cookie(
                all[j as int],
            ) && c.key_name@ == cookie_key(all[j as int]).0,
            None => !cookie_counts(all[j as int], now),
        });
        if let Some(other) = &keyed[j] {
            if same_key(other, candidate) {
                assert(cookie_key(all[j as int]) == cookie_key(all[at as int]));
                return false;
            }
        }
        j += 1;
    }
    true
}

/// A normalized session holds nothing that has expired.
pub proof fn law_normalized_is_fresh(s: SessionView, now: u64, n: int)
    requires
        0 <= n <= s.cookies.len(),
    ensures
        forall|i: int|
            0 <= i < survivors(s.cookies, now, n).len() ==> ((#[trigger] survivors(
                s.cookies,
                now,
                n,
            )[i]).expires_unix matches Some(expires) ==> expires > now),
    decreases n,
{
    if n > 0 {
        law_normalized_is_fresh(s, now, n - 1);
    }
}

/// Of the cookies with one key that count, exactly the last survives.
pub proof fn law_last_cookie_wins(list: Seq<CookieView>, now: u64, i: int)
    requires
        0 <= i < list.len(),
        cookie_counts(list[i], now),
    ensures
        exists|j: int|
            i <= j && #[trigger] survives(list, now, j) && cookie_key(list[j]) == cookie_key(
                list[i],
            ),
        forall|j: int, k: int| #[trigger]
            survives(list, now, j) && #[trigger] survives(list, now, k) && cookie_key(list[j])
                == cookie_key(list[k]) ==> j == k,
    decreases list.len() - i,
{
    if !survives(list, now, i) {
        let j = choose|j: int|
            i < j < list.len() && cookie_counts(#[trigger] list[j], now) && cookie_key(list[j])
                == cookie_key(list[i]);
        law_last_cookie_wins(list, now, j);
    }
    assert forall|j: int, k: int| #[trigger]
        survives(list, now, j) && #[trigger] survives(list, now, k) && cookie_key(list[j])
            == cookie_key(list[k]) implies j == k by {
        if j < k {
            assert(cookie_counts(list[k], now));
        }
        if k < j {
            assert(cookie_counts(list[j], now));
        }
    }
}

/// Every surviving cookie is in the normalized session, in normal form.
pub proof fn law_survivors_are_listed(list: Seq<CookieView>, now: u64, n: int)
    requires
        0 <= n <= list.len(),
    ensures
        forall|i: int| #[trigger]
            survives(list, now, i) && i < n ==> survivors(list, now, n).contains(
                normal_cookie(list[i]),
            ),
    decreases n,
{
    if n > 0 {
        law_survivors_are_listed(list, now, n - 1);
        let before = survivors(list, now, n - 1);
        let all = survivors(list, now, n);
        assert forall|i: int| #[trigger] survives(list, now, i) && i < n implies all.contains(
            normal_cookie(list[i]),
        ) by {
            if i == n - 1 {
                assert(all[before.len() as int] == normal_cookie(list[i]));
            } else {
                assert(before.contains(normal_cookie(list[i])));
                let k = choose|k: int| 0 <= k < before.len() && before[k] == normal_cookie(list[i]);
                assert(all[k] == normal_cookie(list[i]));
            }
        }
    }
}

/// Whether the normal form of a cookie is in normal form itself: its normal domain is not blank
/// and is its own normal form.
pub open spec fn settles(c: CookieView) -> bool {
    &&& trimmed(normal_domain(c)).len() > 0
    &&& normal_domain(normal_cookie(c)) == normal_domain(c)
}

/// A cookie that settles and counts still counts in normal form, as the same cookie, and its
/// normal form does not change again.
proof fn lemma_settled(c: CookieView, now: u64)
    requires
        settles(c),
        cookie_counts(c, now),
    ensures
        cookie_counts(normal_cookie(c), now),
        cookie_key(normal_cookie(c)) == cookie_key(c),
        normal_cookie(normal_cookie(c)) == normal_cookie(c),
{
    lemma_trimmed_twice(c.name);
    reveal_strlit("/");
    assert("/"@.len() == 1 && "/"@[0] == '/');
    assert(trimmed("/"@) == "/"@);
    if let Some(p) = c.path {
        lemma_trimmed_twice(p);
    }
    assert(normal_cookie(normal_cookie(c)) =~= normal_cookie(c));
}

/// The surviving cookies in normal form count, are their own normal forms, and are all
/// different.
proof fn lemma_survivors_settled(list: Seq<CookieView>, now: u64, n: int)
    requires
        0 <= n <= list.len(),
        forall|i: int| #[trigger] survives(list, now, i) ==> settles(list[i]),
    ensures
        ({
            let kept = survivors(list, now, n);
            &&& forall|k: int|
                0 <= k < kept.len() ==> cookie_counts(#[trigger] kept[k], now) && normal_cookie(
                    kept[k],
                ) == kept[k] && exists|i: int|
                    i < n && #[trigger] survives(list, now, i) && kept[k] == normal_cookie(list[i])
            &&& forall|j: int, k: int|
                0 <= j < k < kept.len() ==> cookie_key(#[trigger] kept[j]) != cookie_key(
                    #[trigger] kept[k],
                )
        }),
    decreases n,
{
    if n > 0 {
        lemma_survivors_settled(list, now, n - 1);
        let before = survivors(list, now, n - 1);
        let kept = survivors(list, now, n);
        if survives(list, now, n - 1) {
            let c = list[n - 1];
            lemma_settled(c, now);
            assert forall|k: int| 0 <= k < kept.len() implies cookie_counts(
                #[trigger] kept[k],
                now,
            ) && normal_cookie(kept[k]) == kept[k] && exists|i: int|
                i < n && #[trigger] survives(list, now, i) && kept[k] == normal_cookie(
                    list[i],
                ) by {
                if k < before.len() {
                    assert(kept[k] == before[k]);
                    let i = choose|i: int|
                        i < n - 1 && #[trigger] survives(list, now, i) && before[k]
                            == normal_cookie(list[i]);
                    assert(survives(list, now, i));
                } else {
                    assert(survives(list, now, n - 1) && kept[k] == normal_cookie(list[n - 1]));
                }
            }
            assert forall|j: int, k: int| 0 <= j < k < kept.len() implies cookie_key(
                #[trigger] kept[j],
            ) != cookie_key(#[trigger] kept[k]) by {
                assert(kept[j] == before[j]);
                if k < before.len() {
                    assert(kept[k] == before[k]);
                } else {
                    let i = choose|i: int|
                        i < n - 1 && #[trigger] survives(list, now, i) && before[j]
                            == normal_cookie(list[i]);
                    lemma_settled(list[i], now);
                    assert(cookie_counts(list[n - 1], now));
                    assert(cookie_key(list[n - 1]) != cookie_key(list[i]));
                }
            }
        } else {
            assert forall|k: int| 0 <= k < kept.len() implies cookie_counts(
                #[trigger] kept[k],
                now,
            ) && normal_cookie(kept[k]) == kept[k] && exists|i: int|
                i < n && #[trigger] survives(list, now, i) && kept[k] == normal_cookie(
                    list[i],
                ) by {
                let i = choose|i: int|
                    i < n - 1 && #[trigger] survives(list, now, i) && before[k] == normal_cookie(
                        list[i],
                    );
                assert(survives(list, now, i));
            }
        }
    }
}

/// Of cookies that count, are their own normal forms and are all different, all survive as
/// they are.
proof fn lemma_all_survive(list: Seq<CookieView>, now: u64, n: int)
    requires
        0 <= n <= list.len(),
        forall|k: int|
            0 <= k < list.len() ==> cookie_counts(#[trigger] list[k], now) && normal_cookie(
                list[k],
            ) == list[k],
        forall|j: int, k: int|
            0 <= j < k < list.len() ==> cookie_key(#[trigger] list[j]) != cookie_key(
                #[trigger] list[k],
            ),
    ensures
        survivors(list, now, n) == list.take(n),
    decreases n,
{
    if n > 0 {
        lemma_all_survive(list, now, n - 1);
        assert(cookie_counts(list[n - 1], now));
        assert(survives(list, now, n - 1));
        assert(list.take(n) =~= list.take(n - 1).push(list[n - 1]));
    } else {
        assert(list.take(0) =~= Seq::empty());
    }
}

/// Normalizing a session twice at one time changes nothing the second time, where the normal
/// forms of the cookies that are kept have normal forms of their own.
pub proof fn law_normalized_twice(s: SessionView, now: u64)
    requires
        forall|i: int| #[trigger] survives(s.cookies, now, i) ==> settles(s.cookies[i]),
    ensures
        normalized_session(normalized_session(s, now), now) == normalized_session(s, now),
{
    let kept = survivors(s.cookies, now, s.cookies.len() as int);
    lemma_survivors_settled(s.cookies, now, s.cookies.len() as int);
    lemma_all_survive(kept, now, kept.len() as int);
    assert(kept.take(kept.len() as int) =~= kept);
}

/// The JSON value of an optional `SameSite` attribute.
pub open spec fn some_site(site: Option<CookieSameSite>) -> Option<JsonView> {
    match site {
        Some(CookieSameSite::Unspecified) => Some(JsonView::Text("unspecified"@)),
        Some(CookieSameSite::NoRestriction) => Some(JsonView::Text("none"@)),
        Some(CookieSameSite::Lax) => Some(JsonView::Text("lax"@)),
        Some(CookieSameSite::Strict) => Some(JsonView::Text("strict"@)),
        None => None,
    }
}

fn site_value(site: Option<CookieSameSite>) -> (res: Option<JsonValue>)
    ensures
        opt_json(res) == some_site(site),
{
    match site {
        Some(CookieSameSite::Unspecified) => Some(JsonValue::text("unspecified")),
        Some(CookieSameSite::NoRestriction) => Some(JsonValue::text("none")),
        Some(CookieSameSite::Lax) => Some(JsonValue::text("lax")),
        Some(CookieSameSite::Strict) => Some(JsonValue::text("strict")),
        None => None,
    }
}

/// The record of a cookie.
pub open spec fn cookie_record(c: CookieView) -> OutView {
    OutView::Record(
        one_member("name"@, JsonView::Text(c.name)) + one_member(
            "value"@,
            JsonView::Text(c.value),
        ) + one_member("domain"@, JsonView::Text(c.domain)) + some_member(
            "path"@,
            some_text(c.path),
        ) + some_member("expires_unix"@, some_unsigned(c.expires_unix)) + one_member(
            "secure"@,
            JsonView::Bool(c.secure),
        ) + one_member("http_only"@, JsonView::Bool(c.http_only)) + some_member(
            "same_site"@,
            some_site(c.same_site),
        ),
    )
}

impl Cookie {
    /// The record of the cookie.
    pub fn to_out(&self) -> (res: JsonOut)
        ensures
            res@ == cookie_record(self@),
    {
        let mut members = start_record();
        add_value(&mut members, "name", JsonValue::text(self.name.as_str()));
        assert(out_members_view(members@) =~= one_member("name"@, JsonView::Text(self.name@)));
        add_value(&mut members, "value", JsonValue::text(self.value.as_str()));
        add_value(&mut members, "domain", JsonValue::text(self.domain.as_str()));
        add_some(&mut members, "path", text_value(&self.path));
        add_some(&mut members, "expires_unix", unsigned_value(self.expires_unix));
        add_value(&mut members, "secure", JsonValue::Bool(self.secure));
        add_value(&mut members, "http_only", JsonValue::Bool(self.http_only));
        add_some(&mut members, "same_site", site_value(self.same_site));
        record(members)
    }
}

/// The record of a header that is set on every request.
pub open spec fn override_record(o: OverrideView) -> OutView {
    OutView::Record(
        one_member("header"@, JsonView::Text(o.header)) + one_member(
            "value"@,
            JsonView::Text(o.value),
        ),
    )
}

/// The records of a list of cookies.
pub open spec fn cookie_records(cookies: Seq<CookieView>) -> Seq<OutView> {
    Seq::new(cookies.len(), |i: int| cookie_record(cookies[i]))
}

/// The records of a list of overrides.
pub open spec fn override_records(overrides: Seq<OverrideView>) -> Seq<OutView> {
    Seq::new(overrides.len(), |i: int| override_record(overrides[i]))
}

/// The record of a session, as it is handed to the host.
pub open spec fn session_record(s: SessionView) -> OutView {
    OutView::Record(
        seq![
            ("cookies"@, OutView::List(cookie_records(s.cookies))),
            ("local_storage"@, OutView::Value(attrs_json(s.local_storage))),
            ("session_storage"@, OutView::Value(attrs_json(s.session_storage))),
            ("network_overrides"@, OutView::List(override_records(s.network_overrides))),
        ],
    )
}

impl SessionState {
    /// The record of the session; what the storage areas hold goes by name.
    pub fn to_out(&self) -> (res: JsonOut)
        ensures
            res@ == session_record(self@),
    {
        let mut cookies: Vec<JsonOut> = Vec::new();
        let mut i: usize = 0;
        while i < self.cookies.len()
            invariant
                i <= self.cookies@.len(),
                cookies@.len() == i,
                forall|j: int|
                    0 <= j < i ==> (#[trigger] cookies@[j])@ == cookie_record(self.cookies@[j]@),
            decreases self.cookies@.len() - i,
        {
            cookies.push(self.cookies[i].to_out());
            i += 1;
        }
        assert(outs_view(cookies@) =~= cookie_records(cookies_view(self.cookies@)));
        let mut overrides: Vec<JsonOut> = Vec::new();
        let mut k: usize = 0;
        while k < self.network_overrides.len()
            invariant
                k <= self.network_overrides@.len(),
                overrides@.len() == k,
                forall|j: int|
                    0 <= j < k ==> (#[trigger] overrides@[j])@ == override_record(
                        self.network_overrides@[j]@,
                    ),
            decreases self.network_overrides@.len() - k,
        {
            let item = &self.network_overrides[k];
            let mut members = start_record();
            add_value(&mut members, "header", JsonValue::text(item.header.as_str()));
            add_value(&mut members, "value", JsonValue::text(item.value.as_str()));
            assert(out_members_view(members@) =~= override_record(item@)->Record_0);
            overrides.push(record(members));
            k += 1;
        }
        assert(outs_view(overrides@) =~= override_records(overrides_view(self.network_overrides@)));
        let mut members = start_record();
        add_member(&mut members, "cookies", list(cookies));
        add_member(
            &mut members,
            "local_storage",
            JsonOut::Value(attrs_to_json(&self.local_storage)),
        );
        add_member(
            &mut members,
            "session_storage",
            JsonOut::Value(attrs_to_json(&self.session_storage)),
        );
        add_member(&mut members, "network_overrides", list(overrides));
        assert(out_members_view(members@) =~= session_record(self@)->Record_0);
        record(members)
    }
}

/// The text that a reader of a record finds under a name; the empty one where it finds none.
pub open spec fn found_text(v: JsonView, name: Seq<char>) -> Seq<char> {
    match member(v, name) {
        Some(JsonView::Text(t)) => t,
        _ => Seq::empty(),
    }
}

/// The texts by name that a reader of a record finds under a name.
pub open spec fn found_texts(v: JsonView, name: Seq<char>) -> Map<Seq<char>, Seq<char>> {
    match member(v, name) {
        Some(JsonView::Object(m)) => m.map_values(
            |x: JsonView|
                match x {
                    JsonView::Text(t) => t,
                    _ => Seq::empty(),
                },
        ),
        _ => Map::empty(),
    }
}

/// The items that a reader of a record finds under a name.
pub open spec fn found_items(v: JsonView, name: Seq<char>) -> Seq<JsonView> {
    match member(v, name) {
        Some(JsonView::Array(items)) => items,
        _ => Seq::empty(),
    }
}

/// The cookie that a reader makes of a record.
pub open spec fn cookie_read(v: JsonView) -> CookieView {
    CookieView {
        name: found_text(v, "name"@),
        value: found_text(v, "value"@),
        domain: found_text(v, "domain"@),
        path: match member(v, "path"@) {
            Some(JsonView::Text(t)) => Some(t),
            _ => None,
        },
        expires_unix: match member(v, "expires_unix"@) {
            Some(JsonView::Unsigned(n)) => Some(n),
            _ => None,
        },
        secure: member(v, "secure"@) == Some(JsonView::Bool(true)),
        http_only: member(v, "http_only"@) == Some(JsonView::Bool(true)),
        same_site: match member(v, "same_site"@) {
            Some(JsonView::Text(t)) => if t == "none"@ {
                Some(CookieSameSite::NoRestriction)
            } else if t == "lax"@ {
                Some(CookieSameSite::Lax)
            } else if t == "strict"@ {
                Some(CookieSameSite::Strict)
            } else if t == "unspecified"@ {
                Some(CookieSameSite::Unspecified)
            } else {
                None
            },
            _ => None,
        },
    }
}

/// The override that a reader makes of a record.
pub open spec fn override_read(v: JsonView) -> OverrideView {
    OverrideView { header: found_text(v, "header"@), value: found_text(v, "value"@) }
}

/// The session that a reader makes of a record.
pub open spec fn session_read(v: JsonView) -> SessionView {
    SessionView {
        cookies: found_items(v, "cookies"@).map_values(|x: JsonView| cookie_read(x)),
        local_storage: found_texts(v, "local_storage"@),
        session_storage: found_texts(v, "session_storage"@),
        network_overrides: found_items(v, "network_overrides"@).map_values(
            |x: JsonView| override_read(x),
        ),
    }
}

/// A cookie can be read back from its record.
pub proof fn law_cookie_is_read_back(c: CookieView)
    ensures
        cookie_read(plain(cookie_record(c))) == c,
{
    broadcast use crate::json::group_found;

    reveal_strlit("name");
    reveal_strlit("value");
    reveal_strlit("domain");
    reveal_strlit("path");
    reveal_strlit("expires_unix");
    reveal_strlit("secure");
    reveal_strlit("http_only");
    reveal_strlit("same_site");
    reveal_strlit("none");
    reveal_strlit("lax");
    reveal_strlit("strict");
    reveal_strlit("unspecified");
    assert("name"@.len() == 4 && "value"@.len() == 5 && "domain"@.len() == 6 && "path"@.len() == 4 && "expires_unix"@.len() == 12 && "secure"@.len() == 6 && "http_only"@.len() == 9 && "same_site"@.len() == 9 && "none"@.len() == 4 && "lax"@.len() == 3 && "strict"@.len() == 6 && "unspecified"@.len() == 11);
    assert("name"@[0] == 'n' && "name"@[1] == 'a' && "domain"@[0] == 'd' && "path"@[0] == 'p' && "secure"@[0] == 's' && "secure"@[1] == 'e' && "http_only"@[0] == 'h' && "same_site"@[0] == 's' && "none"@[0] == 'n' && "none"@[1] == 'o' && "strict"@[0] == 's' && "strict"@[1] == 't');
    let v = plain(cookie_record(c));
    let r = cookie_record(c);
    assert(member(v, "name"@) == found(r, "name"@));
    assert(member(v, "value"@) == found(r, "value"@));
    assert(member(v, "domain"@) == found(r, "domain"@));
    assert(member(v, "path"@) == found(r, "path"@));
    assert(member(v, "expires_unix"@) == found(r, "expires_unix"@));
    assert(member(v, "secure"@) == found(r, "secure"@));
    assert(member(v, "http_only"@) == found(r, "http_only"@));
    assert(member(v, "same_site"@) == found(r, "same_site"@));
}

/// An override can be read back from its record.
pub proof fn law_override_is_read_back(o: OverrideView)
    ensures
        override_read(plain(override_record(o))) == o,
{
    broadcast use crate::json::group_found;

    reveal_strlit("header");
    reveal_strlit("value");
    assert("header"@.len() == 6 && "value"@.len() == 5);
    let v = plain(override_record(o));
    let r = override_record(o);
    assert(member(v, "header"@) == found(r, "header"@));
    assert(member(v, "value"@) == found(r, "value"@));
}

/// A session can be read back from its record: its cookies, what its storage areas hold and its
/// overrides are all in it, under their own names.
pub proof fn law_session_is_read_back(s: SessionView)
    ensures
        session_read(plain(session_record(s))) == s,
{
    broadcast use crate::json::group_found;

    reveal_strlit("cookies");
    reveal_strlit("local_storage");
    reveal_strlit("session_storage");
    reveal_strlit("network_overrides");
    assert("cookies"@.len() == 7 && "local_storage"@.len() == 13 && "session_storage"@.len() == 15 && "network_overrides"@.len() == 17);
    let v = plain(session_record(s));
    let r = session_record(s);
    let cookies = OutView::List(cookie_records(s.cookies));
    let overrides = OutView::List(override_records(s.network_overrides));
    lemma_plain(cookies);
    lemma_plain(overrides);
    lemma_plain(OutView::Value(attrs_json(s.local_storage)));
    lemma_plain(OutView::Value(attrs_json(s.session_storage)));
    assert(r->Record_0 =~= Seq::empty().push(("cookies"@, cookies)).push(
        ("local_storage"@, OutView::Value(attrs_json(s.local_storage))),
    ).push(("session_storage"@, OutView::Value(attrs_json(s.session_storage)))).push(
        ("network_overrides"@, overrides),
    ));
    assert(found(r, "cookies"@) == Some(plain(cookies)));
    assert(found(r, "local_storage"@) == Some(attrs_json(s.local_storage)));
    assert(found(r, "session_storage"@) == Some(attrs_json(s.session_storage)));
    assert(found(r, "network_overrides"@) == Some(plain(overrides)));
    let back = session_read(v);
    assert forall|i: int| 0 <= i < s.cookies.len() implies #[trigger] back.cookies[i]
        == s.cookies[i] by {
        law_cookie_is_read_back(s.cookies[i]);
    }
    assert forall|i: int| 0 <= i < s.network_overrides.len() implies #[trigger]
        back.network_overrides[i] == s.network_overrides[i] by {
        law_override_is_read_back(s.network_overrides[i]);
    }
    assert(back.cookies =~= s.cookies);
    assert(back.network_overrides =~= s.network_overrides);
    assert(back.local_storage =~= s.local_storage);
    assert(back.session_storage =~= s.session_storage);
}

/// Two sessions with the same record are the same session.
pub proof fn law_record_tells_sessions_apart(a: SessionView, b: SessionView)
    requires
        session_record(a) == session_record(b),
    ensures
        a == b,
{
    law_session_is_read_back(a);
    law_session_is_read_back(b);
}

/// A cookie counts exactly when its name and its domain are not blank and it does not expire by
/// the time.
pub proof fn law_cookies_that_count(c: CookieView, now: u64)
    ensures
        cookie_counts(c, now) <==> trimmed(c.name).len() > 0 && trimmed(c.domain).len() > 0 && (
        c.expires_unix is None || c.expires_unix->Some_0 > now),
{
}

/// A cookie in normal form is the cookie with its name trimmed, its domain trimmed, without dots
/// before it and in lower case, and its path trimmed or else the root; all else is kept.
pub proof fn law_normal_form_of_a_cookie(c: CookieView)
    ensures
        ({
            let n = normal_cookie(c);
            let blank = c.path is None || trimmed(c.path->Some_0).len() == 0;
            &&& n.name == trimmed(c.name)
            &&& n.domain == unicode_lowercase(strip_leading(trimmed(c.domain), '.'))
            &&& blank ==> n.path == Some("/"@)
            &&& !blank ==> n.path == Some(trimmed(c.path->Some_0))
            &&& n.value == c.value
            &&& n.expires_unix == c.expires_unix
            &&& n.secure == c.secure
            &&& n.http_only == c.http_only
            &&& n.same_site == c.same_site
        }),
{
}

/// Two cookies are the same exactly when their names agree but for case and white space around
/// them and their domains and their paths in normal form agree.
pub proof fn law_same_cookie(a: CookieView, b: CookieView)
    ensures
        cookie_key(a) == cookie_key(b) <==> unicode_lowercase(trimmed(a.name)) == unicode_lowercase(
            trimmed(b.name),
        ) && normal_cookie(a).domain == normal_cookie(b).domain && normal_cookie(a).path
            == normal_cookie(b).path,
{
}

/// A normalized session has of each cookie the last one that counts, in the order of the session
/// and in normal form; what is in the storage areas and the overrides stay.
pub proof fn law_normalized_session_keeps_the_last(s: SessionView, now: u64, n: int)
    ensures
        ({
            let after = normalized_session(s, now);
            &&& after.local_storage == s.local_storage
            &&& after.session_storage == s.session_storage
            &&& after.network_overrides == s.network_overrides
            &&& after.cookies == survivors(s.cookies, now, s.cookies.len() as int)
        }),
        0 <= n < s.cookies.len() ==> {
            let c = s.cookies[n];
            let last = cookie_counts(c, now) && forall|j: int|
                n < j < s.cookies.len() && cookie_counts(#[trigger] s.cookies[j], now)
                    ==> cookie_key(s.cookies[j]) != cookie_key(c);
            &&& last ==> survivors(s.cookies, now, n + 1) == survivors(s.cookies, now, n).push(
                normal_cookie(c),
            )
            &&& !last ==> survivors(s.cookies, now, n + 1) == survivors(s.cookies, now, n)
        },
        survivors(s.cookies, now, 0) == Seq::<CookieView>::empty(),
{
}

/// A session is sound exactly when every cookie has a name and a domain that are not blank and
/// every override a header that is not; else the fault is that of the first cookie with one, or
/// else that of the overrides.
pub proof fn law_faults_of_a_session(s: SessionView, k: int)
    ensures
        session_error(s) is None <==> (forall|i: int|
            0 <= i < s.cookies.len() ==> sound_cookie(#[trigger] s.cookies[i])) && (forall|i: int|
            0 <= i < s.network_overrides.len() ==> trimmed(
                (#[trigger] s.network_overrides[i]).header,
            ).len() > 0),
        0 <= k < s.cookies.len() && (forall|i: int|
            0 <= i < k ==> sound_cookie(#[trigger] s.cookies[i])) ==> {
            let c = s.cookies[k];
            &&& trimmed(c.name).len() == 0 ==> session_error(s) == Some(
                "cookie name must not be empty"@,
            )
            &&& trimmed(c.name).len() > 0 && trimmed(c.domain).len() == 0 ==> session_error(s)
                == Some("cookie "@ + c.name + " must include a domain"@)
        },
        (forall|i: int| 0 <= i < s.cookies.len() ==> sound_cookie(#[trigger] s.cookies[i]))
            && session_error(s) is Some ==> session_error(s) == Some(
            "network override header must not be empty"@,
        ),
{
    lemma_no_cookie_fault(s.cookies);
    assert forall|c: CookieView| #[trigger] sound_cookie(c) == (cookie_error(c) is None) by {}
    if forall|i: int| 0 <= i < s.cookies.len() ==> sound_cookie(#[trigger] s.cookies[i]) {
        assert forall|i: int| 0 <= i < s.cookies.len() implies cookie_error(
            #[trigger] s.cookies[i],
        ) is None by {
            assert(sound_cookie(s.cookies[i]));
        }
    }
    if 0 <= k < s.cookies.len() && (forall|i: int|
        0 <= i < k ==> sound_cookie(#[trigger] s.cookies[i])) && !sound_cookie(s.cookies[k]) {
        assert forall|i: int| 0 <= i < k implies cookie_error(#[trigger] s.cookies[i]) is None by {
            assert(sound_cookie(s.cookies[i]));
        }
        lemma_first_cookie_fault(s.cookies, k);
    }
    if session_error(s) is None {
        assert forall|i: int| 0 <= i < s.cookies.len() implies sound_cookie(
            #[trigger] s.cookies[i],
        ) by {
            assert(cookie_error(s.cookies[i]) is None);
        }
        assert forall|i: int| 0 <= i < s.network_overrides.len() implies trimmed(
            (#[trigger] s.network_overrides[i]).header,
        ).len() > 0 by {
            assert(!lacks_header(s.network_overrides[i]));
        }
    }
}

/// Whether a cookie has a name and a domain that are not blank.
pub open spec fn sound_cookie(c: CookieView) -> bool {
    trimmed(c.name).len() > 0 && trimmed(c.domain).len() > 0
}

proof fn lemma_no_cookie_fault(list: Seq<CookieView>)
    ensures
        first_cookie_error(list) is None <==> forall|i: int|
            0 <= i < list.len() ==> cookie_error(#[trigger] list[i]) is None,
    decreases list.len(),
{
    if list.len() > 0 {
        let rest = list.drop_first();
        lemma_no_cookie_fault(rest);
        if first_cookie_error(list) is None {
            assert forall|i: int| 0 <= i < list.len() implies cookie_error(
                #[trigger] list[i],
            ) is None by {
                if i > 0 {
                    assert(cookie_error(rest[i - 1]) is None);
                }
            }
        }
        if forall|i: int| 0 <= i < list.len() ==> cookie_error(#[trigger] list[i]) is None {
            assert(cookie_error(list[0]) is None);
            assert forall|i: int| 0 <= i < rest.len() implies cookie_error(
                #[trigger] rest[i],
            ) is None by {
                assert(cookie_error(list[i + 1]) is None);
            }
        }
    }
}

proof fn lemma_first_cookie_fault(list: Seq<CookieView>, k: int)
    requires
        0 <= k < list.len(),
        forall|i: int| 0 <= i < k ==> cookie_error(#[trigger] list[i]) is None,
        cookie_error(list[k]) is Some,
    ensures
        first_cookie_error(list) == cookie_error(list[k]),
    decreases list.len(),
{
    if k > 0 {
        let rest = list.drop_first();
        assert(cookie_error(list[0]) is None);
        assert forall|i: int| 0 <= i < k - 1 implies cookie_error(#[trigger] rest[i]) is None by {
            assert(cookie_error(list[i + 1]) is None);
        }
        lemma_first_cookie_fault(rest, k - 1);
    }
}

/// The contents of a cookie are all its parts, each as it is.
pub proof fn law_contents_of_cookie(x: Cookie)
    ensures
        ({
            &&& x@.name == x.name@
            &&& x@.value == x.value@
            &&& x@.domain == x.domain@
            &&& x.path is Some ==> x@.path == Some(x.path->Some_0@)
            &&& x.path is None ==> x@.path is None
            &&& x@.expires_unix == x.expires_unix
            &&& x@.secure == x.secure
            &&& x@.http_only == x.http_only
            &&& x@.same_site == x.same_site
        }),
{
}

/// The contents of a session are all its cookies, what both storage areas hold, and all overrides.
pub proof fn law_contents_of_session_state(x: SessionState)
    ensures
        ({
            &&& x@.cookies.len() == x.cookies@.len() && forall|i: int| 0 <= i < x.cookies@.len() ==> #[trigger] x@.cookies[i] == x.cookies@[i]@
            &&& x@.local_storage == x.local_storage@
            &&& x@.session_storage == x.session_storage@
            &&& x@.network_overrides.len() == x.network_overrides@.len() && forall|i: int| 0 <= i < x.network_overrides@.len() ==> #[trigger] x@.network_overrides[i] == x.network_overrides@[i]@
        }),
{
}

} // verus!
