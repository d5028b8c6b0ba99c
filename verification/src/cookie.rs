//! Cookies: the cookie record, and the decisions that the cookie jar of the
//! browser framework is driven with.

use vstd::prelude::*;
use crate::text::{push_str, string_from_chars};

verus! {

/// The model of a cookie.
pub struct CookieData {
    pub name: Seq<char>,
    pub value: Seq<char>,
    pub domain: Seq<char>,
    pub path: Seq<char>,
    /// Milliseconds since the Unix epoch.
    pub creation_time: u64,
    /// Milliseconds since the Unix epoch; `0` for none.
    pub expires: u64,
    pub http_only: bool,
    pub secure: bool,
}

/// A cookie: the record that the browser framework stores for a URL.
/// Times are milliseconds since the Unix epoch, as the framework holds them.
pub struct Cookie {
    name: String,
    value: String,
    domain: String,
    path: String,
    creation_time: u64,
    expires: u64,
    http_only: bool,
    secure: bool,
}

impl View for Cookie {
    type V = CookieData;

    closed spec fn view(&self) -> CookieData {
        CookieData {
            name: self.name@,
            value: self.value@,
            domain: self.domain@,
            path: self.path@,
            creation_time: self.creation_time,
            expires: self.expires,
            http_only: self.http_only,
            secure: self.secure,
        }
    }
}

impl Cookie {
    /// A cookie with the given name and value, no domain, no path, no
    /// expiry, not secure and not HTTP-only.
    pub fn new(name: &str, value: &str) -> (r: Self)
        ensures
            r@ == (CookieData {
                name: name@,
                value: value@,
                domain: seq![],
                path: seq![],
                creation_time: 0,
                expires: 0,
                http_only: false,
                secure: false,
            }),
    {
        Cookie {
            name: name.to_owned(),
            value: value.to_owned(),
            domain: String::new(),
            path: String::new(),
            creation_time: 0,
            expires: 0,
            http_only: false,
            secure: false,
        }
    }

    /// When the cookie was created, in milliseconds since the Unix epoch.
    pub fn creation_time(&self) -> (r: u64)
        ensures
            r == self@.creation_time,
    {
        self.creation_time
    }

    /// When the cookie expires, in milliseconds since the Unix epoch; `None`
    /// for a cookie that does not expire (a time of `0`).
    pub fn expires(&self) -> (r: Option<u64>)
        ensures
            r == expiry(self@),
    {
        if self.expires != 0 {
            Some(self.expires)
        } else {
            None
        }
    }

    pub fn domain(&self) -> (r: String)
        ensures
            r@ == self@.domain,
    {
        self.domain.clone()
    }

    pub fn is_http_only(&self) -> (r: bool)
        ensures
            r == self@.http_only,
    {
        self.http_only
    }

    pub fn name(&self) -> (r: String)
        ensures
            r@ == self@.name,
    {
        self.name.clone()
    }

    pub fn path(&self) -> (r: String)
        ensures
            r@ == self@.path,
    {
        self.path.clone()
    }

    pub fn is_secure(&self) -> (r: bool)
        ensures
            r == self@.secure,
    {
        self.secure
    }

    pub fn value(&self) -> (r: String)
        ensures
            r@ == self@.value,
    {
        self.value.clone()
    }

    pub fn make_http_only(&mut self) -> (r: &mut Self)
        ensures
            r@ == (CookieData { http_only: true, ..old(self)@ }),
            *final(self) == *final(r),
    {
        self.http_only = true;
        self
    }

    pub fn make_secure(&mut self) -> (r: &mut Self)
        ensures
            r@ == (CookieData { secure: true, ..old(self)@ }),
            *final(self) == *final(r),
    {
        self.secure = true;
        self
    }

    /// Sets when the cookie was created, in milliseconds since the Unix epoch.
    pub fn set_creation_time(&mut self, time: u64) -> (r: &mut Self)
        ensures
            r@ == (CookieData { creation_time: time, ..old(self)@ }),
            *final(self) == *final(r),
    {
        self.creation_time = time;
        self
    }

    /// Sets when the cookie expires, in milliseconds since the Unix epoch.
    pub fn set_expires(&mut self, time: u64) -> (r: &mut Self)
        ensures
            r@ == (CookieData { expires: time, ..old(self)@ }),
            *final(self) == *final(r),
    {
        self.expires = time;
        self
    }

    pub fn set_domain(&mut self, domain: &str) -> (r: &mut Self)
        ensures
            r@ == (CookieData { domain: domain@, ..old(self)@ }),
            *final(self) == *final(r),
    {
        self.domain = domain.to_owned();
        self
    }

    pub fn set_name(&mut self, name: &str) -> (r: &mut Self)
        ensures
            r@ == (CookieData { name: name@, ..old(self)@ }),
            *final(self) == *final(r),
    {
        self.name = name.to_owned();
        self
    }

    pub fn set_path(&mut self, path: &str) -> (r: &mut Self)
        ensures
            r@ == (CookieData { path: path@, ..old(self)@ }),
            *final(self) == *final(r),
    {
        self.path = path.to_owned();
        self
    }

    pub fn set_value(&mut self, value: &str) -> (r: &mut Self)
        ensures
            r@ == (CookieData { value: value@, ..old(self)@ }),
            *final(self) == *final(r),
    {
        self.value = value.to_owned();
        self
    }
}

/// The expiry that a cookie reads back: `None` for a time of `0`.
pub open spec fn expiry(c: CookieData) -> Option<u64> {
    if c.expires != 0 {
        Some(c.expires)
    } else {
        None
    }
}

/// A cookie gives back the expiry that was set on it, where that is not the
/// Unix epoch itself (which reads as "does not expire"); setting it touches
/// nothing else of the cookie.
pub proof fn law_cookie_expiry_read_after_write(c: CookieData, time: u64)
    requires
        time != 0,
    ensures
        expiry(CookieData { expires: time, ..c }) == Some(time),
        (CookieData { expires: time, ..c }).name == c.name,
        (CookieData { expires: time, ..c }).value == c.value,
        (CookieData { expires: time, ..c }).creation_time == c.creation_time,
{
}

/// A cookie whose expiry was set to the Unix epoch reads as one that does not
/// expire.
pub proof fn law_cookie_epoch_expiry(c: CookieData)
    ensures
        expiry(CookieData { expires: 0, ..c }) == None::<u64>,
{
}

/// The error that occurs when a cookie could not be stored.
#[derive(Debug, PartialEq, Eq, Structural)]
pub enum CookieStorageError {
    Unknown,
}

impl CookieStorageError {
    /// `unable to set cookie (url invalid?)`.
    pub fn to_string(&self) -> (r: String)
        ensures
            r@ == "unable to set cookie (url invalid?)"@,
    {
        let mut out: Vec<char> = Vec::new();
        push_str(&mut out, "unable to set cookie (url invalid?)");
        string_from_chars(&out)
    }
}

/// The outcome of storing a cookie, for the error code that the framework
/// reports: stored where it is `0`, `Unknown` otherwise.
pub fn storage_result(code: u32) -> (r: Result<(), CookieStorageError>)
    ensures
        code == 0 ==> r is Ok,
        code != 0 ==> r == Err::<(), CookieStorageError>(CookieStorageError::Unknown),
{
    if code == 0 {
        Ok(())
    } else {
        Err(CookieStorageError::Unknown)
    }
}

/// What the cookie jar is asked to delete: the cookies with `name` at `url`;
/// an empty `url` stands for every URL and an empty `name` for every name.
pub struct CookieDeletion {
    pub url: String,
    pub name: String,
}

impl CookieDeletion {
    /// Deletes all cookies with the given `name`; if `url` is not empty, only
    /// those at that `url`.
    pub fn delete(url: &str, name: &str) -> (r: Self)
        ensures
            r.url@ == url@,
            r.name@ == name@,
    {
        Self { url: url.to_owned(), name: name.to_owned() }
    }

    /// Deletes all cookies; if `url` is not empty, only those of that `url`.
    pub fn clear(url: &str) -> (r: Self)
        ensures
            r.url@ == url@,
            r.name@ == Seq::<char>::empty(),
    {
        Self { url: url.to_owned(), name: String::new() }
    }

    /// Deletes every cookie.
    pub fn clear_all() -> (r: Self)
        ensures
            r.url@ == Seq::<char>::empty(),
            r.name@ == Seq::<char>::empty(),
    {
        let empty = String::new();
        Self::clear(empty.as_str())
    }

    /// Deletes the cookies with the given `name` at every URL.
    pub fn delete_all(name: &str) -> (r: Self)
        ensures
            r.url@ == Seq::<char>::empty(),
            r.name@ == name@,
    {
        let empty = String::new();
        Self::delete(empty.as_str(), name)
    }
}

/// What a search for a cookie does with the next cookie that the iterator
/// gives.
pub enum FindStep {
    /// This is the cookie searched for.
    Found(Cookie),
    /// Not this one; go on with the next.
    Continue,
    /// The iterator is done: there is no such cookie.
    NotFound,
}

/// The cookie that a search for `name` stops at.
pub open spec fn step_finds(name: Seq<char>, c: CookieData) -> bool {
    c.name == name
}

/// Where a search for `name` stops that takes `find_step` for each cookie of
/// `cs` in turn and then for the end of the iterator: the index of the cookie
/// it was `Found` at, or `None` where it reached `NotFound`.
pub open spec fn search_stop(name: Seq<char>, cs: Seq<CookieData>) -> Option<int>
    decreases cs.len(),
{
    if cs.len() == 0 {
        None
    } else if step_finds(name, cs[0]) {
        Some(0)
    } else {
        match search_stop(name, cs.drop_first()) {
            Some(i) => Some(i + 1),
            None => None,
        }
    }
}

/// A search for a cookie by name gives the first cookie with that name that
/// the iterator yields, and none where no cookie has that name.
pub proof fn law_find_first_match(name: Seq<char>, cs: Seq<CookieData>)
    ensures
        search_stop(name, cs) matches Some(i) ==> 0 <= i < cs.len() && cs[i].name == name
            && forall|j: int| 0 <= j < i ==> cs[j].name != name,
        search_stop(name, cs) is None <==> forall|j: int| 0 <= j < cs.len() ==> cs[j].name != name,
    decreases cs.len(),
{
    if cs.len() > 0 && !step_finds(name, cs[0]) {
        let rest = cs.drop_first();
        law_find_first_match(name, rest);
        assert forall|j: int| 0 < j < cs.len() implies cs[j] == rest[j - 1] by {}
        if search_stop(name, rest) is None {
            assert forall|j: int| 0 <= j < cs.len() implies cs[j].name != name by {
                if j > 0 {
                    assert(rest[j - 1].name != name);
                }
            }
        } else {
            let i = search_stop(name, rest)->0;
            assert(cs[i + 1] == rest[i]);
            assert forall|j: int| 0 <= j < i + 1 implies cs[j].name != name by {
                if j > 0 {
                    assert(rest[j - 1].name != name);
                }
            }
        }
    }
}

/// One step of the search for the first cookie named `name`.
pub fn find_step(name: &str, next: Option<Cookie>) -> (r: FindStep)
    ensures
        next is None ==> r is NotFound,
        next matches Some(c) ==> (step_finds(name@, c@) ==> r == FindStep::Found(c)),
        next matches Some(c) ==> (!step_finds(name@, c@) ==> r is Continue),
{
    match next {
        None => FindStep::NotFound,
        Some(cookie) => {
            if cookie.name == name.to_owned() {
                FindStep::Found(cookie)
            } else {
                FindStep::Continue
            }
        },
    }
}

/// Where the search stops in a longer sequence of cookies: a search that went
/// on past `cs` stops at `c`, the next cookie, if that one has the name.
proof fn lemma_search_stop_push(name: Seq<char>, cs: Seq<CookieData>, c: CookieData)
    requires
        search_stop(name, cs) is None,
    ensures
        search_stop(name, cs.push(c)) == (if step_finds(name, c) {
            Some(cs.len() as int)
        } else {
            None
        }),
    decreases cs.len(),
{
    let longer = cs.push(c);
    if cs.len() == 0 {
        assert(longer.drop_first() =~= Seq::<CookieData>::empty());
        assert(longer[0] == c);
        assert(search_stop(name, longer.drop_first()) is None);
    } else {
        assert(!step_finds(name, cs[0]));
        assert(search_stop(name, cs.drop_first()) is None);
        lemma_search_stop_push(name, cs.drop_first(), c);
        assert(longer.drop_first() =~= cs.drop_first().push(c));
        assert(longer[0] == cs[0]);
    }
}

/// The search for the first cookie with a name among the cookies that an
/// iterator gives, one at a time: it remembers the cookies it was given.
pub struct CookieSearch {
    name: String,
    seen: Ghost<Seq<CookieData>>,
    done: bool,
}

impl CookieSearch {
    /// The name searched for.
    pub closed spec fn name(&self) -> Seq<char> {
        self.name@
    }

    /// The cookies the search was given so far, in order.
    pub closed spec fn seen(&self) -> Seq<CookieData> {
        self.seen@
    }

    /// Whether the search has found its cookie or reached the end.
    pub closed spec fn is_done(&self) -> bool {
        self.done
    }

    /// While the search goes on, none of the cookies it was given has the
    /// name.
    #[verifier::type_invariant]
    spec fn none_found_yet(&self) -> bool {
        !self.done ==> search_stop(self.name@, self.seen@) is None
    }

    /// A search for the cookie named `name` that was given no cookie yet.
    pub fn new(name: &str) -> (r: Self)
        ensures
            r.name() == name@,
            r.seen() == Seq::<CookieData>::empty(),
            !r.is_done(),
    {
        CookieSearch { name: name.to_owned(), seen: Ghost(Seq::empty()), done: false }
    }

    /// Hands the search the next cookie of the iterator, `None` at its end.
    /// It stops with `Found` at the first cookie with the name, and with
    /// `NotFound` at the end where no cookie had it; see
    /// `law_find_first_match`.
    pub fn step(&mut self, next: Option<Cookie>) -> (r: FindStep)
        requires
            !old(self).is_done(),
        ensures
            final(self).name() == old(self).name(),
            search_stop(old(self).name(), old(self).seen()) is None,
            next is None ==> r is NotFound && final(self).is_done() && final(self).seen()
                == old(self).seen(),
            next matches Some(c) ==> final(self).seen() == old(self).seen().push(c@),
            next matches Some(c) ==> (step_finds(old(self).name(), c@) ==> (r == FindStep::Found(c)
                && final(self).is_done() && search_stop(old(self).name(), final(self).seen())
                == Some(old(self).seen().len() as int))),
            next matches Some(c) ==> (!step_finds(old(self).name(), c@) ==> (r is Continue
                && !final(self).is_done() && search_stop(old(self).name(), final(self).seen())
                is None)),
    {
        proof {
            use_type_invariant(&*self);
        }
        let ghost given: Option<CookieData> = match &next {
            Some(c) => Some(c@),
            None => None,
        };
        let ghost before = self.seen@;
        let r = find_step(self.name.as_str(), next);
        proof {
            if given is Some {
                lemma_search_stop_push(self.name@, before, given->0);
            }
        }
        match &r {
            FindStep::NotFound => {
                self.done = true;
            },
            FindStep::Found(_) => {
                self.done = true;
                self.seen = Ghost(before.push(given->0));
            },
            FindStep::Continue => {
                self.seen = Ghost(before.push(given->0));
            },
        }
        r
    }
}

} // verus!
