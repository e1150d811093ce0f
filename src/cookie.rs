//! Session cookies: the `Set-Cookie` values that carry tokens to the browser, and
//! lookup of a named value in a request's `Cookie` header.
use vstd::prelude::*;
use crate::text::{chars_of, decimal, string_of};

verus! {

/// The last second that a cookie date can name: 9999-12-31T23:59:59Z.
pub const LAST_COOKIE_SECOND: u64 = 253402300799;

/// How long before `now` a deletion cookie's `Expires` lies: one day.
pub const EXPIRED_BY: u64 = 86400;

/// A cookie as this service sets it.
#[derive(Clone, Debug)]
pub struct SessionCookie {
    pub name: String,
    pub value: String,
    pub path: String,
    pub http_only: bool,
    pub secure: bool,
    /// `SameSite=Lax` when set; no `SameSite` attribute otherwise.
    pub same_site_lax: bool,
    /// `Max-Age` in seconds; negative tells the browser to drop the cookie.
    pub max_age: i64,
    /// `Expires`, in seconds since the Unix epoch.
    pub expires: i64,
}

impl View for SessionCookie {
    /// Name, value, path, `HttpOnly`, `Secure`, `SameSite=Lax`, `Max-Age`, `Expires`.
    type V = (Seq<char>, Seq<char>, Seq<char>, bool, bool, bool, i64, i64);

    open spec fn view(&self) -> Self::V {
        (self.name@, self.value@, self.path@, self.http_only, self.secure, self.same_site_lax, self.max_age, self.expires)
    }
}

/// The `Set-Cookie` header value that the cookie crate renders for a cookie.
pub uninterp spec fn set_cookie_text(c: (Seq<char>, Seq<char>, Seq<char>, bool, bool, bool, i64, i64)) -> Seq<char>;

/// An integer in decimal, with a leading minus sign when negative.
pub open spec fn signed_decimal(n: int) -> Seq<char> {
    if n < 0 {
        seq!['-'] + decimal((-n) as nat)
    } else {
        decimal(n as nat)
    }
}

/// The start of the `Set-Cookie` text for a cookie: `name=value`, then `HttpOnly`,
/// `SameSite=Lax` and `Secure` where set, then the path and `Max-Age`.
pub open spec fn set_cookie_head(c: (Seq<char>, Seq<char>, Seq<char>, bool, bool, bool, i64, i64)) -> Seq<char> {
    c.0 + seq!['='] + c.1 + (if c.3 {
        "; HttpOnly"@
    } else {
        Seq::empty()
    }) + (if c.5 {
        "; SameSite=Lax"@
    } else {
        Seq::empty()
    }) + (if c.4 {
        "; Secure"@
    } else {
        Seq::empty()
    }) + "; Path="@ + c.2 + "; Max-Age="@ + signed_decimal(c.6 as int)
}

/// Relies on `cookie::Cookie`'s `Display` (the `Set-Cookie` header value) for a
/// cookie built field for field from `c`: `Max-Age` through `time::Duration::seconds`,
/// `Expires` through `OffsetDateTime::from_unix_timestamp`. The text is a function of
/// the fields. `Display` writes `name=value`, then `fmt_parameters` writes, in this
/// order, `HttpOnly`, `SameSite`, `Secure` (set explicitly, no `Partitioned`), `Path`
/// and `Max-Age` (whole seconds), then `Expires`.
#[verifier::external_body]
fn render_set_cookie(c: &SessionCookie) -> (r: String)
    ensures
        r@ == set_cookie_text(c@),
        set_cookie_head(c@).is_prefix_of(r@),
{
    let mut k = cookie::Cookie::new(c.name.clone(), c.value.clone());
    k.set_path(c.path.clone());
    k.set_http_only(c.http_only);
    k.set_secure(c.secure);
    k.set_same_site(c.same_site_lax.then_some(cookie::SameSite::Lax));
    k.set_max_age(time::Duration::seconds(c.max_age));
    k.set_expires(time::OffsetDateTime::from_unix_timestamp(c.expires).ok());
    k.to_string()
}

pub open spec fn root_path() -> Seq<char> {
    seq!['/']
}

/// `c` is the cookie that carries `value` under `name` for `max_age` seconds from `now`.
pub open spec fn carries(c: SessionCookie, name: Seq<char>, value: Seq<char>, max_age: u64, now: u64) -> bool {
    &&& c.name@ == name
    &&& c.value@ == value
    &&& c.path@ == root_path()
    &&& c.http_only
    &&& c.secure
    &&& !c.same_site_lax
    &&& c.max_age == max_age
    &&& c.expires == if now + max_age <= LAST_COOKIE_SECOND {
        now + max_age
    } else {
        LAST_COOKIE_SECOND as int
    }
}

/// `c` tells the browser to drop the cookie `name`, as of `now`.
pub open spec fn drops(c: SessionCookie, name: Seq<char>, now: u64) -> bool {
    &&& c.name@ == name
    &&& c.value@.len() == 0
    &&& c.path@ == root_path()
    &&& c.http_only
    &&& c.secure
    &&& c.same_site_lax
    &&& c.max_age == -1
    &&& c.expires == now - EXPIRED_BY
}

/// The cookie that carries `value` under `name` for `max_age` seconds from `now`,
/// valid for the whole site, hidden from scripts and sent over TLS only. Its
/// `Expires` stops at the last date a cookie can name.
pub fn create_at(name: &str, value: String, max_age: u64, now: u64) -> (c: SessionCookie)
    requires
        max_age <= LAST_COOKIE_SECOND,
    ensures
        carries(c, name@, value@, max_age, now),
{
    let expires: u64 = if now <= LAST_COOKIE_SECOND - max_age {
        now + max_age
    } else {
        LAST_COOKIE_SECOND
    };
    let path = String::from_str("/");
    proof {
        reveal_strlit("/");
        assert(path@ =~= root_path());
    }
    let c = SessionCookie {
        name: String::from_str(name),
        value,
        path,
        http_only: true,
        secure: true,
        same_site_lax: false,
        max_age: max_age as i64,
        expires: expires as i64,
    };
    assert(c.value@ == value@);
    c
}

/// The cookie that tells the browser to drop `name` at once: empty value,
/// `Max-Age=-1`, `Expires` a day before `now`. It has no effect on the server.
pub fn delete_at(name: &str, now: u64) -> (c: SessionCookie)
    requires
        now <= i64::MAX,
    ensures
        drops(c, name@, now),
{
    let path = String::from_str("/");
    proof {
        reveal_strlit("/");
        assert(path@ =~= root_path());
    }
    SessionCookie {
        name: String::from_str(name),
        value: String::new(),
        path,
        http_only: true,
        secure: true,
        same_site_lax: true,
        max_age: -1,
        expires: now as i64 - EXPIRED_BY as i64,
    }
}

/// [`create_at`] at the current time.
pub fn create(name: &str, value: String, max_age: u64) -> (c: SessionCookie)
    requires
        max_age <= LAST_COOKIE_SECOND,
    ensures
        exists|now: u64| carries(c, name@, value@, max_age, now),
{
    create_at(name, value, max_age, crate::clock::now_unix_seconds())
}

/// [`delete_at`] at the current time.
pub fn delete(name: &str) -> (c: SessionCookie)
    ensures
        exists|now: u64| drops(c, name@, now),
{
    delete_at(name, crate::clock::now_unix_seconds())
}

impl SessionCookie {
    /// The `Set-Cookie` header value for this cookie.
    pub fn to_header(&self) -> (r: String)
        ensures
            r@ == set_cookie_text(self@),
            set_cookie_head(self@).is_prefix_of(r@),
    {
        render_set_cookie(self)
    }
}

/// The name and value that the cookie crate reads from one `name=value` piece of a
/// `Cookie` header, or `None` when the piece is not such a pair.
pub uninterp spec fn cookie_pair(piece: Seq<char>) -> Option<(Seq<char>, Seq<char>)>;

/// Relies on `cookie::Cookie::parse_encoded`, which trims blanks around name and value
/// and percent-decodes them: the name and value of the pair, or `None` when the piece
/// does not parse.
#[verifier::external_body]
fn parse_pair(piece: &str) -> (r: Option<(String, String)>)
    ensures
        match r {
            Some((n, v)) => cookie_pair(piece@) == Some((n@, v@)),
            None => cookie_pair(piece@) is None,
        },
{
    cookie::Cookie::parse_encoded(piece).ok().map(|c| (c.name().to_string(), c.value().to_string()))
}

/// The `;`-separated pieces of a header, in order (one empty piece for an empty header).
pub open spec fn pieces(s: Seq<char>) -> Seq<Seq<char>>
    decreases s.len(),
{
    if s.len() == 0 {
        seq![Seq::<char>::empty()]
    } else {
        let rest = pieces(s.drop_first());
        if s[0] == ';' {
            seq![Seq::<char>::empty()] + rest
        } else {
            rest.update(0, seq![s[0]] + rest[0])
        }
    }
}

/// The value of the first piece that parses as a pair named `name`.
pub open spec fn value_named(ps: Seq<Seq<char>>, name: Seq<char>) -> Option<Seq<char>>
    decreases ps.len(),
{
    if ps.len() == 0 {
        None
    } else {
        match cookie_pair(ps[0]) {
            Some(p) => if p.0 == name {
                Some(p.1)
            } else {
                value_named(ps.drop_first(), name)
            },
            None => value_named(ps.drop_first(), name),
        }
    }
}

/// The value that a `Cookie` header gives to `name`.
pub open spec fn cookie_value(header: Seq<char>, name: Seq<char>) -> Option<Seq<char>> {
    value_named(pieces(header), name)
}

proof fn lemma_pieces_nonempty(s: Seq<char>)
    ensures
        pieces(s).len() >= 1,
    decreases s.len(),
{
    if s.len() > 0 {
        lemma_pieces_nonempty(s.drop_first());
    }
}

/// Characters without `;` extend the first piece of what follows them.
proof fn lemma_pieces_prefix(s: Seq<char>, j: int)
    requires
        0 <= j <= s.len(),
        forall|t: int| 0 <= t < j ==> s[t] != ';',
    ensures
        pieces(s) == pieces(s.skip(j)).update(0, s.take(j) + pieces(s.skip(j))[0]),
    decreases j,
{
    lemma_pieces_nonempty(s.skip(j));
    if j == 0 {
        assert(s.skip(0) =~= s);
        assert(s.take(0) + pieces(s)[0] =~= pieces(s)[0]);
        assert(pieces(s).update(0, pieces(s)[0]) =~= pieces(s));
    } else {
        let r = s.drop_first();
        lemma_pieces_prefix(r, j - 1);
        assert(r.skip(j - 1) =~= s.skip(j));
        lemma_pieces_nonempty(r);
        assert(seq![s[0]] + (r.take(j - 1) + pieces(s.skip(j))[0]) =~= s.take(j) + pieces(s.skip(j))[0]);
        assert(pieces(s) =~= pieces(s.skip(j)).update(0, s.take(j) + pieces(s.skip(j))[0]));
    }
}

/// The value of the cookie `name` in a `Cookie` request header, if it has one.
pub fn find_cookie(header: &str, name: &str) -> (r: Option<String>)
    ensures
        match r {
            Some(v) => cookie_value(header@, name@) == Some(v@),
            None => cookie_value(header@, name@) is None,
        },
{
    let v = chars_of(header);
    let wanted = name.to_owned();
    assert(v@.skip(0) =~= v@);
    let mut cur: Vec<char> = Vec::new();
    let mut start: usize = 0;
    let mut i: usize = 0;
    loop
        invariant
            v@ == header@,
            wanted@ == name@,
            start <= i <= v@.len(),
            cur@ == v@.subrange(start as int, i as int),
            forall|t: int| start <= t < i ==> v@[t] != ';',
            cookie_value(header@, name@) == value_named(pieces(v@.skip(start as int)), name@),
        decreases v@.len() - i,
    {
        if i == v.len() || v[i] == ';' {
            let ghost rest = v@.skip(start as int);
            proof {
                lemma_pieces_prefix(rest, i - start);
                assert(rest.take(i - start) =~= cur@);
                assert(rest.skip(i - start) =~= v@.skip(i as int));
                if i == v.len() {
                    assert(v@.skip(i as int) =~= Seq::<char>::empty());
                    assert(pieces(rest) =~= seq![cur@]);
                    assert(value_named(seq![cur@].drop_first(), name@) == None::<Seq<char>>);
                } else {
                    assert(v@.skip(i as int).drop_first() =~= v@.skip(i + 1));
                    assert(pieces(rest) =~= seq![cur@] + pieces(v@.skip(i + 1)));
                    assert((seq![cur@] + pieces(v@.skip(i + 1))).drop_first() =~= pieces(v@.skip(i + 1)));
                }
            }
            let piece = string_of(&cur);
            if let Some((n, val)) = parse_pair(piece.as_str()) {
                if n == wanted {
                    return Some(val);
                }
            }
            if i == v.len() {
                return None;
            }
            cur = Vec::new();
            start = i + 1;
            assert(cur@ =~= v@.subrange(start as int, start as int));
        } else {
            cur.push(v[i]);
            assert(cur@ =~= v@.subrange(start as int, i + 1));
        }
        i = i + 1;
    }
}

} // verus!
