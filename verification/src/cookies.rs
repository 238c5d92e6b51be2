//! Cookies of a request and of a response, parsed, kept and written by the
//! `cookie` crate.

use crate::http::RequestHead;
use crate::text::{optional_text, split, split_on, str_eq, strings};
use vstd::prelude::*;

verus! {

/// The jar of the `cookie` crate.
#[verifier::external_type_specification]
#[verifier::external_body]
pub struct ExCookieJar(cookie::CookieJar);

/// The cookies that `cookie::CookieJar::get` finds in a jar: their values,
/// by name.
pub uninterp spec fn jar_cookies(jar: cookie::CookieJar) -> Map<Seq<char>, Seq<char>>;

/// The name and the value of the cookie that `cookie::Cookie::parse_encoded`
/// reads from a string; none where it reads no cookie.
pub uninterp spec fn parsed_pair(piece: Seq<char>) -> Option<(Seq<char>, Seq<char>)>;

/// The cookies of an empty jar.
pub open spec fn no_cookies() -> Map<Seq<char>, Seq<char>> {
    Map::empty()
}

/// The characters of an optional pair of strings.
pub open spec fn optional_pair(pair: Option<(String, String)>) -> Option<(Seq<char>, Seq<char>)> {
    match pair {
        Some(p) => Some((p.0@, p.1@)),
        None => None,
    }
}

/// Calls `cookie::CookieJar::new`.
///
/// Trusted: `get` finds no cookie in the new jar.
#[verifier::external_body]
pub(crate) fn jar_new() -> (r: cookie::CookieJar)
    ensures
        jar_cookies(r) == no_cookies(),
{
    cookie::CookieJar::new()
}

/// Calls `cookie::CookieJar::add` with a cookie made of `name` and `value`.
///
/// Trusted: afterwards `get` finds `value` under `name`, in place of a
/// cookie of that name that the jar held, and what it finds under other
/// names is unchanged.
#[verifier::external_body]
pub(crate) fn jar_add(jar: &mut cookie::CookieJar, name: String, value: String)
    ensures
        jar_cookies(*final(jar)) == jar_cookies(*old(jar)).insert(name@, value@),
{
    jar.add(cookie::Cookie::new(name, value))
}

/// Calls `cookie::CookieJar::get` and hands out the value of the cookie
/// that it finds.
///
/// Trusted: the result is the value that the jar holds under `name`, and
/// none where it holds no cookie of that name.
#[verifier::external_body]
pub(crate) fn jar_get(jar: &cookie::CookieJar, name: &str) -> (r: Option<String>)
    ensures
        optional_text(r) == if jar_cookies(*jar).contains_key(name@) {
            Some(jar_cookies(*jar)[name@])
        } else {
            None
        },
{
    jar.get(name).map(|c| c.value().to_owned())
}

/// Calls `cookie::Cookie::parse_encoded` and hands out the name and the
/// value of the cookie that it reads.
///
/// Trusted: the result is a function of the characters of `piece` alone;
/// where parsing fails there is none.
#[verifier::external_body]
pub(crate) fn parse_pair(piece: &str) -> (r: Option<(String, String)>)
    ensures
        optional_pair(r) == parsed_pair(piece@),
{
    cookie::Cookie::parse_encoded(piece.to_owned()).ok().map(|c| (c.name().to_owned(), c.value().to_owned()))
}

/// The cookies of a jar after the first `n` of `pieces` were parsed in turn
/// and each cookie that was read was added.
pub open spec fn with_pieces(
    cookies: Map<Seq<char>, Seq<char>>,
    pieces: Seq<Seq<char>>,
    n: int,
) -> Map<Seq<char>, Seq<char>>
    decreases n,
{
    if n <= 0 {
        cookies
    } else {
        let before = with_pieces(cookies, pieces, n - 1);
        match parsed_pair(pieces[n - 1]) {
            Some(pair) => before.insert(pair.0, pair.1),
            None => before,
        }
    }
}

/// The cookies of a jar after the `Cookie` headers among the first `n` of
/// `headers` were read in turn: each is split at `;`, and its pieces are
/// parsed and added.
pub open spec fn with_headers(
    cookies: Map<Seq<char>, Seq<char>>,
    headers: Seq<(String, String)>,
    n: int,
) -> Map<Seq<char>, Seq<char>>
    decreases n,
{
    if n <= 0 {
        cookies
    } else {
        let before = with_headers(cookies, headers, n - 1);
        if headers[n - 1].0@ == "cookie"@ {
            let pieces = split_on(headers[n - 1].1@, ';');
            with_pieces(before, pieces, pieces.len() as int)
        } else {
            before
        }
    }
}

/// The cookies that a request carries.
pub open spec fn request_cookies(req: &RequestHead) -> Map<Seq<char>, Seq<char>> {
    with_headers(Map::empty(), req.headers@, req.headers@.len() as int)
}

/// The jar of the cookies that a request carries in its `Cookie` headers.
pub fn cookies(req: &RequestHead) -> (jar: cookie::CookieJar)
    ensures
        jar_cookies(jar) == request_cookies(req),
{
    let mut jar = jar_new();
    let mut i: usize = 0;
    while i < req.headers.len()
        invariant
            i <= req.headers@.len(),
            jar_cookies(jar) == with_headers(Map::empty(), req.headers@, i as int),
        decreases req.headers@.len() - i,
    {
        if str_eq(req.headers[i].0.as_str(), "cookie") {
            let pieces = split(req.headers[i].1.as_str(), ';');
            let ghost before = jar_cookies(jar);
            let ghost all = split_on(req.headers@[i as int].1@, ';');
            let mut j: usize = 0;
            while j < pieces.len()
                invariant
                    j <= pieces@.len(),
                    strings(pieces@) == all,
                    jar_cookies(jar) == with_pieces(before, all, j as int),
                decreases pieces@.len() - j,
            {
                assert(all[j as int] == pieces@[j as int]@);
                match parse_pair(pieces[j].as_str()) {
                    Some(pair) => {
                        jar_add(&mut jar, pair.0, pair.1);
                    },
                    None => {},
                }
                j += 1;
            }
        }
        i += 1;
    }
    jar
}

/// The `SameSite` attribute of a cookie.
#[derive(Debug, Clone, Copy, PartialEq, Eq, Structural)]
pub enum SameSite {
    Strict,
    Lax,
    /// Written `None`: the cookie is sent with cross-site requests too.
    Unrestricted,
}

impl SameSite {
    /// The attribute as it is written in a `Set-Cookie` header.
    pub open spec fn label(self) -> Seq<char> {
        match self {
            SameSite::Strict => "Strict"@,
            SameSite::Lax => "Lax"@,
            SameSite::Unrestricted => "None"@,
        }
    }

    /// The attribute that a configuration names: `strict`, `lax` or `none`;
    /// no attribute for any other word.
    pub open spec fn named(word: Seq<char>) -> Option<SameSite> {
        if word == "strict"@ {
            Some(SameSite::Strict)
        } else if word == "lax"@ {
            Some(SameSite::Lax)
        } else if word == "none"@ {
            Some(SameSite::Unrestricted)
        } else {
            None
        }
    }

    /// The attribute that a configuration names.
    pub fn from_name(word: &str) -> (r: Option<SameSite>)
        ensures
            r == SameSite::named(word@),
    {
        if str_eq(word, "strict") {
            Some(SameSite::Strict)
        } else if str_eq(word, "lax") {
            Some(SameSite::Lax)
        } else if str_eq(word, "none") {
            Some(SameSite::Unrestricted)
        } else {
            None
        }
    }
}

/// `domain` without one dot at its start.
pub open spec fn without_leading_dot(domain: Seq<char>) -> Seq<char> {
    if domain.len() > 0 && domain[0] == '.' {
        domain.subrange(1, domain.len() as int)
    } else {
        domain
    }
}

/// The value of the `Set-Cookie` header for a cookie with the given name,
/// value and attributes.
pub open spec fn set_cookie_text(
    name: Seq<char>,
    value: Seq<char>,
    http_only: bool,
    same_site: Option<SameSite>,
    secure: bool,
    path: Seq<char>,
    domain: Option<Seq<char>>,
) -> Seq<char> {
    name + "="@ + value + (if http_only {
        "; HttpOnly"@
    } else {
        Seq::empty()
    }) + (match same_site {
        Some(s) => "; SameSite="@ + s.label(),
        None => Seq::empty(),
    }) + (if secure {
        "; Secure"@
    } else {
        Seq::empty()
    }) + "; Path="@ + path + (match domain {
        Some(d) => "; Domain="@ + without_leading_dot(d),
        None => Seq::empty(),
    })
}

/// Builds a cookie without a domain with `cookie::Cookie::new` and the
/// setters of its attributes, and writes it with its `Display`
/// implementation.
///
/// Trusted: the text is the name, `=` and the value, followed by the
/// attributes that are set, each after `; `, in the order `HttpOnly`,
/// `SameSite`, `Secure`, `Path`; `Secure` is written where `secure` is set
/// and only there.
#[verifier::external_body]
pub(crate) fn set_cookie_value(
    name: &str,
    value: &str,
    http_only: bool,
    same_site: Option<SameSite>,
    secure: bool,
    path: &str,
) -> (r: String)
    ensures
        r@ == set_cookie_text(name@, value@, http_only, same_site, secure, path@, None),
{
    let mut c = cookie::Cookie::new(name.to_owned(), value.to_owned());
    c.set_http_only(http_only);
    c.set_same_site(same_site.map(|s| match s {
        SameSite::Strict => cookie::SameSite::Strict,
        SameSite::Lax => cookie::SameSite::Lax,
        SameSite::Unrestricted => cookie::SameSite::None,
    }));
    c.set_secure(secure);
    c.set_path(path.to_owned());
    c.to_string()
}

/// Builds a cookie for a domain with `cookie::Cookie::new` and the setters
/// of its attributes, and writes it with its `Display` implementation.
///
/// Trusted: the text is that of the cookie without a domain, followed by
/// `; Domain=` and the domain without one leading dot.
#[verifier::external_body]
pub(crate) fn set_cookie_value_for_domain(
    name: &str,
    value: &str,
    http_only: bool,
    same_site: Option<SameSite>,
    secure: bool,
    path: &str,
    domain: &str,
) -> (r: String)
    ensures
        r@ == set_cookie_text(name@, value@, http_only, same_site, secure, path@, Some(domain@)),
{
    let mut c = cookie::Cookie::new(name.to_owned(), value.to_owned());
    c.set_http_only(http_only);
    c.set_same_site(same_site.map(|s| match s {
        SameSite::Strict => cookie::SameSite::Strict,
        SameSite::Lax => cookie::SameSite::Lax,
        SameSite::Unrestricted => cookie::SameSite::None,
    }));
    c.set_secure(secure);
    c.set_path(path.to_owned());
    c.set_domain(domain.to_owned());
    c.to_string()
}

} // verus!
