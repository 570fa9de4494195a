//! Authentication: JWT claims, the user a request acts for, the token a
//! request carries in its headers, and the guard that protects module
//! routes.

use vstd::prelude::*;
use crate::text::{
    find_char, index_of, lemma_index_of, split_on_pair, split_pair_spec, starts_with, str_eq, trim, trim_spec,
};
use crate::transport::{contains_str, views};

verus! {

/// The claims of a session token: the user id and the expiry time in
/// seconds since the Unix epoch.
#[derive(Debug, Clone)]
pub struct Claims {
    pub sub: String,
    pub exp: usize,
}

/// The user a request acts for.
#[derive(Debug, Clone)]
pub struct User {
    pub id: String,
}

/// The session token in one cookie of a `Cookie` header: the value,
/// trimmed, of a cookie whose name, trimmed, is `blenny_token`; the name
/// ends at the first `=`.
pub open spec fn cookie_token_of(cookie: Seq<char>) -> Option<Seq<char>> {
    match index_of(cookie, '=') {
        Some(k) => if trim_spec(cookie.take(k)) == "blenny_token"@ {
            Some(trim_spec(cookie.skip(k + 1)))
        } else {
            None
        },
        None => None,
    }
}

/// The session token of the first cookie among `cookies` that has one.
pub open spec fn first_cookie_token(cookies: Seq<Seq<char>>) -> Option<Seq<char>>
    decreases cookies.len(),
{
    if cookies.len() == 0 {
        None
    } else {
        match cookie_token_of(cookies[0]) {
            Some(t) => Some(t),
            None => first_cookie_token(cookies.drop_first()),
        }
    }
}

/// The token of an `Authorization` header value: what follows `Bearer `.
pub open spec fn bearer_token_of(auth: Seq<char>) -> Option<Seq<char>> {
    let p = "Bearer "@;
    if p.len() <= auth.len() && auth.take(p.len() as int) == p {
        Some(auth.skip(p.len() as int))
    } else {
        None
    }
}

/// The token a request carries: from the `Cookie` header, whose cookies
/// are separated by `; `, else from a bearer `Authorization` header.
pub open spec fn header_token(cookie: Option<Seq<char>>, authorization: Option<Seq<char>>) -> Option<
    Seq<char>,
> {
    let from_cookie = match cookie {
        Some(c) => first_cookie_token(split_pair_spec(c, ';', ' ')),
        None => None,
    };
    match from_cookie {
        Some(t) => Some(t),
        None => match authorization {
            Some(a) => bearer_token_of(a),
            None => None,
        },
    }
}

proof fn lemma_first_cookie_token(cookies: Seq<Seq<char>>, i: int)
    requires
        0 <= i <= cookies.len(),
        forall|j: int| 0 <= j < i ==> cookie_token_of(#[trigger] cookies[j]) is None,
    ensures
        i < cookies.len() && cookie_token_of(cookies[i]) is Some ==> first_cookie_token(cookies)
            == cookie_token_of(cookies[i]),
        i == cookies.len() ==> first_cookie_token(cookies) is None,
    decreases i,
{
    if i > 0 {
        let rest = cookies.drop_first();
        assert forall|j: int| 0 <= j < i - 1 implies cookie_token_of(#[trigger] rest[j]) is None by {
            assert(rest[j] == cookies[j + 1]);
        }
        lemma_first_cookie_token(rest, i - 1);
        assert(cookie_token_of(cookies[0]) is None);
        if i < cookies.len() {
            assert(rest[i - 1] == cookies[i]);
        }
    }
}

/// The token of a `Cookie` header is that of its first cookie carrying a
/// `blenny_token`, wherever that cookie stands among the header's cookies
/// (the pieces between `; `), whatever the `Authorization` header says.
pub proof fn law_cookie_token_is_first_match(
    cookie: Seq<char>,
    authorization: Option<Seq<char>>,
    i: int,
)
    requires
        0 <= i < split_pair_spec(cookie, ';', ' ').len(),
        cookie_token_of(split_pair_spec(cookie, ';', ' ')[i]) is Some,
        forall|j: int|
            0 <= j < i ==> cookie_token_of(#[trigger] split_pair_spec(cookie, ';', ' ')[j]) is None,
    ensures
        header_token(Some(cookie), authorization) == cookie_token_of(
            split_pair_spec(cookie, ';', ' ')[i],
        ),
{
    lemma_first_cookie_token(split_pair_spec(cookie, ';', ' '), i);
}

/// When no cookie of the `Cookie` header carries a `blenny_token`, the
/// token is the bearer token of the `Authorization` header, if any.
pub proof fn law_no_cookie_token_uses_bearer(cookie: Option<Seq<char>>, authorization: Option<Seq<char>>)
    requires
        cookie matches Some(c) ==> forall|j: int|
            0 <= j < split_pair_spec(c, ';', ' ').len() ==> cookie_token_of(
                #[trigger] split_pair_spec(c, ';', ' ')[j],
            ) is None,
    ensures
        header_token(cookie, authorization) == match authorization {
            Some(a) => bearer_token_of(a),
            None => None,
        },
{
    if let Some(c) = cookie {
        let cs = split_pair_spec(c, ';', ' ');
        lemma_first_cookie_token(cs, cs.len() as int);
    }
}

/// A cookie `name=value`, whose name holds no `=`, carries the token
/// `value`, trimmed, exactly when its name, trimmed, is `blenny_token`; a
/// cookie without `=` carries none.
pub proof fn law_cookie_token_of_name_value(name: Seq<char>, value: Seq<char>, bare: Seq<char>)
    requires
        !name.contains('='),
    ensures
        cookie_token_of(name + seq!['='] + value) == if trim_spec(name) == "blenny_token"@ {
            Some(trim_spec(value))
        } else {
            None
        },
        !bare.contains('=') ==> cookie_token_of(bare) is None,
{
    let c = name + seq!['='] + value;
    assert forall|j: int| 0 <= j < name.len() implies c[j] != '=' by {
        assert(c[j] == name[j]);
    }
    assert(c[name.len() as int] == '=');
    lemma_index_of(c, '=', name.len() as int);
    assert(c.take(name.len() as int) =~= name);
    assert(c.skip(name.len() as int + 1) =~= value);
    if !bare.contains('=') {
        lemma_index_of(bare, '=', bare.len() as int);
    }
}

/// An `Authorization` header `Bearer <token>` carries `<token>`, whatever
/// it holds; a header that does not start with `Bearer ` carries none.
pub proof fn law_bearer_token(token: Seq<char>, other: Seq<char>)
    ensures
        bearer_token_of("Bearer "@ + token) == Some(token),
        !(other.len() >= 7 && other.take(7) == "Bearer "@) ==> bearer_token_of(other) is None,
{
    reveal_strlit("Bearer ");
    assert(("Bearer "@ + token).take(7) =~= "Bearer "@);
    assert(("Bearer "@ + token).skip(7) =~= token);
}

/// The session token of one cookie, if it is the `blenny_token` cookie.
fn cookie_token(cookie: &str) -> (r: Option<String>)
    ensures
        match r {
            Some(t) => cookie_token_of(cookie@) == Some(t@),
            None => cookie_token_of(cookie@) is None,
        },
{
    match find_char(cookie, '=') {
        None => None,
        Some(k) => {
            let n = cookie.unicode_len();
            let name = trim(cookie.substring_char(0, k));
            if str_eq(name.as_str(), "blenny_token") {
                let value = trim(cookie.substring_char(k + 1, n));
                proof {
                    assert(cookie@.subrange(0, k as int) =~= cookie@.take(k as int));
                    assert(cookie@.subrange(k + 1, n as int) =~= cookie@.skip(k + 1));
                }
                Some(value)
            } else {
                proof {
                    assert(cookie@.subrange(0, k as int) =~= cookie@.take(k as int));
                }
                None
            }
        },
    }
}

impl User {
    /// The token a request carries in its headers, given the text of its
    /// `Cookie` and `Authorization` headers (each absent when missing or not
    /// visible ASCII): the value of the `blenny_token` cookie, else the
    /// bearer token.
    pub fn token_from_headers(cookie: Option<&str>, authorization: Option<&str>) -> (r: Option<
        String,
    >)
        ensures
            match r {
                Some(t) => header_token(
                    match cookie {
                        Some(c) => Some(c@),
                        None => None,
                    },
                    match authorization {
                        Some(a) => Some(a@),
                        None => None,
                    },
                ) == Some(t@),
                None => header_token(
                    match cookie {
                        Some(c) => Some(c@),
                        None => None,
                    },
                    match authorization {
                        Some(a) => Some(a@),
                        None => None,
                    },
                ) is None,
            },
    {
        let mut from_cookie: Option<String> = None;
        if let Some(c) = cookie {
            let cookies = split_on_pair(c, ';', ' ');
            let ghost cs = split_pair_spec(c@, ';', ' ');
            let mut i: usize = 0;
            assert(cs.skip(0) =~= cs);
            while i < cookies.len() && from_cookie.is_none()
                invariant
                    cookies@.map_values(|p: String| p@) == cs,
                    i <= cookies@.len(),
                    from_cookie is None ==> first_cookie_token(cs) == first_cookie_token(cs.skip(i as int)),
                    from_cookie matches Some(t) ==> first_cookie_token(cs) == Some(t@),
                decreases cookies@.len() - i,
            {
                proof {
                    assert(cs.skip(i as int)[0] == cookies@[i as int]@);
                    assert(cs.skip(i as int).drop_first() =~= cs.skip(i + 1));
                }
                from_cookie = cookie_token(cookies[i].as_str());
                i = i + 1;
            }
            proof {
                if from_cookie is None {
                    assert(cs.skip(cookies@.len() as int) =~= Seq::<Seq<char>>::empty());
                }
            }
        }
        match from_cookie {
            Some(t) => Some(t),
            None => match authorization {
                Some(a) => {
                    if starts_with(a, "Bearer ") {
                        let p = "Bearer ".unicode_len();
                        let n = a.unicode_len();
                        let t = a.substring_char(p, n).to_string();
                        assert(a@.subrange(p as int, n as int) =~= a@.skip(p as int));
                        Some(t)
                    } else {
                        None
                    }
                },
                None => None,
            },
        }
    }
}

/// What the authentication guard does with a request.
#[derive(Debug, Clone)]
pub enum AuthDecision {
    /// The path is public: pass the request on as it is.
    Public,
    /// Pass the request on, acting for this user.
    Authenticated(User),
    /// Send the client to the login page.
    RedirectToLogin,
}

/// Whether `path` is one of the public paths (compared exactly).
pub fn is_public_path(path: &str, public_paths: &Vec<String>) -> (r: bool)
    ensures
        r == views(public_paths@).contains(path@),
{
    contains_str(public_paths, path)
}

/// The guard in front of module routes: public paths pass, a request with a
/// valid user passes as that user, and any other goes to the login page.
pub fn auth_decision(path: &str, public_paths: &Vec<String>, user: Option<User>) -> (r: AuthDecision)
    ensures
        views(public_paths@).contains(path@) ==> r is Public,
        !views(public_paths@).contains(path@) && user is Some ==> (r matches AuthDecision::Authenticated(u)
            && u == user->0),
        !views(public_paths@).contains(path@) && user is None ==> r is RedirectToLogin,
{
    if is_public_path(path, public_paths) {
        AuthDecision::Public
    } else {
        match user {
            Some(u) => AuthDecision::Authenticated(u),
            None => AuthDecision::RedirectToLogin,
        }
    }
}

} // verus!
