//! The built-in modules: the login module that is also the auth provider,
//! the dashboard, and the broadcast test module. Their request handling
//! needs the web server; what they decide stands here.

use vstd::prelude::*;
use crate::auth::Claims;
use crate::text::str_eq;
use crate::transport::message::ServerMessage;

verus! {

/// The login module: login and logout pages, and the auth provider.
#[derive(Default, Clone, Copy)]
pub struct AuthModule;

/// Seconds a session lasts: one day.
pub const SESSION_SECONDS: i64 = 86400;

impl AuthModule {
    /// The paths that bypass authentication: the login and logout pages.
    pub fn public_paths(&self) -> (r: Vec<&'static str>)
        ensures
            r@.len() == 2,
            r@[0]@ == "/login"@,
            r@[1]@ == "/logout"@,
    {
        let mut r: Vec<&'static str> = Vec::new();
        r.push("/login");
        r.push("/logout");
        r
    }

    /// Whether a login form is accepted: the user name `admin` with the
    /// password `password`; a missing field counts as empty.
    pub fn check_credentials(username: Option<&str>, password: Option<&str>) -> (r: bool)
        ensures
            r == ((username matches Some(u) && u@ == "admin"@) && (password matches Some(p) && p@
                == "password"@)),
    {
        let u = match username {
            Some(u) => u,
            None => "",
        };
        let p = match password {
            Some(p) => p,
            None => "",
        };
        proof {
            reveal_strlit("");
            reveal_strlit("admin");
            reveal_strlit("password");
            assert(""@.len() == 0);
            assert("admin"@.len() == 5);
            assert("password"@.len() == 8);
        }
        str_eq(u, "admin") && str_eq(p, "password")
    }

    /// The claims of the session token issued at login time `now` (seconds
    /// since the Unix epoch): the user, and an expiry one day later.
    pub fn login_claims(username: &str, now: i64) -> (c: Claims)
        requires
            now <= i64::MAX - SESSION_SECONDS,
        ensures
            c.sub@ == username@,
            c.exp == (now + SESSION_SECONDS) as usize,
    {
        Claims { sub: username.to_string(), exp: (now + SESSION_SECONDS) as usize }
    }

    /// The greeting published on the `dashboard.greeting` topic when a user
    /// logs in.
    pub fn login_greeting(username: &str) -> (r: String)
        ensures
            r@ == "User "@ + username@ + " logged in"@,
    {
        let mut r = "User ".to_string();
        r.append(username);
        r.append(" logged in");
        r
    }
}

/// The dashboard module: the `/dashboard` page for the logged-in user.
#[derive(Default, Clone, Copy)]
pub struct DashboardModule;

/// The module that triggers broadcasts for testing the transports.
#[derive(Default, Clone, Copy)]
pub struct TestBroadcastModule;

impl TestBroadcastModule {
    /// The module's name.
    pub fn name(&self) -> (r: &'static str)
        ensures
            r@ == "TestBroadcast"@,
    {
        "TestBroadcast"
    }

    /// The routes that need no authentication: the test page and the
    /// broadcast trigger.
    pub fn public_routes(&self) -> (r: Vec<String>)
        ensures
            r@.len() == 2,
            r@[0]@ == "/test-page"@,
            r@[1]@ == "/trigger-broadcast"@,
    {
        let mut r: Vec<String> = Vec::new();
        r.push("/test-page".to_string());
        r.push("/trigger-broadcast".to_string());
        r
    }

    /// The category a trigger request broadcasts: the `category` parameter,
    /// else `ui`.
    pub fn trigger_category(param: Option<String>) -> (r: String)
        ensures
            param matches Some(c) ==> r@ == c@,
            param is None ==> r@ == "ui"@,
    {
        match param {
            Some(c) => c,
            None => "ui".to_string(),
        }
    }

    /// The message a trigger request broadcasts for `category` at the time
    /// `ts`: a stock quote for `data`, a console script for `command`, and
    /// otherwise a paragraph naming the category.
    pub fn trigger_message(category: &str, ts: &str) -> (m: ServerMessage)
        ensures
            m.category@ == category@,
            category@ == "data"@ ==> m.html is None && (m.signals matches Some(s) && s@
                == "{\"stock\":\"BLEN\",\"price\":42,\"ts\":\""@ + ts@ + "\"}"@),
            category@ == "command"@ ==> m.signals is None && (m.html matches Some(h) && h@
                == "console.log('command at "@ + ts@ + "')"@),
            category@ != "data"@ && category@ != "command"@ ==> m.signals is None && (m.html matches Some(
                h,
            ) && h@ == "<p>Broadcasted "@ + category@ + " at "@ + ts@ + "</p>"@),
    {
        proof {
            reveal_strlit("data");
            reveal_strlit("command");
            assert("data"@ != "command"@) by {
                assert("data"@.len() != "command"@.len());
            }
        }
        if str_eq(category, "data") {
            let mut s = "{\"stock\":\"BLEN\",\"price\":42,\"ts\":\"".to_string();
            s.append(ts);
            s.append("\"}");
            ServerMessage { category: category.to_string(), html: None, signals: Some(s) }
        } else if str_eq(category, "command") {
            let mut h = "console.log('command at ".to_string();
            h.append(ts);
            h.append("')");
            ServerMessage { category: category.to_string(), html: Some(h), signals: None }
        } else {
            let mut h = "<p>Broadcasted ".to_string();
            h.append(category);
            h.append(" at ");
            h.append(ts);
            h.append("</p>");
            ServerMessage { category: category.to_string(), html: Some(h), signals: None }
        }
    }

    /// The reply to a trigger request.
    pub fn trigger_reply(category: &str) -> (r: String)
        ensures
            r@ == "Sent "@ + category@,
    {
        let mut r = "Sent ".to_string();
        r.append(category);
        r
    }
}

} // verus!
