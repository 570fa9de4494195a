//! The attribute of a self-assembling module,
//! `#[blenny_module(path = "...", scope = "...", route_handler = "...",
//! enable = ..., public_routes = [...], initialize_handler = "...")]`:
//! its items as syn reads them from the attribute's text, the grammar over
//! those items, and what a module's registration takes from it.

use vstd::prelude::*;
use syn::parse::Parser;
use syn::punctuated::Punctuated;
use syn::token::Comma;
use syn::{Expr, Lit, Meta};
use self::AttrValue::{Array, Bool, Other, Str};
use crate::text::str_eq;
use crate::transport::message::opt_view;
use crate::transport::{contains_str, first_mentions, lemma_first_mentions, views};

verus! {

/// The value of a `key = value` attribute item, as far as the grammar reads
/// it: a string literal, a boolean literal, an array, or anything else.
#[derive(Debug)]
pub enum AttrValue {
    Str(String),
    Bool(bool),
    Array(Vec<AttrValue>),
    Other,
}

/// One attribute item: `key = value`, or a bare `key` or `key(...)`, which
/// carries no value. `key` is the item's path when it is a single
/// identifier, and `None` for a longer path.
#[derive(Debug)]
pub struct AttrMeta {
    pub key: Option<String>,
    pub value: Option<AttrValue>,
}

/// The settings an attribute gives; each is `None` when it is not given.
#[derive(Debug)]
pub struct ModuleAttrs {
    pub path: Option<String>,
    pub scope: Option<String>,
    pub route_handler: Option<String>,
    pub enable: Option<bool>,
    pub public_routes: Option<Vec<AttrValue>>,
    pub initialize_handler: Option<String>,
}

/// Why an attribute was refused.
#[derive(Debug, Clone)]
pub struct AttrError {
    pub message: String,
}

/// The view of an array element: its text when it is a string literal.
pub open spec fn elem_view(e: AttrValue) -> Option<Seq<char>> {
    match e {
        AttrValue::Str(s) => Some(s@),
        _ => None,
    }
}

/// The settings of an attribute, as text.
pub struct AttrsView {
    pub path: Option<Seq<char>>,
    pub scope: Option<Seq<char>>,
    pub route_handler: Option<Seq<char>>,
    pub enable: Option<bool>,
    pub public_routes: Option<Seq<Option<Seq<char>>>>,
    pub initialize_handler: Option<Seq<char>>,
}

impl ModuleAttrs {
    /// The settings as text.
    pub open spec fn view_attrs(&self) -> AttrsView {
        AttrsView {
            path: opt_view(self.path),
            scope: opt_view(self.scope),
            route_handler: opt_view(self.route_handler),
            enable: self.enable,
            public_routes: match self.public_routes {
                Some(v) => Some(v@.map_values(|e: AttrValue| elem_view(e))),
                None => None,
            },
            initialize_handler: opt_view(self.initialize_handler),
        }
    }
}

/// The attribute with nothing given.
pub open spec fn no_attrs() -> AttrsView {
    AttrsView {
        path: None,
        scope: None,
        route_handler: None,
        enable: None,
        public_routes: None,
        initialize_handler: None,
    }
}

/// The key of an item, when it is a single identifier.
pub open spec fn meta_key(m: AttrMeta) -> Option<Seq<char>> {
    opt_view(m.key)
}

/// The string literal an item gives as `key = "..."`, the error for a
/// `key = value` of another kind, or the error for an item of another
/// shape.
pub open spec fn string_setting(m: AttrMeta, literal_err: Seq<char>, shape_err: Seq<char>) -> Result<
    Seq<char>,
    Seq<char>,
> {
    match m.value {
        Some(value) => match value {
            AttrValue::Str(s) => Ok(s@),
            _ => Err(literal_err),
        },
        None => Err(shape_err),
    }
}

/// The attribute's settings after reading item `m`: a known key sets its
/// setting (a later item replaces an earlier one) or is refused with its
/// message, and an unknown key is skipped.
pub open spec fn apply_meta(a: AttrsView, m: AttrMeta) -> Result<AttrsView, Seq<char>> {
    let k = meta_key(m);
    if k == Some("path"@) {
        match string_setting(m, "expected string literal for path"@, "expected path = \"...\""@) {
            Ok(s) => Ok(AttrsView { path: Some(s), ..a }),
            Err(e) => Err(e),
        }
    } else if k == Some("scope"@) {
        match string_setting(m, "expected string literal for scope"@, "expected scope = \"...\""@) {
            Ok(s) => Ok(AttrsView { scope: Some(s), ..a }),
            Err(e) => Err(e),
        }
    } else if k == Some("route_handler"@) {
        match string_setting(
            m,
            "expected string literal for route_handler"@,
            "expected route_handler = \"fn_name\""@,
        ) {
            Ok(s) => Ok(AttrsView { route_handler: Some(s), ..a }),
            Err(e) => Err(e),
        }
    } else if k == Some("enable"@) {
        match m.value {
            Some(value) => match value {
                AttrValue::Bool(b) => Ok(AttrsView { enable: Some(b), ..a }),
                _ => Err("expected boolean literal for enable"@),
            },
            None => Err("expected enable = true/false"@),
        }
    } else if k == Some("public_routes"@) {
        match m.value {
            Some(value) => match value {
                AttrValue::Array(v) => Ok(
                    AttrsView {
                        public_routes: Some(v@.map_values(|e: AttrValue| elem_view(e))),
                        ..a
                    },
                ),
                _ => Err("expected array literal for public_routes"@),
            },
            None => Err("expected public_routes = [...]"@),
        }
    } else if k == Some("initialize_handler"@) {
        match string_setting(
            m,
            "expected string literal for initialize_handler"@,
            "expected initialize_handler = \"fn_name\""@,
        ) {
            Ok(s) => Ok(AttrsView { initialize_handler: Some(s), ..a }),
            Err(e) => Err(e),
        }
    } else {
        Ok(a)
    }
}

/// The settings of a whole attribute, read item by item; the first refused
/// item refuses the attribute.
pub open spec fn parse_attrs_spec(metas: Seq<AttrMeta>) -> Result<AttrsView, Seq<char>>
    decreases metas.len(),
{
    if metas.len() == 0 {
        Ok(no_attrs())
    } else {
        match parse_attrs_spec(metas.drop_last()) {
            Ok(a) => apply_meta(a, metas.last()),
            Err(e) => Err(e),
        }
    }
}

proof fn lemma_error_propagates(metas: Seq<AttrMeta>, j: int)
    requires
        0 <= j <= metas.len(),
        parse_attrs_spec(metas.take(j)) is Err,
    ensures
        parse_attrs_spec(metas) == parse_attrs_spec(metas.take(j)),
    decreases metas.len() - j,
{
    if j < metas.len() {
        assert(metas.take(j + 1).drop_last() =~= metas.take(j));
        lemma_error_propagates(metas, j + 1);
    } else {
        assert(metas.take(j) =~= metas);
    }
}

/// The elements of an array value as far as the settings read them: each
/// string literal, and `Other` for any other element.
fn route_elems(v: &Vec<AttrValue>) -> (r: Vec<AttrValue>)
    ensures
        r@.map_values(|e: AttrValue| elem_view(e)) == v@.map_values(|e: AttrValue| elem_view(e)),
{
    let mut r: Vec<AttrValue> = Vec::new();
    let mut i: usize = 0;
    while i < v.len()
        invariant
            i <= v@.len(),
            r@.len() == i,
            forall|j: int| 0 <= j < i ==> elem_view(#[trigger] r@[j]) == elem_view(v@[j]),
        decreases v@.len() - i,
    {
        let e = match &v[i] {
            AttrValue::Str(s) => AttrValue::Str(s.clone()),
            _ => AttrValue::Other,
        };
        r.push(e);
        i = i + 1;
    }
    assert(r@.map_values(|e: AttrValue| elem_view(e)) =~= v@.map_values(|e: AttrValue| elem_view(e)));
    r
}

fn key_is(key: &Option<String>, name: &str) -> (r: bool)
    ensures
        r == (opt_view(*key) == Some(name@)),
{
    match key {
        Some(k) => str_eq(k.as_str(), name),
        None => false,
    }
}

fn meta_key_of(m: &AttrMeta) -> (r: &Option<String>)
    ensures
        opt_view(*r) == meta_key(*m),
{
    &m.key
}

fn err(message: &str) -> (r: AttrError)
    ensures
        r.message@ == message@,
{
    AttrError { message: message.to_string() }
}

fn string_value(m: &AttrMeta, literal_err: &str, shape_err: &str) -> (r: Result<String, AttrError>)
    ensures
        match r {
            Ok(s) => string_setting(*m, literal_err@, shape_err@) == Ok::<Seq<char>, Seq<char>>(s@),
            Err(e) => string_setting(*m, literal_err@, shape_err@) == Err::<Seq<char>, Seq<char>>(
                e.message@,
            ),
        },
{
    match &m.value {
        Some(value) => match value {
            AttrValue::Str(s) => Ok(s.clone()),
            _ => Err(err(literal_err)),
        },
        None => Err(err(shape_err)),
    }
}

/// After accepted items, an item `path = "..."` with a string literal is
/// accepted, sets `path` to the literal's text, and leaves every other
/// setting as it was.
pub proof fn law_path_item_sets_path(metas: Seq<AttrMeta>, m: AttrMeta, text: String)
    requires
        meta_key(m) == Some("path"@),
        m.value == Some(AttrValue::Str(text)),
        parse_attrs_spec(metas) is Ok,
    ensures
        ({
            let before = parse_attrs_spec(metas)->Ok_0;
            &&& parse_attrs_spec(metas.push(m)) is Ok
            &&& parse_attrs_spec(metas.push(m))->Ok_0.path == Some(text@)
            &&& {
                let a = parse_attrs_spec(metas.push(m))->Ok_0;
            &&& a.scope == before.scope
            &&& a.route_handler == before.route_handler
            &&& a.enable == before.enable
            &&& a.public_routes == before.public_routes
            &&& a.initialize_handler == before.initialize_handler
            }
        }),
{
    reveal_setting_keys();
    assert(metas.push(m).drop_last() =~= metas);
}

/// After accepted items, an item `scope = "..."` with a string literal is
/// accepted, sets `scope` to the literal's text, and leaves every other
/// setting as it was.
pub proof fn law_scope_item_sets_scope(metas: Seq<AttrMeta>, m: AttrMeta, text: String)
    requires
        meta_key(m) == Some("scope"@),
        m.value == Some(AttrValue::Str(text)),
        parse_attrs_spec(metas) is Ok,
    ensures
        ({
            let before = parse_attrs_spec(metas)->Ok_0;
            &&& parse_attrs_spec(metas.push(m)) is Ok
            &&& parse_attrs_spec(metas.push(m))->Ok_0.scope == Some(text@)
            &&& {
                let a = parse_attrs_spec(metas.push(m))->Ok_0;
            &&& a.path == before.path
            &&& a.route_handler == before.route_handler
            &&& a.enable == before.enable
            &&& a.public_routes == before.public_routes
            &&& a.initialize_handler == before.initialize_handler
            }
        }),
{
    reveal_setting_keys();
    assert(metas.push(m).drop_last() =~= metas);
}

/// After accepted items, an item `route_handler = "..."` with a string literal is
/// accepted, sets `route_handler` to the literal's text, and leaves every other
/// setting as it was.
pub proof fn law_route_handler_item_sets_route_handler(metas: Seq<AttrMeta>, m: AttrMeta, text: String)
    requires
        meta_key(m) == Some("route_handler"@),
        m.value == Some(AttrValue::Str(text)),
        parse_attrs_spec(metas) is Ok,
    ensures
        ({
            let before = parse_attrs_spec(metas)->Ok_0;
            &&& parse_attrs_spec(metas.push(m)) is Ok
            &&& parse_attrs_spec(metas.push(m))->Ok_0.route_handler == Some(text@)
            &&& {
                let a = parse_attrs_spec(metas.push(m))->Ok_0;
            &&& a.path == before.path
            &&& a.scope == before.scope
            &&& a.enable == before.enable
            &&& a.public_routes == before.public_routes
            &&& a.initialize_handler == before.initialize_handler
            }
        }),
{
    reveal_setting_keys();
    assert(metas.push(m).drop_last() =~= metas);
}

/// After accepted items, an item `initialize_handler = "..."` with a string literal is
/// accepted, sets `initialize_handler` to the literal's text, and leaves every other
/// setting as it was.
pub proof fn law_initialize_handler_item_sets_initialize_handler(metas: Seq<AttrMeta>, m: AttrMeta, text: String)
    requires
        meta_key(m) == Some("initialize_handler"@),
        m.value == Some(AttrValue::Str(text)),
        parse_attrs_spec(metas) is Ok,
    ensures
        ({
            let before = parse_attrs_spec(metas)->Ok_0;
            &&& parse_attrs_spec(metas.push(m)) is Ok
            &&& parse_attrs_spec(metas.push(m))->Ok_0.initialize_handler == Some(text@)
            &&& {
                let a = parse_attrs_spec(metas.push(m))->Ok_0;
            &&& a.path == before.path
            &&& a.scope == before.scope
            &&& a.route_handler == before.route_handler
            &&& a.enable == before.enable
            &&& a.public_routes == before.public_routes
            }
        }),
{
    reveal_setting_keys();
    assert(metas.push(m).drop_last() =~= metas);
}

/// After accepted items, an item `enable = b` with a boolean literal is
/// accepted, sets `enable` to exactly `b`, and leaves every other setting as
/// it was.
pub proof fn law_enable_item_sets_enable(metas: Seq<AttrMeta>, m: AttrMeta, b: bool)
    requires
        meta_key(m) == Some("enable"@),
        m.value == Some(AttrValue::Bool(b)),
        parse_attrs_spec(metas) is Ok,
    ensures
        ({
            let before = parse_attrs_spec(metas)->Ok_0;
            &&& parse_attrs_spec(metas.push(m)) is Ok
            &&& parse_attrs_spec(metas.push(m))->Ok_0.enable == Some(b)
            &&& {
                let a = parse_attrs_spec(metas.push(m))->Ok_0;
            &&& a.path == before.path
            &&& a.scope == before.scope
            &&& a.route_handler == before.route_handler
            &&& a.public_routes == before.public_routes
            &&& a.initialize_handler == before.initialize_handler
            }
        }),
{
    reveal_setting_keys();
    assert(metas.push(m).drop_last() =~= metas);
}

/// After accepted items, an item `public_routes = [...]` with an array is
/// accepted, sets `public_routes` to its elements' texts (the text of each
/// string literal, nothing for another element), and leaves every other
/// setting as it was.
pub proof fn law_public_routes_item_sets_public_routes(
    metas: Seq<AttrMeta>,
    m: AttrMeta,
    elems: Vec<AttrValue>,
)
    requires
        meta_key(m) == Some("public_routes"@),
        m.value == Some(AttrValue::Array(elems)),
        parse_attrs_spec(metas) is Ok,
    ensures
        ({
            let before = parse_attrs_spec(metas)->Ok_0;
            &&& parse_attrs_spec(metas.push(m)) is Ok
            &&& parse_attrs_spec(metas.push(m))->Ok_0.public_routes matches Some(rs) && rs.len()
                == elems@.len() && forall|k: int|
                0 <= k < elems@.len() ==> rs[k] == match #[trigger] elems@[k] {
                    AttrValue::Str(t) => Some(t@),
                    _ => None,
                }
            &&& {
                let a = parse_attrs_spec(metas.push(m))->Ok_0;
            &&& a.path == before.path
            &&& a.scope == before.scope
            &&& a.route_handler == before.route_handler
            &&& a.enable == before.enable
            &&& a.initialize_handler == before.initialize_handler
            }
        }),
{
    reveal_setting_keys();
    assert(metas.push(m).drop_last() =~= metas);
}

/// After accepted items, an item whose key is none of the six settings is
/// skipped: the settings stay as they were.
pub proof fn law_unknown_item_is_skipped(metas: Seq<AttrMeta>, m: AttrMeta)
    requires
        meta_key(m) != Some("path"@),
        meta_key(m) != Some("scope"@),
        meta_key(m) != Some("route_handler"@),
        meta_key(m) != Some("enable"@),
        meta_key(m) != Some("public_routes"@),
        meta_key(m) != Some("initialize_handler"@),
    ensures
        parse_attrs_spec(metas.push(m)) == parse_attrs_spec(metas),
{
    assert(metas.push(m).drop_last() =~= metas);
}

proof fn reveal_setting_keys()
    ensures
        "path"@ != "scope"@,
        "path"@ != "route_handler"@,
        "path"@ != "enable"@,
        "path"@ != "public_routes"@,
        "path"@ != "initialize_handler"@,
        "scope"@ != "route_handler"@,
        "scope"@ != "enable"@,
        "scope"@ != "public_routes"@,
        "scope"@ != "initialize_handler"@,
        "route_handler"@ != "enable"@,
        "route_handler"@ != "public_routes"@,
        "route_handler"@ != "initialize_handler"@,
        "enable"@ != "public_routes"@,
        "enable"@ != "initialize_handler"@,
        "public_routes"@ != "initialize_handler"@,
{
    reveal_strlit("path");
    reveal_strlit("scope");
    reveal_strlit("route_handler");
    reveal_strlit("enable");
    reveal_strlit("public_routes");
    reveal_strlit("initialize_handler");
    assert("path"@[0] != "scope"@[0]);
    assert("path"@[0] != "route_handler"@[0]);
    assert("path"@[0] != "enable"@[0]);
    assert("path"@[1] != "public_routes"@[1]);
    assert("path"@[0] != "initialize_handler"@[0]);
    assert("scope"@[0] != "route_handler"@[0]);
    assert("scope"@[0] != "enable"@[0]);
    assert("scope"@[0] != "public_routes"@[0]);
    assert("scope"@[0] != "initialize_handler"@[0]);
    assert("route_handler"@[0] != "enable"@[0]);
    assert("route_handler"@[0] != "public_routes"@[0]);
    assert("route_handler"@[0] != "initialize_handler"@[0]);
    assert("enable"@[0] != "public_routes"@[0]);
    assert("enable"@[0] != "initialize_handler"@[0]);
    assert("public_routes"@[0] != "initialize_handler"@[0]);
}

/// The items that syn reads from the argument text of an attribute, a
/// comma-separated list of `key = value`, `key` and `key(...)` items, or
/// syn's message when the text is no such list.
pub uninterp spec fn attribute_items_of(text: Seq<char>) -> Result<Seq<AttrMeta>, Seq<char>>;

/// The items, or the message, as sequences.
pub open spec fn items_view(r: Result<Vec<AttrMeta>, String>) -> Result<Seq<AttrMeta>, Seq<char>> {
    match r {
        Ok(v) => Ok(v@),
        Err(e) => Err(e@),
    }
}

/// `syn::parse::Parser::parse_str` with
/// `Punctuated::<Meta, Comma>::parse_terminated` on `text`, each `syn::Meta`
/// converted to an `AttrMeta` (a single-identifier path, by
/// `Path::get_ident`, as its key; for `key = value`, by
/// `Meta::require_name_value`, a string or boolean literal, or an array of
/// such, as its value), and a `syn::Error` to its message. The result is
/// named, not stated.
#[verifier::external_body]
fn parse_attribute_items(text: &str) -> (r: Result<Vec<AttrMeta>, String>)
    ensures
        items_view(r) == attribute_items_of(text@),
{
    let value = |e: &Expr| match e {
        Expr::Lit(l) => match &l.lit { Lit::Str(s) => Str(s.value()), Lit::Bool(b) => Bool(b.value), _ => Other },
        _ => Other,
    };
    Punctuated::<Meta, Comma>::parse_terminated.parse_str(text).map_err(|e| e.to_string()).map(|metas| {
        metas.iter().map(|m| AttrMeta {
            key: m.path().get_ident().map(ToString::to_string),
            value: m.require_name_value().ok().map(|nv| match &nv.value {
                Expr::Array(a) => Array(a.elems.iter().map(value).collect()),
                e => value(e),
            }),
        }).collect()
    })
}

/// Reads the argument text of a `blenny_module` attribute into its
/// settings: syn splits the text into items, which `parse_module_attrs`
/// reads. A text that is no item list is refused with syn's message.
pub fn parse_module_attribute(text: &str) -> (r: Result<ModuleAttrs, AttrError>)
    ensures
        match attribute_items_of(text@) {
            Err(msg) => (r matches Err(e) && e.message@ == msg),
            Ok(ms) => match r {
                Ok(a) => parse_attrs_spec(ms) == Ok::<AttrsView, Seq<char>>(a.view_attrs()),
                Err(e) => parse_attrs_spec(ms) == Err::<AttrsView, Seq<char>>(e.message@),
            },
        },
{
    match parse_attribute_items(text) {
        Err(message) => Err(AttrError { message }),
        Ok(items) => parse_module_attrs(&items),
    }
}

/// Reads the items of a `blenny_module` attribute into its settings, or
/// refuses the attribute with the message of its first bad item.
pub fn parse_module_attrs(metas: &Vec<AttrMeta>) -> (r: Result<ModuleAttrs, AttrError>)
    ensures
        match r {
            Ok(a) => parse_attrs_spec(metas@) == Ok::<AttrsView, Seq<char>>(a.view_attrs()),
            Err(e) => parse_attrs_spec(metas@) == Err::<AttrsView, Seq<char>>(e.message@),
        },
{
    let mut a = ModuleAttrs {
        path: None,
        scope: None,
        route_handler: None,
        enable: None,
        public_routes: None,
        initialize_handler: None,
    };
    let mut i: usize = 0;
    while i < metas.len()
        invariant
            i <= metas@.len(),
            parse_attrs_spec(metas@.take(i as int)) == Ok::<AttrsView, Seq<char>>(a.view_attrs()),
        decreases metas@.len() - i,
    {
        proof {
            assert(metas@.take(i + 1).drop_last() =~= metas@.take(i as int));
            assert(metas@.take(i + 1).last() == metas@[i as int]);
        }
        let m = &metas[i];
        let key = meta_key_of(m);
        let mut failure: Option<AttrError> = None;
        if key_is(key, "path") {
            match string_value(m, "expected string literal for path", "expected path = \"...\"") {
                Ok(s) => a.path = Some(s),
                Err(e) => failure = Some(e),
            }
        } else if key_is(key, "scope") {
            match string_value(m, "expected string literal for scope", "expected scope = \"...\"") {
                Ok(s) => a.scope = Some(s),
                Err(e) => failure = Some(e),
            }
        } else if key_is(key, "route_handler") {
            match string_value(
                m,
                "expected string literal for route_handler",
                "expected route_handler = \"fn_name\"",
            ) {
                Ok(s) => a.route_handler = Some(s),
                Err(e) => failure = Some(e),
            }
        } else if key_is(key, "enable") {
            match &m.value {
                Some(value) => match value {
                    AttrValue::Bool(b) => a.enable = Some(*b),
                    _ => failure = Some(err("expected boolean literal for enable")),
                },
                None => failure = Some(err("expected enable = true/false")),
            }
        } else if key_is(key, "public_routes") {
            match &m.value {
                Some(value) => match value {
                    AttrValue::Array(v) => a.public_routes = Some(route_elems(v)),
                    _ => failure = Some(err("expected array literal for public_routes")),
                },
                None => failure = Some(err("expected public_routes = [...]")),
            }
        } else if key_is(key, "initialize_handler") {
            match string_value(
                m,
                "expected string literal for initialize_handler",
                "expected initialize_handler = \"fn_name\"",
            ) {
                Ok(s) => a.initialize_handler = Some(s),
                Err(e) => failure = Some(e),
            }
        }
        if let Some(e) = failure {
            proof {
                lemma_error_propagates(metas@, i + 1);
            }
            return Err(e);
        }
        i = i + 1;
    }
    assert(metas@.take(metas@.len() as int) =~= metas@);
    Ok(a)
}

} // verus!

verus! {

/// The string literals among array elements, in order.
pub open spec fn string_elems(s: Seq<Option<Seq<char>>>) -> Seq<Seq<char>>
    decreases s.len(),
{
    if s.len() == 0 {
        Seq::empty()
    } else {
        let init = string_elems(s.drop_last());
        match s.last() {
            Some(t) => init.push(t),
            None => init,
        }
    }
}

/// What a module's registration takes from its attribute.
#[derive(Debug, Clone)]
pub struct ModuleSpec {
    /// The module's name: the name of its struct.
    pub name: String,
    /// Whether the module is discovered; modules are on unless `enable = false`.
    pub enabled: bool,
    /// The route prefix: `path`, else `scope`.
    pub prefix: Option<String>,
    /// The routes that need no authentication: the string literals of
    /// `public_routes`, each once, in the order of their first mention.
    pub public_routes: Vec<String>,
    /// The function that registers the module's routes; without one the
    /// module registers none.
    pub route_handler: Option<String>,
    /// The function that initialises the module; without one it does nothing.
    pub initialize_handler: Option<String>,
}

fn clone_opt(o: &Option<String>) -> (r: Option<String>)
    ensures
        opt_view(r) == opt_view(*o),
{
    match o {
        Some(s) => Some(s.clone()),
        None => None,
    }
}

/// The registration of the module struct `struct_name` with attribute
/// settings `attrs`.
pub fn module_spec(struct_name: &str, attrs: &ModuleAttrs) -> (m: ModuleSpec)
    ensures
        m.name@ == struct_name@,
        m.enabled == match attrs.enable {
            Some(b) => b,
            None => true,
        },
        opt_view(m.prefix) == match attrs.path {
            Some(p) => Some(p@),
            None => opt_view(attrs.scope),
        },
        views(m.public_routes@) == first_mentions(
            match attrs.public_routes {
                Some(v) => string_elems(v@.map_values(|e: AttrValue| elem_view(e))),
                None => Seq::empty(),
            },
        ),
        views(m.public_routes@).no_duplicates(),
        views(m.public_routes@).to_set() == match attrs.public_routes {
            Some(v) => string_elems(v@.map_values(|e: AttrValue| elem_view(e))).to_set(),
            None => Set::empty(),
        },
        opt_view(m.route_handler) == opt_view(attrs.route_handler),
        opt_view(m.initialize_handler) == opt_view(attrs.initialize_handler),
{
    let prefix = match &attrs.path {
        Some(p) => Some(p.clone()),
        None => clone_opt(&attrs.scope),
    };
    let mut routes: Vec<String> = Vec::new();
    match &attrs.public_routes {
        None => {
            assert(views(routes@) =~= Seq::empty());
            assert(views(routes@).to_set() =~= Set::empty());
        },
        Some(v) => {
            let ghost ev = v@.map_values(|e: AttrValue| elem_view(e));
            let mut i: usize = 0;
            while i < v.len()
                invariant
                    i <= v@.len(),
                    ev == v@.map_values(|e: AttrValue| elem_view(e)),
                    views(routes@) == first_mentions(string_elems(ev.take(i as int))),
                decreases v@.len() - i,
            {
                proof {
                    assert(ev.take(i + 1).drop_last() =~= ev.take(i as int));
                    assert(ev.take(i + 1).last() == elem_view(v@[i as int]));
                }
                let ghost before = views(routes@);
                match &v[i] {
                    AttrValue::Str(s) => {
                        let ghost prior = string_elems(ev.take(i as int));
                        assert(string_elems(ev.take(i + 1)) == prior.push(s@));
                        assert(prior.push(s@).drop_last() =~= prior);
                        if !contains_str(&routes, s.as_str()) {
                            routes.push(s.clone());
                            assert(views(routes@) =~= before.push(s@));
                        }
                    },
                    _ => {},
                }
                i = i + 1;
            }
            assert(ev.take(v@.len() as int) =~= ev);
            proof {
                lemma_first_mentions(string_elems(ev));
            }
        },
    }
    ModuleSpec {
        name: struct_name.to_string(),
        enabled: match attrs.enable {
            Some(b) => b,
            None => true,
        },
        prefix,
        public_routes: routes,
        route_handler: clone_opt(&attrs.route_handler),
        initialize_handler: clone_opt(&attrs.initialize_handler),
    }
}

} // verus!
