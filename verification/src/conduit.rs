//! The template layer's decisions: template names without their `.tera`
//! extension, and the debounce that coalesces file changes into template
//! reloads while hot-reloading.

use vstd::prelude::*;
use crate::text::ends_with;
use vstd::utf8::{decode_utf8, valid_utf8};

verus! {

/// The file name of template `name`: `name` itself when it ends in
/// `.tera`, otherwise `name` with `.tera` appended.
pub open spec fn template_file_spec(name: Seq<char>) -> Seq<char> {
    let ext = ".tera"@;
    if ext.len() <= name.len() && name.skip(name.len() - ext.len()) == ext {
        name
    } else {
        name + ext
    }
}

/// The file name of a template that callers request by `name`, so that
/// `"auth/login"` finds `auth/login.tera`.
pub fn template_file_name(name: &str) -> (r: String)
    ensures
        r@ == template_file_spec(name@),
{
    if ends_with(name, ".tera") {
        name.to_string()
    } else {
        let mut r = name.to_string();
        r.append(".tera");
        r
    }
}

/// `std::str::from_utf8`, copied into a `String`: the text that the bytes
/// encode when they are valid UTF-8, and nothing otherwise.
#[verifier::external_body]
fn utf8_text(bytes: &[u8]) -> (r: Option<String>)
    ensures
        r is Some <==> valid_utf8(bytes@),
        r matches Some(t) ==> t@ == decode_utf8(bytes@),
{
    std::str::from_utf8(bytes).ok().map(|t| t.to_string())
}

/// Template file `f` was loaded as `t`: its bytes are valid UTF-8, and `t`
/// holds its name and the text they encode.
pub open spec fn loaded_as(f: (String, Vec<u8>), t: (String, String)) -> bool {
    &&& valid_utf8(f.1@)
    &&& t.0@ == f.0@
    &&& t.1@ == decode_utf8(f.1@)
}

/// The texts of the embedded template files, each under its file name; or
/// the position of the first file that is not valid UTF-8, which stops the
/// loading.
pub fn template_texts(files: &Vec<(String, Vec<u8>)>) -> (r: Result<Vec<(String, String)>, usize>)
    ensures
        match r {
            Ok(v) => {
                &&& v@.len() == files@.len()
                &&& forall|i: int| 0 <= i < v@.len() ==> loaded_as(files@[i], #[trigger] v@[i])
            },
            Err(k) => {
                &&& k < files@.len()
                &&& !valid_utf8(files@[k as int].1@)
                &&& forall|i: int| 0 <= i < k ==> valid_utf8(#[trigger] files@[i].1@)
            },
        },
{
    let mut v: Vec<(String, String)> = Vec::new();
    let mut i: usize = 0;
    while i < files.len()
        invariant
            i <= files@.len(),
            v@.len() == i,
            forall|j: int| 0 <= j < i ==> loaded_as(files@[j], #[trigger] v@[j]),
        decreases files@.len() - i,
    {
        match utf8_text(files[i].1.as_slice()) {
            Some(t) => {
                let ghost before = v@;
                let name = files[i].0.clone();
                v.push((name, t));
                assert forall|j: int| 0 <= j < i + 1 implies loaded_as(files@[j], #[trigger] v@[j]) by {
                    if j < i {
                        assert(v@[j] == before[j]);
                    }
                }
            },
            None => {
                assert forall|j: int| 0 <= j < i implies valid_utf8(#[trigger] files@[j].1@) by {
                    assert(loaded_as(files@[j], v@[j]));
                }
                return Err(i);
            },
        }
        i = i + 1;
    }
    Ok(v)
}

/// A change the template watcher reports.
#[derive(Debug, Clone, Copy, PartialEq, Eq, Structural)]
pub enum WatchEvent {
    /// A template file was modified.
    Modified,
    /// Some other change (a file created, removed or read).
    Other,
    /// The watcher reported an error.
    Error,
}

/// What the watcher task does on a change.
#[derive(Debug, Clone, Copy, PartialEq, Eq, Structural)]
pub enum WatchAction {
    /// Start a delayed full reload of the templates.
    StartReload,
    /// Report the watcher's error.
    ReportError,
    /// Nothing.
    Ignore,
}

/// The watcher's step on a change, given whether a reload is pending: a
/// modification starts a reload unless one is pending (modifications that
/// arrive meanwhile are coalesced into it), an error is reported, and
/// other changes are ignored. The result is the new pending flag and the
/// action. So at most one reload is in flight: while one is pending no
/// change starts another, and the flag stays set.
pub fn on_watch_event(reload_pending: bool, event: WatchEvent) -> (r: (bool, WatchAction))
    ensures
        r.1 == WatchAction::StartReload <==> (event == WatchEvent::Modified && !reload_pending),
        r.1 == WatchAction::ReportError <==> event == WatchEvent::Error,
        r.0 == (reload_pending || r.1 == WatchAction::StartReload),
        r.1 == WatchAction::Ignore <==> (event == WatchEvent::Other || (event == WatchEvent::Modified
            && reload_pending)),
        reload_pending ==> r.0 && r.1 != WatchAction::StartReload,
{
    match event {
        WatchEvent::Modified => {
            if reload_pending {
                (true, WatchAction::Ignore)
            } else {
                (true, WatchAction::StartReload)
            }
        },
        WatchEvent::Error => (reload_pending, WatchAction::ReportError),
        WatchEvent::Other => (reload_pending, WatchAction::Ignore),
    }
}

/// The pending flag after looking at the reload task: a finished reload is
/// no longer pending.
pub fn after_reload_check(reload_pending: bool, reload_finished: bool) -> (r: bool)
    ensures
        r == (reload_pending && !reload_finished),
{
    reload_pending && !reload_finished
}

} // verus!
