//! Serving embedded static files: the status and content type of the
//! reply for a requested path.

use vstd::prelude::*;

verus! {

/// The MIME type `mime_guess` gives for a path, by its extension
/// (`application/octet-stream` for an unknown one).
pub uninterp spec fn mime_type_for_path(path: Seq<char>) -> Seq<char>;

/// `mime_guess::from_path(path).first_or_octet_stream()`, as text.
#[verifier::external_body]
fn guess_mime(path: &str) -> (r: String)
    ensures
        r@ == mime_type_for_path(path@),
{
    mime_guess::from_path(path).first_or_octet_stream().to_string()
}

/// The status and content type of a static file reply.
#[derive(Debug, Clone)]
pub struct StaticReply {
    pub status: u16,
    pub content_type: Option<String>,
}

/// The reply once it is known whether the file exists and, if it does,
/// its MIME type: 200 with that type, or 404 with none.
pub fn static_reply_with(found: bool, mime: Option<String>) -> (r: StaticReply)
    requires
        found ==> mime is Some,
    ensures
        found ==> r.status == 200 && (r.content_type matches Some(t) && t@ == mime->0@),
        !found ==> r.status == 404 && r.content_type is None,
{
    if found {
        match mime {
            Some(m) => StaticReply { status: 200, content_type: Some(m) },
            None => StaticReply { status: 404, content_type: None },
        }
    } else {
        StaticReply { status: 404, content_type: None }
    }
}

/// The reply for the file at `path`, given whether it is embedded: 200 with
/// the type its extension names, or 404.
pub fn static_reply(path: &str, found: bool) -> (r: StaticReply)
    ensures
        found ==> r.status == 200 && (r.content_type matches Some(t) && t@ == mime_type_for_path(path@)),
        !found ==> r.status == 404 && r.content_type is None,
{
    if found {
        static_reply_with(true, Some(guess_mime(path)))
    } else {
        static_reply_with(false, None)
    }
}

} // verus!
