//! The ingestion API: routing of requests and the protocol of a stream.

use http::Uri;
use vstd::prelude::*;

pub mod ingestion_svc;

verus! {

/// The base prefix that is stripped before dispatching to the Connect service.
pub const INGEST_BASE: &'static str = "/restate";

/// The ingress-mounted path prefix under which the Connect service is served.
///
/// Clients use the base URL `.../restate`; Connect appends the canonical RPC
/// path, yielding `/restate/restate.ingestion.IngestionSvc/Ingest`. The server
/// strips the leading `/restate` before handing the request to the Connect service.
pub const INGEST_MOUNT_PREFIX: &'static str = "/restate/restate.ingestion.IngestionSvc/";

/// `http::Uri`.
#[verifier::external_type_specification]
#[verifier::external_body]
pub struct ExUri(Uri);

/// The path of `uri`, as `http::Uri::path` reports it.
pub uninterp spec fn uri_path(uri: Uri) -> Seq<char>;

/// The path and query of `uri`, as `http::Uri::path_and_query` reports it.
pub uninterp spec fn uri_path_and_query(uri: Uri) -> Option<Seq<char>>;

/// `uri` with another path and query and everything else unchanged, if that is a valid URI: what
/// `http::Uri::from_parts` makes of the parts of `uri` once `path_and_query` has been parsed and
/// put among them.
pub uninterp spec fn uri_with_path_and_query(uri: Uri, path_and_query: Seq<char>) -> Option<Uri>;

/// `http::Uri::path`. A path of more than one character is what the path and query begins with;
/// a path of `/` may stand for an empty one.
pub assume_specification[ Uri::path ](uri: &Uri) -> (path: &str)
    ensures
        path@ == uri_path(*uri),
        path@.len() > 1 ==> (uri_path_and_query(*uri) matches Some(text) && path@.is_prefix_of(
            text,
        )),
;

/// `http::Uri::path_and_query`, as text.
#[verifier::external_body]
fn path_and_query(uri: &Uri) -> (text: Option<&str>)
    ensures
        match text {
            Some(text) => uri_path_and_query(*uri) == Some(text@),
            None => uri_path_and_query(*uri) is None,
        },
{
    uri.path_and_query().map(|path_and_query| path_and_query.as_str())
}

/// `tail` is what remains of the path and query `text` after cutting off the front of its path in
/// front of a slash.
pub open spec fn is_path_tail(text: Seq<char>, tail: Seq<char>) -> bool {
    &&& tail.len() > 0
    &&& tail[0] == '/'
    &&& tail.is_suffix_of(text)
    &&& !text.take(text.len() - tail.len()).contains('?')
}

/// `http::Uri::from_parts` on the parts of `uri` with `text`, parsed as an
/// `http::uri::PathAndQuery`, in place of the path and query.
///
/// What remains of a valid path and query after cutting off the front of its path in front of a
/// slash is valid, too, and the parser keeps it as it is.
#[verifier::external_body]
fn with_path_and_query(uri: &Uri, text: &str) -> (rebuilt: Option<Uri>)
    ensures
        rebuilt == uri_with_path_and_query(*uri, text@),
        uri_path_and_query(*uri) matches Some(whole) && is_path_tail(whole, text@) ==> (
        rebuilt matches Some(rebuilt) && uri_path_and_query(rebuilt) == Some(text@)),
{
    let mut parts = uri.clone().into_parts();
    parts.path_and_query = Some(text.parse().ok()?);
    Uri::from_parts(parts).ok()
}

/// `str::starts_with`.
#[verifier::external_body]
fn starts_with(text: &str, prefix: &str) -> (starts: bool)
    ensures
        starts == prefix@.is_prefix_of(text@),
{
    text.starts_with(prefix)
}

/// Where a request goes.
pub enum Route {
    /// To the Connect service, under the rewritten URI.
    Connect(Uri),
    /// To the main service, as it is.
    Main,
}

/// Whether requests for `path` go to the Connect service.
pub fn is_ingest_path(path: &str) -> (ingest: bool)
    ensures
        ingest == INGEST_MOUNT_PREFIX@.is_prefix_of(path@),
{
    starts_with(path, INGEST_MOUNT_PREFIX)
}

/// What remains of a path and query behind [`INGEST_BASE`].
pub fn strip_base(path_and_query: &str) -> (stripped: &str)
    requires
        INGEST_BASE@.is_prefix_of(path_and_query@),
    ensures
        INGEST_BASE@ + stripped@ == path_and_query@,
{
    proof {
        reveal_strlit("/restate");
    }
    let end = path_and_query.unicode_len();
    let stripped = path_and_query.substring_char(INGEST_BASE.unicode_len(), end);
    assert(INGEST_BASE@ + stripped@ =~= path_and_query@);
    stripped
}

/// The mount prefix is the base followed by the canonical path of the service.
proof fn lemma_mount_prefix()
    ensures
        INGEST_MOUNT_PREFIX@ == INGEST_BASE@ + "/restate.ingestion.IngestionSvc/"@,
        INGEST_MOUNT_PREFIX@.len() > 1,
        !INGEST_BASE@.contains('?'),
        "/restate.ingestion.IngestionSvc/"@[0] == '/',
        "/restate.ingestion.IngestionSvc/"@.len() > 0,
{
    reveal_strlit("/restate");
    reveal_strlit("/restate/restate.ingestion.IngestionSvc/");
    reveal_strlit("/restate.ingestion.IngestionSvc/");
    assert(INGEST_MOUNT_PREFIX@ =~= INGEST_BASE@ + "/restate.ingestion.IngestionSvc/"@);
}

/// Stripping the base off a mounted path leaves a path that starts with the canonical path of the
/// service.
pub proof fn law_stripped_path_is_canonical(mounted: Seq<char>, stripped: Seq<char>)
    requires
        INGEST_MOUNT_PREFIX@.is_prefix_of(mounted),
        INGEST_BASE@ + stripped == mounted,
    ensures
        "/restate.ingestion.IngestionSvc/"@.is_prefix_of(stripped),
{
    lemma_mount_prefix();
    let canonical = "/restate.ingestion.IngestionSvc/"@;
    let base = INGEST_BASE@;
    assert forall|i: int| 0 <= i < canonical.len() implies canonical[i] == stripped[i] by {
        assert(INGEST_MOUNT_PREFIX@[base.len() + i] == mounted[base.len() + i]);
        assert((base + canonical)[base.len() + i] == canonical[i]);
        assert((base + stripped)[base.len() + i] == stripped[i]);
    }
    assert(stripped.subrange(0, canonical.len() as int) =~= canonical);
}

/// `rewritten` is `uri` without the leading [`INGEST_BASE`].
pub open spec fn is_stripped(uri: Uri, rewritten: Uri) -> bool {
    &&& uri_path_and_query(uri) matches Some(whole)
    &&& uri_path_and_query(rewritten) matches Some(stripped)
    &&& INGEST_BASE@ + stripped == whole
    &&& uri_with_path_and_query(uri, stripped) == Some(rewritten)
}

/// Putting the base back in front of a rewritten URI gives the path and query of the request, so
/// two requests are rewritten to the same path and query only if they had the same one.
pub proof fn law_rewriting_loses_nothing(uris: (Uri, Uri), rewritten: (Uri, Uri))
    requires
        is_stripped(uris.0, rewritten.0),
        is_stripped(uris.1, rewritten.1),
    ensures
        uri_path_and_query(rewritten.0) is Some,
        uri_path_and_query(uris.0) == Some(INGEST_BASE@ + uri_path_and_query(rewritten.0)->0),
        uri_path_and_query(rewritten.0) == uri_path_and_query(rewritten.1) <==> uri_path_and_query(
            uris.0,
        ) == uri_path_and_query(uris.1),
{
    let (one, other) = (uri_path_and_query(rewritten.0)->0, uri_path_and_query(rewritten.1)->0);
    let base = INGEST_BASE@;
    assert((base + one).skip(base.len() as int) =~= one);
    assert((base + other).skip(base.len() as int) =~= other);
}

/// Strip the leading `/restate` base so the remaining path matches the Connect
/// canonical `/restate.ingestion.IngestionSvc/Ingest`.
fn strip_base_prefix(uri: &Uri) -> (rewritten: Uri)
    requires
        uri_path_and_query(*uri) matches Some(whole) && INGEST_MOUNT_PREFIX@.is_prefix_of(whole),
    ensures
        is_stripped(*uri, rewritten),
{
    let whole = path_and_query(uri).unwrap();
    proof {
        lemma_mount_prefix();
        assert(INGEST_BASE@.is_prefix_of(whole@)) by {
            assert(whole@.subrange(0, INGEST_BASE@.len() as int)
                =~= INGEST_MOUNT_PREFIX@.subrange(0, INGEST_BASE@.len() as int));
        }
    }
    let stripped = strip_base(whole);
    proof {
        law_stripped_path_is_canonical(whole@, stripped@);
        assert(whole@.take(whole@.len() - stripped@.len()) =~= INGEST_BASE@);
        assert(is_path_tail(whole@, stripped@));
    }
    with_path_and_query(uri, stripped).unwrap()
}

/// Decides where a request for `uri` goes.
pub fn route(uri: &Uri) -> (route: Route)
    ensures
        match route {
            Route::Connect(rewritten) => {
                &&& INGEST_MOUNT_PREFIX@.is_prefix_of(uri_path(*uri))
                &&& is_stripped(*uri, rewritten)
            },
            Route::Main => !INGEST_MOUNT_PREFIX@.is_prefix_of(uri_path(*uri)),
        },
{
    let path = uri.path();
    if is_ingest_path(path) {
        proof {
            lemma_mount_prefix();
            let whole = uri_path_and_query(*uri)->0;
            assert(whole.subrange(0, INGEST_MOUNT_PREFIX@.len() as int)
                =~= path@.subrange(0, INGEST_MOUNT_PREFIX@.len() as int));
        }
        Route::Connect(strip_base_prefix(uri))
    } else {
        Route::Main
    }
}

} // verus!
