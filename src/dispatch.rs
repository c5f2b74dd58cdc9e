//! The per-request decisions of the gateway: what a route is guarded by, whether the rank
//! suffices, how a file path resolves, and which status each outcome is answered with.

use crate::policy::{RankTarget, EDIT_RANK, GRAPH_ACTION, UPLOAD_ACTION, VIEW_RANK};
use crate::proxy::{required_rank_for_path, required_rank_of};
use crate::query::label_views;
use crate::text::{chars_of, push_char};
use vstd::prelude::*;

verus! {

/// How a refusal is shaped: the upload pages send the client to log in; every other route
/// (files, resources, pass-through) answers 403.
#[derive(Debug, Clone, Copy, PartialEq, Eq, Structural)]
pub enum Surface {
    Browse,
    Api,
}

/// The operations of the gateway.
pub enum Route {
    /// A listing or a file, by the labels of its path.
    Files(Vec<String>),
    /// The upload form.
    UploadPage,
    /// A multipart upload.
    Upload,
    /// The bytes of a resource, by identifier.
    ReadResource(String),
    /// New bytes for a resource, by identifier.
    ReplaceResource(String),
    /// New resources from a multipart body.
    CreateResource,
    /// Anything else, forwarded to the store; by path.
    PassThrough(String),
}

/// What guards a route: the target the rank is computed on, the rank needed, and the
/// surface the refusal is shaped for.
pub struct Requirement {
    pub target: RankTarget,
    pub required: i32,
    pub surface: Surface,
}

/// Guards of each route: paths and resources by themselves (and so by every container above
/// them), uploads and creation by the upload action, pass-through by the graph action; view
/// rank to read, edit rank to write.
pub open spec fn requirement_matches(route: Route, r: Requirement) -> bool {
    match route {
        Route::Files(labels) => r.target == RankTarget::Path(labels) && r.required == VIEW_RANK
            && r.surface == Surface::Api,
        Route::UploadPage => r.target == RankTarget::Action(r.target->Action_0) && r.target->Action_0@
            == UPLOAD_ACTION@ && r.required == EDIT_RANK && r.surface == Surface::Browse,
        Route::Upload => r.target == RankTarget::Action(r.target->Action_0) && r.target->Action_0@
            == UPLOAD_ACTION@ && r.required == EDIT_RANK && r.surface == Surface::Browse,
        Route::ReadResource(id) => r.target == RankTarget::Resource(id) && r.required == VIEW_RANK
            && r.surface == Surface::Api,
        Route::ReplaceResource(id) => r.target == RankTarget::Resource(id) && r.required == EDIT_RANK
            && r.surface == Surface::Api,
        Route::CreateResource => r.target == RankTarget::Action(r.target->Action_0) && r.target->Action_0@
            == UPLOAD_ACTION@ && r.required == EDIT_RANK && r.surface == Surface::Api,
        Route::PassThrough(path) => r.target == RankTarget::Action(r.target->Action_0)
            && r.target->Action_0@ == GRAPH_ACTION@ && r.required == required_rank_of(path@)
            && r.surface == Surface::Api,
    }
}

/// What guards a route.
pub fn requirement_of(route: Route) -> (r: Requirement)
    ensures
        requirement_matches(route, r),
{
    match route {
        Route::Files(labels) => Requirement {
            target: RankTarget::Path(labels),
            required: VIEW_RANK,
            surface: Surface::Api,
        },
        Route::UploadPage => Requirement {
            target: RankTarget::Action(String::from_str(UPLOAD_ACTION)),
            required: EDIT_RANK,
            surface: Surface::Browse,
        },
        Route::Upload => Requirement {
            target: RankTarget::Action(String::from_str(UPLOAD_ACTION)),
            required: EDIT_RANK,
            surface: Surface::Browse,
        },
        Route::ReadResource(id) => Requirement {
            target: RankTarget::Resource(id),
            required: VIEW_RANK,
            surface: Surface::Api,
        },
        Route::ReplaceResource(id) => Requirement {
            target: RankTarget::Resource(id),
            required: EDIT_RANK,
            surface: Surface::Api,
        },
        Route::CreateResource => Requirement {
            target: RankTarget::Action(String::from_str(UPLOAD_ACTION)),
            required: EDIT_RANK,
            surface: Surface::Api,
        },
        Route::PassThrough(path) => {
            let required = required_rank_for_path(path.as_str());
            Requirement {
                target: RankTarget::Action(String::from_str(GRAPH_ACTION)),
                required,
                surface: Surface::Api,
            }
        },
    }
}

/// Whether the operation may run.
#[derive(Debug, Clone, Copy, PartialEq, Eq, Structural)]
pub enum Access {
    Proceed,
    /// Refused on the programmatic interface.
    Forbidden,
    /// Refused on the browsing pages: the client is sent to the login page.
    RedirectToLogin,
}

/// The operation runs exactly when the rank reaches the required rank; otherwise the
/// refusal takes the surface's shape, and no operation component is invoked.
pub fn access_decision(rank: i32, required: i32, surface: Surface) -> (r: Access)
    ensures
        (r == Access::Proceed) == (rank >= required),
        rank < required && surface == Surface::Browse ==> r == Access::RedirectToLogin,
        rank < required && surface == Surface::Api ==> r == Access::Forbidden,
{
    if rank >= required {
        Access::Proceed
    } else {
        match surface {
            Surface::Browse => Access::RedirectToLogin,
            Surface::Api => Access::Forbidden,
        }
    }
}

// ---------------------------------------------------------------------------------------------
// Outcomes
// ---------------------------------------------------------------------------------------------

/// The terminal outcomes of a request.
#[derive(Debug, Clone, Copy, PartialEq, Eq, Structural)]
pub enum Outcome {
    Done,
    RedirectToLogin,
    BadRequest,
    Forbidden,
    NotFound,
    PayloadTooLarge,
    InternalError,
    UpstreamUnreachable,
}

/// The status an outcome is answered with.
pub open spec fn status_of(o: Outcome) -> u16 {
    match o {
        Outcome::Done => 200,
        Outcome::RedirectToLogin => 303,
        Outcome::BadRequest => 400,
        Outcome::Forbidden => 403,
        Outcome::NotFound => 404,
        Outcome::PayloadTooLarge => 413,
        Outcome::InternalError => 500,
        Outcome::UpstreamUnreachable => 502,
    }
}

/// The status an outcome is answered with.
pub fn status_code(o: Outcome) -> (r: u16)
    ensures
        r == status_of(o),
{
    match o {
        Outcome::Done => 200,
        Outcome::RedirectToLogin => 303,
        Outcome::BadRequest => 400,
        Outcome::Forbidden => 403,
        Outcome::NotFound => 404,
        Outcome::PayloadTooLarge => 413,
        Outcome::InternalError => 500,
        Outcome::UpstreamUnreachable => 502,
    }
}

/// The outcome of a refusal.
pub fn refusal_outcome(a: Access) -> (r: Option<Outcome>)
    ensures
        a == Access::Proceed ==> r is None,
        a == Access::Forbidden ==> r == Some(Outcome::Forbidden),
        a == Access::RedirectToLogin ==> r == Some(Outcome::RedirectToLogin),
{
    match a {
        Access::Proceed => None,
        Access::Forbidden => Some(Outcome::Forbidden),
        Access::RedirectToLogin => Some(Outcome::RedirectToLogin),
    }
}

/// The outcome of looking a blob name up: `None` where the store failed (an internal
/// error), `Some(None)` where nothing resolves (not found), and a name to serve otherwise.
pub fn lookup_outcome(found: &Option<Option<String>>) -> (r: Outcome)
    ensures
        found is None ==> r == Outcome::InternalError,
        found is Some && found->0 is None ==> r == Outcome::NotFound,
        found is Some && found->0 is Some ==> r == Outcome::Done,
{
    match found {
        None => Outcome::InternalError,
        Some(None) => Outcome::NotFound,
        Some(Some(_)) => Outcome::Done,
    }
}

/// The outcome of reading a blob whose record exists: a missing blob is the server's
/// inconsistency, never the client's fault.
pub fn blob_read_outcome(read_ok: bool) -> (r: Outcome)
    ensures
        r == (if read_ok {
            Outcome::Done
        } else {
            Outcome::InternalError
        }),
{
    if read_ok {
        Outcome::Done
    } else {
        Outcome::InternalError
    }
}

// ---------------------------------------------------------------------------------------------
// File paths
// ---------------------------------------------------------------------------------------------

/// The segments found after the first `n` characters of `s`, and the segment being read.
pub open spec fn split_state(s: Seq<char>, n: int) -> (Seq<Seq<char>>, Seq<char>)
    decreases n,
{
    if n <= 0 {
        (Seq::empty(), Seq::empty())
    } else {
        let (done, cur) = split_state(s, n - 1);
        if s[n - 1] == '/' {
            (if cur.len() > 0 {
                done.push(cur)
            } else {
                done
            }, Seq::empty())
        } else {
            (done, cur.push(s[n - 1]))
        }
    }
}

/// The non-empty slash-separated segments of a path, in order.
pub open spec fn path_segments(s: Seq<char>) -> Seq<Seq<char>> {
    let (done, cur) = split_state(s, s.len() as int);
    if cur.len() > 0 {
        done.push(cur)
    } else {
        done
    }
}

/// The labels of a path: its non-empty slash-separated segments.
pub fn split_path(path: &str) -> (r: Vec<String>)
    ensures
        label_views(r@) == path_segments(path@),
{
    let v = chars_of(path);
    let mut done: Vec<String> = Vec::new();
    let mut cur = String::new();
    let mut i: usize = 0;
    while i < v.len()
        invariant
            i <= v@.len(),
            v@ == path@,
            label_views(done@) == split_state(v@, i as int).0,
            cur@ == split_state(v@, i as int).1,
        decreases v@.len() - i,
    {
        if v[i] == '/' {
            if cur.unicode_len() > 0 {
                done.push(cur);
                assert(label_views(done@) =~= label_views(done@.drop_last()).push(done@.last()@));
            }
            cur = String::new();
        } else {
            push_char(&mut cur, v[i]);
        }
        i = i + 1;
    }
    if cur.unicode_len() > 0 {
        done.push(cur);
        assert(label_views(done@) =~= label_views(done@.drop_last()).push(done@.last()@));
    }
    done
}

/// How a file path is served.
pub enum FileRoute {
    /// The path names a container: list it.
    ListContainer,
    /// The empty path that the store does not know as a container: an empty listing.
    ListEmptyRoot,
    /// Look a file up: the last label inside the container reached along the others.
    LookupFile { dirs: Vec<String>, name: String },
}

/// How a file path with labels `parts` is served, given whether the store says it names a
/// container (a failed answer counting as no).
pub fn file_route(parts: &[String], is_container: bool) -> (r: FileRoute)
    ensures
        is_container ==> r is ListContainer,
        !is_container && parts@.len() == 0 ==> r is ListEmptyRoot,
        !is_container && parts@.len() > 0 ==> r is LookupFile && label_views(r->dirs@) == label_views(
            parts@,
        ).drop_last() && r->name@ == parts@.last()@,
{
    if is_container {
        return FileRoute::ListContainer;
    }
    if parts.len() == 0 {
        return FileRoute::ListEmptyRoot;
    }
    let n = parts.len() - 1;
    let mut dirs: Vec<String> = Vec::new();
    let mut i: usize = 0;
    while i < n
        invariant
            i <= n,
            n == parts@.len() - 1,
            dirs@.len() == i,
            forall|k: int| 0 <= k < i ==> (#[trigger] dirs@[k])@ == parts@[k]@,
        decreases n - i,
    {
        let label = parts[i].clone();
        dirs.push(label);
        i = i + 1;
    }
    assert(label_views(dirs@) =~= label_views(parts@).drop_last());
    FileRoute::LookupFile { dirs, name: parts[n].clone() }
}

} // verus!

verus! {

/// Where one request stands; each request runs this machine once, from `Unauthenticated`.
#[derive(Debug, Clone, Copy, PartialEq, Eq, Structural)]
pub enum Phase {
    Unauthenticated,
    /// The rank is known, with what the route needs and the surface it came from.
    RankChecked { rank: i32, required: i32, surface: Surface },
    /// The operation component runs.
    Dispatched,
    /// The request is answered.
    Responded(Outcome),
}

/// What moves a request on.
#[derive(Debug, Clone, Copy, PartialEq, Eq, Structural)]
pub enum Event {
    /// Authentication and rank resolution are done.
    RankResolved { rank: i32, required: i32, surface: Surface },
    /// The rank is compared with the requirement.
    Compared,
    /// The operation component finished with this outcome.
    Finished(Outcome),
}

/// The next phase. A rank below the requirement answers with the surface's refusal and
/// never reaches `Dispatched`; an operation's outcome is the answer; an event that does not
/// fit the phase leaves it unchanged.
pub open spec fn next_phase(p: Phase, e: Event) -> Phase {
    match (p, e) {
        (Phase::Unauthenticated, Event::RankResolved { rank, required, surface }) => Phase::RankChecked {
            rank,
            required,
            surface,
        },
        (Phase::RankChecked { rank, required, surface }, Event::Compared) => if rank >= required {
            Phase::Dispatched
        } else if surface == Surface::Browse {
            Phase::Responded(Outcome::RedirectToLogin)
        } else {
            Phase::Responded(Outcome::Forbidden)
        },
        (Phase::Dispatched, Event::Finished(o)) => Phase::Responded(o),
        _ => p,
    }
}

/// The next phase of a request.
pub fn step(p: Phase, e: Event) -> (r: Phase)
    ensures
        r == next_phase(p, e),
{
    match (p, e) {
        (Phase::Unauthenticated, Event::RankResolved { rank, required, surface }) => Phase::RankChecked {
            rank,
            required,
            surface,
        },
        (Phase::RankChecked { rank, required, surface }, Event::Compared) => {
            match refusal_outcome(access_decision(rank, required, surface)) {
                None => Phase::Dispatched,
                Some(o) => Phase::Responded(o),
            }
        },
        (Phase::Dispatched, Event::Finished(o)) => Phase::Responded(o),
        _ => p,
    }
}

/// A request whose rank is below what its route needs is answered with a refusal and its
/// operation never runs; one whose rank suffices is dispatched.
pub proof fn lemma_refusal_skips_operation(rank: i32, required: i32, surface: Surface)
    ensures
        ({
            let checked = next_phase(
                Phase::Unauthenticated,
                Event::RankResolved { rank, required, surface },
            );
            let after = next_phase(checked, Event::Compared);
            &&& rank < required ==> after != Phase::Dispatched && (after == Phase::Responded(
                Outcome::Forbidden,
            ) || after == Phase::Responded(Outcome::RedirectToLogin))
            &&& rank >= required ==> after == Phase::Dispatched
        }),
{
}

} // verus!
