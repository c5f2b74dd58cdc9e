//! Access-policy resolution: the rank a credential (or none) holds on a resource or on an
//! abstract action, computed from the grants that the store reports.
//!
//! The store is asked for every grant whose target is the resource or a container that
//! reaches it through containment; the gateway then admits, itself, only the public grants
//! and those whose grantee digest equals the presented one, and takes the highest level.
//! A failed or unreadable answer counts as no grant at all.

use crate::json::{binding_value, opt_view, read_ask_answer, read_rows, row_count};
use crate::query::{
    check_resource_id, check_safe_iri, escaped, is_resource_id, is_safe_iri, label_views, push_escaped,
    push_var_before, push_walk, var_before, walk, FILESYSTEM_GRAPH, POLICY_GRAPH, PREFIX_LIQK, PREFIX_POSIX,
    ROOT_PATTERN,
};
use crate::auth::{credential_digest_of, credential_digest};
use crate::text::{all_digits, chars_of, decimal_value, parse_decimal, push_str};
use vstd::prelude::*;

verus! {

/// Rank needed to read.
pub const VIEW_RANK: i32 = 1;

/// Rank needed to write.
pub const EDIT_RANK: i32 = 3;

/// The action that guards the pass-through query endpoints.
pub const GRAPH_ACTION: &'static str = "http://liqk.org/graph";

/// The action that guards the creation of resources.
pub const UPLOAD_ACTION: &'static str = "http://liqk.org/action/upload";

/// The grant kind of a policy that needs no credential.
pub const PUBLIC_KIND: &'static str = "http://liqk.org/schema#Public";

/// The largest level a grant can carry.
pub const MAX_LEVEL: u64 = 2147483647;

/// A grant reported by the store for a target.
pub struct PolicyGrant {
    pub level: i32,
    /// Granted to everyone, with or without a credential.
    pub public: bool,
    /// Digest of the credential it is granted to, where it names one.
    pub grantee_digest: Option<String>,
}

pub struct GrantView {
    pub level: int,
    pub public: bool,
    pub grantee_digest: Option<Seq<char>>,
}

impl View for PolicyGrant {
    type V = GrantView;

    open spec fn view(&self) -> GrantView {
        GrantView { level: self.level as int, public: self.public, grantee_digest: opt_view(self.grantee_digest) }
    }
}

pub open spec fn grant_views(grants: Seq<PolicyGrant>) -> Seq<GrantView> {
    grants.map_values(|g: PolicyGrant| g@)
}

/// A grant counts for a request that presents `digest` (or none): public grants always,
/// others only where their grantee digest equals the presented one.
pub open spec fn admits(g: GrantView, digest: Option<Seq<char>>) -> bool {
    g.public || (digest is Some && g.grantee_digest == Some(digest->0))
}

/// The effective rank: the highest level among the admitted grants, 0 where none is admitted.
pub open spec fn rank_of(grants: Seq<GrantView>, digest: Option<Seq<char>>) -> int
    decreases grants.len(),
{
    if grants.len() == 0 {
        0
    } else {
        let rest = rank_of(grants.drop_last(), digest);
        let g = grants.last();
        if admits(g, digest) && g.level > rest {
            g.level
        } else {
            rest
        }
    }
}

/// The effective rank that `grants` give a request presenting `digest`.
pub fn effective_rank(grants: &[PolicyGrant], digest: &Option<String>) -> (r: i32)
    ensures
        r == rank_of(grant_views(grants@), opt_view(*digest)),
{
    let ghost views = grant_views(grants@);
    let mut best: i32 = 0;
    let mut i: usize = 0;
    while i < grants.len()
        invariant
            i <= grants@.len(),
            views == grant_views(grants@),
            best == rank_of(views.subrange(0, i as int), opt_view(*digest)),
        decreases grants@.len() - i,
    {
        let g = &grants[i];
        let admitted = g.public || match (&g.grantee_digest, digest) {
            (Some(gd), Some(d)) => crate::text::chars_eq(gd.as_str(), d.as_str()),
            _ => false,
        };
        assert(views.subrange(0, i + 1).drop_last() =~= views.subrange(0, i as int));
        if admitted && g.level > best {
            best = g.level;
        }
        i = i + 1;
    }
    assert(views.subrange(0, grants@.len() as int) =~= views);
    best
}

// ---------------------------------------------------------------------------------------------
// Reading grants from the store's answer
// ---------------------------------------------------------------------------------------------

/// The grant that row `i` of a rank document reports: its `level` must be decimal digits
/// not above the largest level; it is public where its `kind` is the public kind, and names
/// the grantee digest bound to `digest`, if any. `None` for a row that cannot be read.
pub open spec fn grant_of_row(doc: Seq<char>, i: int) -> Option<GrantView> {
    match binding_value(doc, i, "level"@) {
        Some(l) => if l.len() > 0 && all_digits(l) && decimal_value(l) <= MAX_LEVEL {
            Some(
                GrantView {
                    level: decimal_value(l) as int,
                    public: binding_value(doc, i, "kind"@) == Some(PUBLIC_KIND@),
                    grantee_digest: binding_value(doc, i, "digest"@),
                },
            )
        } else {
            None
        },
        None => None,
    }
}

/// The grants that the first `n` rows of a rank document report, in row order.
pub open spec fn grants_upto(doc: Seq<char>, n: int) -> Seq<GrantView>
    decreases n,
{
    if n <= 0 {
        Seq::empty()
    } else {
        match grant_of_row(doc, n - 1) {
            Some(g) => grants_upto(doc, n - 1).push(g),
            None => grants_upto(doc, n - 1),
        }
    }
}

/// The grants that a rank document reports.
pub open spec fn grants_of(doc: Seq<char>) -> Seq<GrantView> {
    grants_upto(doc, row_count(doc) as int)
}

/// The grants that a rank document reports; rows that cannot be read are left out.
pub fn grants_from_document(doc: &str) -> (r: Vec<PolicyGrant>)
    ensures
        grant_views(r@) == grants_of(doc@),
{
    let vars: [&str; 3] = ["level", "kind", "digest"];
    let rows = read_rows(doc, vars.as_slice());
    proof {
        reveal_strlit("level");
        reveal_strlit("kind");
        reveal_strlit("digest");
    }
    assert(vars@[0]@ == "level"@);
    assert(vars@[1]@ == "kind"@);
    assert(vars@[2]@ == "digest"@);
    let mut out: Vec<PolicyGrant> = Vec::new();
    let mut i: usize = 0;
    while i < rows.len()
        invariant
            i <= rows@.len(),
            rows@.len() == row_count(doc@),
            vars@[0]@ == "level"@,
            vars@[1]@ == "kind"@,
            vars@[2]@ == "digest"@,
            forall|k: int|
                0 <= k < rows@.len() ==> (#[trigger] rows@[k])@.len() == 3 && forall|j: int|
                    0 <= j < 3 ==> opt_view(#[trigger] rows@[k]@[j]) == binding_value(
                        doc@,
                        k,
                        vars@[j]@,
                    ),
            grant_views(out@) == grants_upto(doc@, i as int),
        decreases rows@.len() - i,
    {
        let row = &rows[i];
        assert(opt_view(row@[0]) == binding_value(doc@, i as int, "level"@));
        assert(opt_view(row@[1]) == binding_value(doc@, i as int, "kind"@));
        assert(opt_view(row@[2]) == binding_value(doc@, i as int, "digest"@));
        match &row[0] {
            Some(level_text) => {
                let l = chars_of(level_text.as_str());
                match parse_decimal(l.as_slice(), MAX_LEVEL) {
                    Some(level) => {
                        let public = match &row[1] {
                            Some(k) => crate::text::chars_eq(k.as_str(), PUBLIC_KIND),
                            None => false,
                        };
                        let digest = match &row[2] {
                            Some(d) => Some(d.clone()),
                            None => None,
                        };
                        let g = PolicyGrant { level: level as i32, public, grantee_digest: digest };
                        out.push(g);
                        assert(grant_views(out@) =~= grant_views(out@.drop_last()).push(g@));
                    },
                    None => {},
                }
            },
            None => {},
        }
        i = i + 1;
    }
    out
}

/// The rank that a rank document gives a request presenting `digest`.
pub open spec fn rank_in_document(doc: Seq<char>, digest: Option<Seq<char>>) -> int {
    rank_of(grants_of(doc), digest)
}

/// The rank from the store's answer to a rank query, `None` where the store could not be
/// reached or answered with a failure: then the rank is 0.
pub fn rank_from_response(response: &Option<String>, digest: &Option<String>) -> (r: i32)
    ensures
        r == match *response {
            Some(doc) => rank_in_document(doc@, opt_view(*digest)),
            None => 0,
        },
{
    match response {
        Some(doc) => {
            let grants = grants_from_document(doc.as_str());
            effective_rank(grants.as_slice(), digest)
        },
        None => 0,
    }
}

// ---------------------------------------------------------------------------------------------
// Rank queries
// ---------------------------------------------------------------------------------------------

/// What a rank is asked for.
pub enum RankTarget {
    /// A resource, by identifier: grants on it and on every container that reaches it.
    Resource(String),
    /// An abstract action, by IRI: grants on it alone.
    Action(String),
    /// The node reached from the root along these labels: grants on it and on every
    /// container that reaches it.
    Path(Vec<String>),
}

pub open spec fn target_ok(t: RankTarget) -> bool {
    match t {
        RankTarget::Resource(id) => is_resource_id(id@),
        RankTarget::Action(iri) => is_safe_iri(iri@),
        RankTarget::Path(_) => true,
    }
}

/// The pattern that ties `?target` to the target.
pub open spec fn target_pattern(t: RankTarget) -> Seq<char> {
    match t {
        RankTarget::Resource(id) => "    GRAPH <"@ + FILESYSTEM_GRAPH@ + "> { ?target posix:includes* <urn:uuid:"@
            + id@ + "> . }\n"@,
        RankTarget::Action(iri) => "    FILTER(?target = <"@ + iri@ + ">)\n"@,
        RankTarget::Path(labels) => "    GRAPH <"@ + FILESYSTEM_GRAPH@ + "> {\n"@ + ROOT_PATTERN@ + walk(
            label_views(labels@),
            false,
        ) + "        ?target posix:includes* "@ + var_before(labels@.len() as int) + " .\n    }\n"@,
    }
}

/// The filter that leaves only the grants a request presenting `digest` may use.
pub open spec fn grant_filter(digest: Option<Seq<char>>) -> Seq<char> {
    match digest {
        Some(d) => "    FILTER(?kind = <"@ + PUBLIC_KIND@ + "> || ?digest = \""@ + escaped(d) + "\")\n"@,
        None => "    FILTER(?kind = <"@ + PUBLIC_KIND@ + ">)\n"@,
    }
}

/// The rank query for `t` and a request presenting `digest`.
pub open spec fn rank_query(t: RankTarget, digest: Option<Seq<char>>) -> Seq<char> {
    PREFIX_POSIX@ + PREFIX_LIQK@ + "\nSELECT ?level ?kind ?digest WHERE {\n    GRAPH <"@ + POLICY_GRAPH@
        + "> {\n        ?policy liqk:target ?target ;\n                liqk:accessLevel ?level ;\n                liqk:grantKind ?kind .\n        OPTIONAL { ?policy liqk:grantee ?grantee . ?grantee liqk:tokenDigest ?digest . }\n    }\n"@
        + target_pattern(t) + grant_filter(digest) + "}"@
}

/// Builds the query for the grants on `t` that a request presenting `digest` may use;
/// `None` where the identifier or IRI of `t` cannot be written into a query.
pub fn build_rank_query(t: &RankTarget, digest: &Option<String>) -> (r: Option<String>)
    ensures
        r is Some <==> target_ok(*t),
        r is Some ==> r->0@ == rank_query(*t, opt_view(*digest)),
{
    let ok = match t {
        RankTarget::Resource(id) => check_resource_id(id.as_str()),
        RankTarget::Action(iri) => check_safe_iri(iri.as_str()),
        RankTarget::Path(_) => true,
    };
    if !ok {
        return None;
    }
    let mut q = String::new();
    push_str(&mut q, PREFIX_POSIX);
    push_str(&mut q, PREFIX_LIQK);
    push_str(&mut q, "\nSELECT ?level ?kind ?digest WHERE {\n    GRAPH <");
    push_str(&mut q, POLICY_GRAPH);
    push_str(
        &mut q,
        "> {\n        ?policy liqk:target ?target ;\n                liqk:accessLevel ?level ;\n                liqk:grantKind ?kind .\n        OPTIONAL { ?policy liqk:grantee ?grantee . ?grantee liqk:tokenDigest ?digest . }\n    }\n",
    );
    let ghost before_target = q@;
    match t {
        RankTarget::Resource(id) => {
            push_str(&mut q, "    GRAPH <");
            push_str(&mut q, FILESYSTEM_GRAPH);
            push_str(&mut q, "> { ?target posix:includes* <urn:uuid:");
            push_str(&mut q, id.as_str());
            push_str(&mut q, "> . }\n");
        },
        RankTarget::Action(iri) => {
            push_str(&mut q, "    FILTER(?target = <");
            push_str(&mut q, iri.as_str());
            push_str(&mut q, ">)\n");
        },
        RankTarget::Path(labels) => {
            push_str(&mut q, "    GRAPH <");
            push_str(&mut q, FILESYSTEM_GRAPH);
            push_str(&mut q, "> {\n");
            push_str(&mut q, ROOT_PATTERN);
            push_walk(&mut q, labels.as_slice(), false);
            push_str(&mut q, "        ?target posix:includes* ");
            push_var_before(&mut q, labels.len());
            push_str(&mut q, " .\n    }\n");
        },
    }
    assert(q@ =~= before_target + target_pattern(*t));
    let ghost before_filter = q@;
    push_str(&mut q, "    FILTER(?kind = <");
    push_str(&mut q, PUBLIC_KIND);
    match digest {
        Some(d) => {
            push_str(&mut q, "> || ?digest = \"");
            push_escaped(&mut q, d.as_str());
            push_str(&mut q, "\")\n");
        },
        None => {
            push_str(&mut q, ">)\n");
        },
    }
    assert(q@ =~= before_filter + grant_filter(opt_view(*digest)));
    push_str(&mut q, "}");
    Some(q)
}

/// The yes/no query: is a credential with digest `digest` registered?
pub open spec fn registered_query(digest: Seq<char>) -> Seq<char> {
    PREFIX_LIQK@ + "\nASK {\n    GRAPH <"@ + POLICY_GRAPH@
        + "> { ?credential a liqk:Credential ; liqk:tokenDigest \""@ + escaped(digest) + "\" . }\n}"@
}

/// Builds the query that asks whether a credential with `digest` is registered.
pub fn build_registered_query(digest: &str) -> (r: String)
    ensures
        r@ == registered_query(digest@),
{
    let mut q = String::new();
    push_str(&mut q, PREFIX_LIQK);
    push_str(&mut q, "\nASK {\n    GRAPH <");
    push_str(&mut q, POLICY_GRAPH);
    push_str(&mut q, "> { ?credential a liqk:Credential ; liqk:tokenDigest \"");
    push_escaped(&mut q, digest);
    push_str(&mut q, "\" . }\n}");
    q
}

/// Whether the store's answer to the registration query says yes; no where the store could
/// not be reached or failed.
pub fn credential_is_registered(response: &Option<String>) -> (r: bool)
    ensures
        r == match *response {
            Some(doc) => crate::json::ask_answer(doc@),
            None => false,
        },
{
    match response {
        Some(doc) => read_ask_answer(doc.as_str()),
        None => false,
    }
}

/// The rank query for a request presenting `credential` (or none) on `t`: the credential is
/// reduced to its digest first, so the query never holds the credential itself.
pub fn rank_query_for(t: &RankTarget, credential: &Option<String>) -> (r: (Option<String>, Option<String>))
    ensures
        opt_view(r.1) == match *credential {
            Some(c) => Some(credential_digest_of(c@)),
            None => None,
        },
        r.0 is Some <==> target_ok(*t),
        r.0 is Some ==> r.0->0@ == rank_query(*t, opt_view(r.1)),
{
    let digest = match credential {
        Some(c) => Some(credential_digest(c.as_str())),
        None => None,
    };
    let q = build_rank_query(t, &digest);
    (q, digest)
}

// ---------------------------------------------------------------------------------------------
// Laws
// ---------------------------------------------------------------------------------------------

/// The effective rank is never below 0, and every admitted grant bounds it from below.
pub proof fn lemma_rank_bounds(grants: Seq<GrantView>, digest: Option<Seq<char>>, i: int)
    requires
        0 <= i < grants.len(),
        admits(grants[i], digest),
    ensures
        rank_of(grants, digest) >= grants[i].level,
        rank_of(grants, digest) >= 0,
    decreases grants.len(),
{
    lemma_rank_nonnegative(grants, digest);
    if i < grants.len() - 1 {
        lemma_rank_bounds(grants.drop_last(), digest, i);
    }
}

/// The effective rank is never below 0.
pub proof fn lemma_rank_nonnegative(grants: Seq<GrantView>, digest: Option<Seq<char>>)
    ensures
        rank_of(grants, digest) >= 0,
    decreases grants.len(),
{
    if grants.len() > 0 {
        lemma_rank_nonnegative(grants.drop_last(), digest);
    }
}

/// Grants that each go to one credential give nothing to a request presenting any other
/// credential whose digest differs, nor to a request presenting none.
pub proof fn lemma_grant_to_one_credential_only(grants: Seq<GrantView>, c1: Seq<char>, c2: Seq<char>)
    requires
        credential_digest_of(c1) != credential_digest_of(c2),
        forall|i: int|
            0 <= i < grants.len() ==> !(#[trigger] grants[i]).public && grants[i].grantee_digest
                == Some(credential_digest_of(c1)),
    ensures
        rank_of(grants, Some(credential_digest_of(c2))) == 0,
        rank_of(grants, None) == 0,
    decreases grants.len(),
{
    if grants.len() > 0 {
        lemma_grant_to_one_credential_only(grants.drop_last(), c1, c2);
    }
}

/// A public grant that the store reports for a target gives every request at least its
/// level, with or without a credential.
pub proof fn lemma_reported_public_grant_counts(doc: Seq<char>, i: int, digest: Option<Seq<char>>)
    requires
        0 <= i < grants_of(doc).len(),
        grants_of(doc)[i].public,
    ensures
        rank_in_document(doc, digest) >= grants_of(doc)[i].level,
        rank_in_document(doc, None) >= grants_of(doc)[i].level,
{
    lemma_rank_bounds(grants_of(doc), digest, i);
    lemma_rank_bounds(grants_of(doc), None, i);
}

/// A policy as the store holds it: the node it targets, and what it grants.
pub struct StoredPolicy {
    pub target: Seq<char>,
    pub grant: GrantView,
}

/// `b` is `a`, or lies below it along containment edges `(parent, child)`.
pub open spec fn reaches(edges: Set<(Seq<char>, Seq<char>)>, a: Seq<char>, b: Seq<char>) -> bool {
    exists|path: Seq<Seq<char>>|
        path.len() >= 1 && path[0] == a && path.last() == b && forall|k: int|
            0 <= k < path.len() - 1 ==> edges.contains((#[trigger] path[k], path[k + 1]))
}

/// The grants that a resource rank query asks for: those of every policy whose target
/// reaches the resource (its `posix:includes*` pattern), in the store's order.
pub open spec fn grants_reaching(
    policies: Seq<StoredPolicy>,
    edges: Set<(Seq<char>, Seq<char>)>,
    resource: Seq<char>,
) -> Seq<GrantView>
    decreases policies.len(),
{
    if policies.len() == 0 {
        Seq::empty()
    } else {
        let rest = grants_reaching(policies.drop_last(), edges, resource);
        if reaches(edges, policies.last().target, resource) {
            rest.push(policies.last().grant)
        } else {
            rest
        }
    }
}

proof fn lemma_reaching_grant_listed(
    policies: Seq<StoredPolicy>,
    edges: Set<(Seq<char>, Seq<char>)>,
    resource: Seq<char>,
    i: int,
) -> (j: int)
    requires
        0 <= i < policies.len(),
        reaches(edges, policies[i].target, resource),
    ensures
        0 <= j < grants_reaching(policies, edges, resource).len(),
        grants_reaching(policies, edges, resource)[j] == policies[i].grant,
    decreases policies.len(),
{
    let rest = grants_reaching(policies.drop_last(), edges, resource);
    if i == policies.len() - 1 {
        rest.len() as int
    } else {
        let j = lemma_reaching_grant_listed(policies.drop_last(), edges, resource, i);
        j
    }
}

/// Containment inheritance: a public policy on a container `d` with level `level` gives every
/// request at least that rank on any resource below `d`.
pub proof fn lemma_container_grant_is_inherited(
    policies: Seq<StoredPolicy>,
    edges: Set<(Seq<char>, Seq<char>)>,
    d: Seq<char>,
    resource: Seq<char>,
    i: int,
    digest: Option<Seq<char>>,
)
    requires
        0 <= i < policies.len(),
        policies[i].target == d,
        policies[i].grant.public,
        reaches(edges, d, resource),
    ensures
        rank_of(grants_reaching(policies, edges, resource), digest) >= policies[i].grant.level,
{
    let j = lemma_reaching_grant_listed(policies, edges, resource, i);
    lemma_rank_bounds(grants_reaching(policies, edges, resource), digest, j);
}

} // verus!
