//! Graph-query text built for the upstream store.
//!
//! Every string taken from a client or from the store is interpolated either as an escaped
//! string literal or, for identifiers, only after it has been checked to hold no character
//! that could end an IRI.

use crate::text::{chars_of, decimal, push_char, push_decimal, push_str};
use vstd::prelude::*;

verus! {

/// The named graph that holds the file-system metadata.
pub const FILESYSTEM_GRAPH: &'static str = "http://liqk.org/graph/filesystem";

/// The named graph that holds the access policies and credentials.
pub const POLICY_GRAPH: &'static str = "http://liqk.org/graph/policy";

pub const PREFIX_POSIX: &'static str = "PREFIX posix: <http://www.w3.org/ns/posix/stat#>\n";

pub const PREFIX_RDF: &'static str = "PREFIX rdf: <http://www.w3.org/1999/02/22-rdf-syntax-ns#>\n";

pub const PREFIX_RDFS: &'static str = "PREFIX rdfs: <http://www.w3.org/2000/01/rdf-schema#>\n";

pub const PREFIX_XSD: &'static str = "PREFIX xsd: <http://www.w3.org/2001/XMLSchema#>\n";

pub const PREFIX_DC: &'static str = "PREFIX dc: <http://purl.org/dc/terms/>\n";

pub const PREFIX_LIQK: &'static str = "PREFIX liqk: <http://liqk.org/schema#>\n";

/// The pattern that binds `?root` to the root container.
pub const ROOT_PATTERN: &'static str = "    ?root a posix:Directory ;\n          rdfs:label \"/\" .\n";

// ---------------------------------------------------------------------------------------------
// Escaping
// ---------------------------------------------------------------------------------------------

/// How one character is written inside a double-quoted string literal of the query language.
pub open spec fn escape_char(c: char) -> Seq<char> {
    if c == '\\' {
        seq!['\\', '\\']
    } else if c == '"' {
        seq!['\\', '"']
    } else if c == '\n' {
        seq!['\\', 'n']
    } else if c == '\r' {
        seq!['\\', 'r']
    } else if c == '\t' {
        seq!['\\', 't']
    } else {
        seq![c]
    }
}

/// `s` written as the body of a double-quoted string literal.
pub open spec fn escaped(s: Seq<char>) -> Seq<char>
    decreases s.len(),
{
    if s.len() == 0 {
        Seq::empty()
    } else {
        escaped(s.drop_last()) + escape_char(s.last())
    }
}

/// Appends `s` to `out`, escaped for a double-quoted string literal.
pub fn push_escaped(out: &mut String, s: &str)
    ensures
        final(out)@ == old(out)@ + escaped(s@),
{
    let v = chars_of(s);
    let ghost start = out@;
    let mut i: usize = 0;
    while i < v.len()
        invariant
            i <= v@.len(),
            v@ == s@,
            out@ == start + escaped(v@.subrange(0, i as int)),
        decreases v@.len() - i,
    {
        let c = v[i];
        if c == '\\' {
            push_char(out, '\\');
            push_char(out, '\\');
        } else if c == '"' {
            push_char(out, '\\');
            push_char(out, '"');
        } else if c == '\n' {
            push_char(out, '\\');
            push_char(out, 'n');
        } else if c == '\r' {
            push_char(out, '\\');
            push_char(out, 'r');
        } else if c == '\t' {
            push_char(out, '\\');
            push_char(out, 't');
        } else {
            push_char(out, c);
        }
        assert(v@.subrange(0, i + 1).drop_last() =~= v@.subrange(0, i as int));
        i = i + 1;
        assert(out@ =~= start + escaped(v@.subrange(0, i as int)));
    }
    assert(v@.subrange(0, v@.len() as int) =~= v@);
}

/// `s` escaped as a double-quoted string literal.
pub fn escape_literal(s: &str) -> (r: String)
    ensures
        r@ == escaped(s@),
{
    let mut out = String::new();
    push_escaped(&mut out, s);
    out
}

// ---------------------------------------------------------------------------------------------
// Identifiers
// ---------------------------------------------------------------------------------------------

pub open spec fn is_hex_digit(c: char) -> bool {
    ('0' <= c && c <= '9') || ('a' <= c && c <= 'f') || ('A' <= c && c <= 'F')
}

/// The hyphenated textual form of a resource identifier: 36 characters, hyphens at
/// positions 8, 13, 18 and 23, hexadecimal digits elsewhere.
pub open spec fn is_resource_id(s: Seq<char>) -> bool {
    &&& s.len() == 36
    &&& forall|i: int|
        0 <= i < 36 ==> if i == 8 || i == 13 || i == 18 || i == 23 {
            #[trigger] s[i] == '-'
        } else {
            is_hex_digit(s[i])
        }
}

/// Whether `s` is the hyphenated textual form of a resource identifier.
pub fn check_resource_id(s: &str) -> (r: bool)
    ensures
        r == is_resource_id(s@),
{
    let v = chars_of(s);
    if v.len() != 36 {
        return false;
    }
    let mut i: usize = 0;
    while i < 36
        invariant
            i <= 36,
            v@ == s@,
            v@.len() == 36,
            forall|j: int|
                0 <= j < i ==> if j == 8 || j == 13 || j == 18 || j == 23 {
                    #[trigger] v@[j] == '-'
                } else {
                    is_hex_digit(v@[j])
                },
        decreases 36 - i,
    {
        let c = v[i];
        if i == 8 || i == 13 || i == 18 || i == 23 {
            if c != '-' {
                return false;
            }
        } else if !(('0' <= c && c <= '9') || ('a' <= c && c <= 'f') || ('A' <= c && c <= 'F')) {
            return false;
        }
        i = i + 1;
    }
    true
}

/// A character that may stand inside `<...>` in the query language.
pub open spec fn is_iri_char(c: char) -> bool {
    &&& c as u32 > 0x20
    &&& c != '<' && c != '>' && c != '"' && c != '{' && c != '}'
    &&& c != '|' && c != '^' && c != '`' && c != '\\'
}

/// A non-empty text that can be written between `<` and `>` as it stands.
pub open spec fn is_safe_iri(s: Seq<char>) -> bool {
    s.len() > 0 && forall|i: int| 0 <= i < s.len() ==> is_iri_char(#[trigger] s[i])
}

/// Whether `s` can be written between `<` and `>` as it stands.
pub fn check_safe_iri(s: &str) -> (r: bool)
    ensures
        r == is_safe_iri(s@),
{
    let v = chars_of(s);
    if v.len() == 0 {
        return false;
    }
    let mut i: usize = 0;
    while i < v.len()
        invariant
            i <= v@.len(),
            v@ == s@,
            forall|j: int| 0 <= j < i ==> is_iri_char(#[trigger] v@[j]),
        decreases v@.len() - i,
    {
        let c = v[i];
        if !((c as u32) > 0x20 && c != '<' && c != '>' && c != '"' && c != '{' && c != '}'
            && c != '|' && c != '^' && c != '`' && c != '\\') {
            return false;
        }
        i = i + 1;
    }
    true
}

// ---------------------------------------------------------------------------------------------
// Walking the containment hierarchy by label
// ---------------------------------------------------------------------------------------------

/// The views of a list of labels.
pub open spec fn label_views(labels: Seq<String>) -> Seq<Seq<char>> {
    labels.map_values(|l: String| l@)
}

/// The variable bound to the container reached after step `i`.
pub open spec fn step_var(i: int) -> Seq<char> {
    "?dir"@ + decimal(i as nat)
}

/// The variable bound to the container from which step `i` starts.
pub open spec fn var_before(i: int) -> Seq<char> {
    if i == 0 {
        "?root"@
    } else {
        step_var(i - 1)
    }
}

/// The patterns of step `i`: a child of the current container labelled `label`, and, where
/// `containers_only`, that child is itself a container.
pub open spec fn walk_step(i: int, label: Seq<char>, containers_only: bool) -> Seq<char> {
    let base = "    "@ + var_before(i) + " posix:includes "@ + step_var(i) + " .\n    "@ + step_var(i)
        + " rdfs:label \""@ + escaped(label) + "\" .\n"@;
    if containers_only {
        base + "    "@ + step_var(i) + " a posix:Directory .\n"@
    } else {
        base
    }
}

/// The patterns that walk from the root along `labels`, one step per label.
pub open spec fn walk(labels: Seq<Seq<char>>, containers_only: bool) -> Seq<char>
    decreases labels.len(),
{
    if labels.len() == 0 {
        Seq::empty()
    } else {
        walk(labels.drop_last(), containers_only) + walk_step(
            labels.len() - 1,
            labels.last(),
            containers_only,
        )
    }
}

pub(crate) fn push_var_before(out: &mut String, i: usize)
    ensures
        final(out)@ == old(out)@ + var_before(i as int),
{
    if i == 0 {
        push_str(out, "?root");
    } else {
        push_str(out, "?dir");
        push_decimal(out, (i - 1) as u64);
    }
}

fn push_step_var(out: &mut String, i: usize)
    ensures
        final(out)@ == old(out)@ + step_var(i as int),
{
    push_str(out, "?dir");
    push_decimal(out, i as u64);
}

fn push_walk_step(out: &mut String, i: usize, label: &str, containers_only: bool)
    ensures
        final(out)@ == old(out)@ + walk_step(i as int, label@, containers_only),
{
    let ghost before = out@;
    push_str(out, "    ");
    push_var_before(out, i);
    push_str(out, " posix:includes ");
    push_step_var(out, i);
    push_str(out, " .\n    ");
    push_step_var(out, i);
    push_str(out, " rdfs:label \"");
    push_escaped(out, label);
    push_str(out, "\" .\n");
    if containers_only {
        push_str(out, "    ");
        push_step_var(out, i);
        push_str(out, " a posix:Directory .\n");
    }
    assert(out@ =~= before + walk_step(i as int, label@, containers_only));
}

/// Appends the patterns that walk from the root along `labels`.
pub(crate) fn push_walk(out: &mut String, labels: &[String], containers_only: bool)
    ensures
        final(out)@ == old(out)@ + walk(label_views(labels@), containers_only),
{
    let ghost start = out@;
    let ghost views = label_views(labels@);
    let mut i: usize = 0;
    while i < labels.len()
        invariant
            i <= labels@.len(),
            views == label_views(labels@),
            out@ == start + walk(views.subrange(0, i as int), containers_only),
        decreases labels@.len() - i,
    {
        push_walk_step(out, i, labels[i].as_str(), containers_only);
        assert(views.subrange(0, i + 1).drop_last() =~= views.subrange(0, i as int));
        assert(views.subrange(0, i + 1).last() == labels@[i as int]@);
        i = i + 1;
    }
    assert(views.subrange(0, labels@.len() as int) =~= views);
}

/// Appends the prefix lines and the opening of a query over the file-system graph:
/// `{prefixes}{form} FROM <graph> WHERE {` and the root pattern.
fn push_filesystem_opening(out: &mut String, with_liqk: bool, form: &str)
    ensures
        final(out)@ == old(out)@ + filesystem_opening(with_liqk, form@),
{
    push_str(out, PREFIX_POSIX);
    push_str(out, PREFIX_RDFS);
    if with_liqk {
        push_str(out, PREFIX_LIQK);
    }
    push_str(out, "\n");
    push_str(out, form);
    push_str(out, " FROM <");
    push_str(out, FILESYSTEM_GRAPH);
    push_str(out, "> WHERE {\n");
    push_str(out, ROOT_PATTERN);
}

pub open spec fn filesystem_opening(with_liqk: bool, form: Seq<char>) -> Seq<char> {
    let prefixes = if with_liqk {
        PREFIX_POSIX@ + PREFIX_RDFS@ + PREFIX_LIQK@
    } else {
        PREFIX_POSIX@ + PREFIX_RDFS@
    };
    prefixes + "\n"@ + form + " FROM <"@ + FILESYSTEM_GRAPH@ + "> WHERE {\n"@ + ROOT_PATTERN@
}

// ---------------------------------------------------------------------------------------------
// Queries of the directory resolver
// ---------------------------------------------------------------------------------------------

/// The query for the blob name of the file labelled `filename` inside the container reached
/// from the root along `dir_labels`.
pub open spec fn file_lookup_query(dir_labels: Seq<Seq<char>>, filename: Seq<char>) -> Seq<char> {
    filesystem_opening(true, "SELECT ?storedAs"@) + walk(dir_labels, false) + "    "@ + var_before(
        dir_labels.len() as int,
    ) + " posix:includes ?file .\n    ?file rdfs:label \""@ + escaped(filename)
        + "\" .\n    ?file liqk:storedAs ?storedAs .\n}"@
}

/// Builds the query that resolves a file by the labels of its path.
pub fn build_file_lookup_query(dir_labels: &[String], filename: &str) -> (r: String)
    ensures
        r@ == file_lookup_query(label_views(dir_labels@), filename@),
{
    let mut q = String::new();
    push_filesystem_opening(&mut q, true, "SELECT ?storedAs");
    push_walk(&mut q, dir_labels, false);
    push_str(&mut q, "    ");
    push_var_before(&mut q, dir_labels.len());
    push_str(&mut q, " posix:includes ?file .\n    ?file rdfs:label \"");
    push_escaped(&mut q, filename);
    push_str(&mut q, "\" .\n    ?file liqk:storedAs ?storedAs .\n}");
    q
}

/// The yes/no query: is the node reached from the root along `labels` a container, every
/// step of the way?
pub open spec fn container_ask_query(labels: Seq<Seq<char>>) -> Seq<char> {
    filesystem_opening(false, "ASK"@) + walk(labels, true) + "}"@
}

/// Builds the yes/no query that tells whether a path names a container.
pub fn build_container_ask_query(labels: &[String]) -> (r: String)
    ensures
        r@ == container_ask_query(label_views(labels@)),
{
    let mut q = String::new();
    push_filesystem_opening(&mut q, false, "ASK");
    push_walk(&mut q, labels, true);
    push_str(&mut q, "}");
    q
}

/// The query for the label of each immediate child of the container reached along
/// `labels`, and whether that child is a container.
pub open spec fn children_query(labels: Seq<Seq<char>>) -> Seq<char> {
    filesystem_opening(false, "SELECT ?label ?isDir"@) + walk(labels, true) + "    "@ + var_before(
        labels.len() as int,
    )
        + " posix:includes ?child .\n    ?child rdfs:label ?label .\n    BIND(EXISTS { ?child a posix:Directory } AS ?isDir)\n}"@
}

/// Builds the query that lists the immediate children of a container.
pub fn build_children_query(labels: &[String]) -> (r: String)
    ensures
        r@ == children_query(label_views(labels@)),
{
    let mut q = String::new();
    push_filesystem_opening(&mut q, false, "SELECT ?label ?isDir");
    push_walk(&mut q, labels, true);
    push_str(&mut q, "    ");
    push_var_before(&mut q, labels.len());
    push_str(
        &mut q,
        " posix:includes ?child .\n    ?child rdfs:label ?label .\n    BIND(EXISTS { ?child a posix:Directory } AS ?isDir)\n}",
    );
    q
}

/// The query for the container labelled `label` directly under the root.
pub open spec fn root_child_container_query(label: Seq<char>) -> Seq<char> {
    filesystem_opening(false, "SELECT ?dir"@)
        + "    ?root posix:includes ?dir .\n    ?dir a posix:Directory .\n    ?dir rdfs:label \""@
        + escaped(label) + "\" .\n}"@
}

/// Builds the query that finds a container directly under the root by its label.
pub fn build_root_child_container_query(label: &str) -> (r: String)
    ensures
        r@ == root_child_container_query(label@),
{
    let mut q = String::new();
    push_filesystem_opening(&mut q, false, "SELECT ?dir");
    push_str(&mut q, "    ?root posix:includes ?dir .\n    ?dir a posix:Directory .\n    ?dir rdfs:label \"");
    push_escaped(&mut q, label);
    push_str(&mut q, "\" .\n}");
    q
}

/// The query for the blob name of the resource `id`.
pub open spec fn id_lookup_query(id: Seq<char>) -> Seq<char> {
    PREFIX_LIQK@ + "\nSELECT ?storedAs FROM <"@ + FILESYSTEM_GRAPH@ + "> WHERE {\n    <urn:uuid:"@ + id
        + "> liqk:storedAs ?storedAs .\n}"@
}

/// Builds the query for the blob name of a resource, where `id` is a resource identifier.
pub fn build_id_lookup_query(id: &str) -> (r: Option<String>)
    ensures
        r is Some <==> is_resource_id(id@),
        r is Some ==> r->0@ == id_lookup_query(id@),
{
    if !check_resource_id(id) {
        return None;
    }
    let mut q = String::new();
    push_str(&mut q, PREFIX_LIQK);
    push_str(&mut q, "\nSELECT ?storedAs FROM <");
    push_str(&mut q, FILESYSTEM_GRAPH);
    push_str(&mut q, "> WHERE {\n    <urn:uuid:");
    push_str(&mut q, id);
    push_str(&mut q, "> liqk:storedAs ?storedAs .\n}");
    Some(q)
}

} // verus!
