//! Streaming transfer: naming an uploaded file, metering the bytes of a request against the
//! size ceiling, and the records written to the store for uploads and replacements.

use crate::query::{
    escaped, is_resource_id, is_safe_iri, check_resource_id, check_safe_iri, push_escaped,
    FILESYSTEM_GRAPH, PREFIX_DC, PREFIX_LIQK, PREFIX_POSIX, PREFIX_RDF, PREFIX_RDFS, PREFIX_XSD,
};
use crate::text::{chars_of, decimal, push_char, push_decimal, push_str, string_of_range};
use vstd::prelude::*;

verus! {

/// Ceiling on the bytes of all files of one upload request (4 GiB).
pub const MAX_UPLOAD_SIZE: u64 = 4294967296;

/// Extension of a stored blob whose client name has none.
pub const DEFAULT_EXTENSION: &'static str = "bin";

// ---------------------------------------------------------------------------------------------
// Names
// ---------------------------------------------------------------------------------------------

pub open spec fn is_separator(c: char) -> bool {
    c == '/' || c == '\\'
}

/// Where the last path component of `s` begins: just after its last separator, else 0.
pub open spec fn base_start(s: Seq<char>) -> int
    decreases s.len(),
{
    if s.len() == 0 {
        0
    } else if is_separator(s.last()) {
        s.len() as int
    } else {
        base_start(s.drop_last())
    }
}

/// The last path component of a client-supplied name.
pub open spec fn base_component(s: Seq<char>) -> Seq<char> {
    s.subrange(base_start(s), s.len() as int)
}

/// The name kept for an upload: the base component of the client's name, where it is not
/// empty and does not begin with a dot.
pub open spec fn sanitized_name(s: Seq<char>) -> Option<Seq<char>> {
    let b = base_component(s);
    if b.len() > 0 && b[0] != '.' {
        Some(b)
    } else {
        None
    }
}

/// The name kept for an upload, `None` where the item is to be skipped.
pub fn sanitize_filename(name: &str) -> (r: Option<String>)
    ensures
        crate::json::opt_view(r) == sanitized_name(name@),
{
    let v = chars_of(name);
    let mut start: usize = v.len();
    assert(v@.subrange(0, v@.len() as int) =~= v@);
    while start > 0 && !(v[start - 1] == '/' || v[start - 1] == '\\')
        invariant
            start <= v@.len(),
            v@ == name@,
            base_start(v@) == base_start(v@.subrange(0, start as int)),
            forall|j: int| start <= j < v@.len() ==> !is_separator(#[trigger] v@[j]),
        decreases start,
    {
        assert(v@.subrange(0, start as int).drop_last() =~= v@.subrange(0, start - 1));
        start = start - 1;
    }
    proof {
        if start > 0 {
            assert(v@.subrange(0, start as int).last() == v@[start - 1]);
        }
        assert(v@.subrange(0, v@.len() as int) =~= v@);
    }
    if start == v.len() || v[start] == '.' {
        return None;
    }
    Some(string_of_range(v.as_slice(), start, v.len()))
}

/// Where the text after the last dot of `s` begins; 0 where `s` has no dot.
pub open spec fn suffix_start(s: Seq<char>) -> int
    decreases s.len(),
{
    if s.len() == 0 {
        0
    } else if s.last() == '.' {
        s.len() as int
    } else {
        suffix_start(s.drop_last())
    }
}

/// The extension of a file name: the text after its last dot (empty where the name ends in
/// a dot), where it has a dot.
pub open spec fn extension_of(s: Seq<char>) -> Option<Seq<char>> {
    let k = suffix_start(s);
    if k > 0 {
        Some(s.subrange(k, s.len() as int))
    } else {
        None
    }
}

/// The extension of a file name: the text after its last dot (`"archive.tar.gz"` gives
/// `"gz"`, `"a."` gives `""`), `None` where there is no dot.
pub fn extract_extension(filename: &str) -> (r: Option<String>)
    ensures
        crate::json::opt_view(r) == extension_of(filename@),
{
    let v = chars_of(filename);
    let mut k: usize = v.len();
    assert(v@.subrange(0, v@.len() as int) =~= v@);
    while k > 0 && v[k - 1] != '.'
        invariant
            k <= v@.len(),
            v@ == filename@,
            suffix_start(v@) == suffix_start(v@.subrange(0, k as int)),
        decreases k,
    {
        assert(v@.subrange(0, k as int).drop_last() =~= v@.subrange(0, k - 1));
        k = k - 1;
    }
    proof {
        if k > 0 {
            assert(v@.subrange(0, k as int).last() == v@[k - 1]);
        }
        assert(v@.subrange(0, v@.len() as int) =~= v@);
    }
    if k > 0 {
        Some(string_of_range(v.as_slice(), k, v.len()))
    } else {
        None
    }
}

/// The name of the blob that backs resource `id` with extension `ext`.
pub open spec fn stored_name_of(id: Seq<char>, ext: Seq<char>) -> Seq<char> {
    id + "."@ + ext
}

/// The extension of the blob of an upload named `name`: its extension, or the generic
/// binary one where it has none or an empty one.
pub open spec fn blob_extension(name: Seq<char>) -> Seq<char> {
    match extension_of(name) {
        Some(e) => if e.len() > 0 {
            e
        } else {
            DEFAULT_EXTENSION@
        },
        None => DEFAULT_EXTENSION@,
    }
}

/// A file of an upload, named and ready to be written.
pub struct UploadItem {
    /// The sanitized client name.
    pub filename: String,
    pub id: String,
    pub extension: String,
    /// The blob name: `{id}.{extension}`.
    pub stored_name: String,
}

/// What an upload item is made of, for a client name and a fresh identifier.
pub open spec fn item_matches(item: UploadItem, client_name: Seq<char>, id: Seq<char>) -> bool {
    let name = sanitized_name(client_name)->0;
    let ext = blob_extension(name);
    &&& item.filename@ == name
    &&& item.id@ == id
    &&& item.extension@ == ext
    &&& item.stored_name@ == stored_name_of(id, ext)
}

/// The item for a client name and identifier `id`; `None` where the name is to be skipped.
pub fn plan_upload_item_with_id(client_name: &str, id: String) -> (r: Option<UploadItem>)
    ensures
        r is Some <==> sanitized_name(client_name@) is Some,
        r is Some ==> item_matches(r->0, client_name@, id@),
{
    let filename = match sanitize_filename(client_name) {
        Some(f) => f,
        None => {
            return None;
        },
    };
    let extension = match extract_extension(filename.as_str()) {
        Some(e) => if e.unicode_len() > 0 {
            e
        } else {
            String::from_str(DEFAULT_EXTENSION)
        },
        None => String::from_str(DEFAULT_EXTENSION),
    };
    let mut stored = String::new();
    push_str(&mut stored, id.as_str());
    push_str(&mut stored, ".");
    push_str(&mut stored, extension.as_str());
    Some(UploadItem { filename, id, extension, stored_name: stored })
}

/// Relies on uuid's `Uuid::new_v4` and its `Display`: a random identifier, written as 36
/// lower-case hexadecimal digits and hyphens in the 8-4-4-4-12 layout.
#[verifier::external_body]
fn fresh_resource_id() -> (r: String)
    ensures
        is_resource_id(r@),
{
    uuid::Uuid::new_v4().to_string()
}

/// The item for a client name, under a freshly generated identifier; `None` where the name
/// is to be skipped.
pub fn plan_upload_item(client_name: &str) -> (r: Option<UploadItem>)
    ensures
        r is Some <==> sanitized_name(client_name@) is Some,
        r is Some ==> is_resource_id(r->0.id@) && item_matches(r->0, client_name@, r->0.id@),
{
    let id = fresh_resource_id();
    plan_upload_item_with_id(client_name, id)
}

// ---------------------------------------------------------------------------------------------
// The size ceiling
// ---------------------------------------------------------------------------------------------

/// What to do with a chunk of an upload.
#[derive(Debug, Clone, Copy, PartialEq, Eq, Structural)]
pub enum ChunkVerdict {
    /// Write it to the blob.
    Write,
    /// The ceiling is passed: delete the partial blob and fail the request.
    Abort,
}

/// Bytes counted so far in one upload request, and in its current file.
pub struct UploadMeter {
    pub total: u64,
    pub file: u64,
}

impl UploadMeter {
    pub open spec fn wf(&self) -> bool {
        self.file <= self.total <= MAX_UPLOAD_SIZE
    }

    /// A meter for a new request.
    pub fn new() -> (r: UploadMeter)
        ensures
            r.wf(),
            r.total == 0,
            r.file == 0,
    {
        UploadMeter { total: 0, file: 0 }
    }

    /// Starts counting a new file of the same request.
    pub fn start_file(&mut self)
        requires
            old(self).wf(),
        ensures
            final(self).wf(),
            final(self).total == old(self).total,
            final(self).file == 0,
    {
        self.file = 0;
    }

    /// Counts a chunk of `len` bytes: it is written where the request's bytes, with it,
    /// stay within the ceiling; otherwise the upload aborts and nothing is counted.
    pub fn on_chunk(&mut self, len: u64) -> (r: ChunkVerdict)
        requires
            old(self).wf(),
        ensures
            final(self).wf(),
            (r == ChunkVerdict::Write) == (old(self).total + len <= MAX_UPLOAD_SIZE),
            r == ChunkVerdict::Write ==> final(self).total == old(self).total + len && final(self).file
                == old(self).file + len,
            r == ChunkVerdict::Abort ==> *final(self) == *old(self),
    {
        if len > MAX_UPLOAD_SIZE - self.total {
            ChunkVerdict::Abort
        } else {
            self.total = self.total + len;
            self.file = self.file + len;
            ChunkVerdict::Write
        }
    }
}

/// The sum of the chunk lengths.
pub open spec fn total_of(chunks: Seq<nat>) -> nat
    decreases chunks.len(),
{
    if chunks.len() == 0 {
        0
    } else {
        total_of(chunks.drop_last()) + chunks.last()
    }
}

/// Whether a meter that starts at `start` writes every one of `chunks`, as `on_chunk` decides
/// them one after the other.
pub open spec fn meter_accepts(start: nat, chunks: Seq<nat>) -> bool
    decreases chunks.len(),
{
    if chunks.len() == 0 {
        true
    } else {
        meter_accepts(start, chunks.drop_last()) && start + total_of(chunks) <= MAX_UPLOAD_SIZE
    }
}

/// An upload whose bytes, all chunks together, reach the ceiling exactly is written whole;
/// one whose bytes exceed it, by one byte or more, is aborted at some chunk.
pub proof fn lemma_ceiling_boundary(chunks: Seq<nat>)
    ensures
        meter_accepts(0, chunks) <==> total_of(chunks) <= MAX_UPLOAD_SIZE,
    decreases chunks.len(),
{
    if chunks.len() > 0 {
        lemma_ceiling_boundary(chunks.drop_last());
    }
}

// ---------------------------------------------------------------------------------------------
// Records in the store
// ---------------------------------------------------------------------------------------------

/// The record of a new file: its type, label, size, media type, creation time and blob
/// name, and its place in the upload container.
pub open spec fn file_record_update(
    id: Seq<char>,
    filename: Seq<char>,
    stored_name: Seq<char>,
    size: nat,
    media_type: Seq<char>,
    timestamp: Seq<char>,
    upload_dir: Seq<char>,
) -> Seq<char> {
    PREFIX_POSIX@ + PREFIX_RDF@ + PREFIX_RDFS@ + PREFIX_XSD@ + PREFIX_DC@ + PREFIX_LIQK@
        + "\nINSERT DATA {\n    GRAPH <"@ + FILESYSTEM_GRAPH@ + "> {\n        <urn:uuid:"@ + id
        + "> rdf:type posix:File ;\n            rdfs:label \""@ + escaped(filename)
        + "\" ;\n            posix:size "@ + decimal(size) + " ;\n            dc:format \""@
        + escaped(media_type) + "\" ;\n            dc:created \""@ + escaped(timestamp)
        + "\"^^xsd:dateTime ;\n            liqk:storedAs \""@ + escaped(stored_name)
        + "\" .\n        <"@ + upload_dir + "> posix:includes <urn:uuid:"@ + id + "> .\n    }\n}"@
}

/// Builds the update that records an uploaded file of `size` bytes; `None` where the
/// identifier or the container IRI cannot be written into a query.
pub fn build_sparql_insert(
    item: &UploadItem,
    size: u64,
    media_type: &str,
    timestamp: &str,
    upload_dir: &str,
) -> (r: Option<String>)
    ensures
        r is Some <==> is_resource_id(item.id@) && is_safe_iri(upload_dir@),
        r is Some ==> r->0@ == file_record_update(
            item.id@,
            item.filename@,
            item.stored_name@,
            size as nat,
            media_type@,
            timestamp@,
            upload_dir@,
        ),
{
    if !check_resource_id(item.id.as_str()) || !check_safe_iri(upload_dir) {
        return None;
    }
    let mut q = String::new();
    push_str(&mut q, PREFIX_POSIX);
    push_str(&mut q, PREFIX_RDF);
    push_str(&mut q, PREFIX_RDFS);
    push_str(&mut q, PREFIX_XSD);
    push_str(&mut q, PREFIX_DC);
    push_str(&mut q, PREFIX_LIQK);
    push_str(&mut q, "\nINSERT DATA {\n    GRAPH <");
    push_str(&mut q, FILESYSTEM_GRAPH);
    push_str(&mut q, "> {\n        <urn:uuid:");
    push_str(&mut q, item.id.as_str());
    push_str(&mut q, "> rdf:type posix:File ;\n            rdfs:label \"");
    push_escaped(&mut q, item.filename.as_str());
    push_str(&mut q, "\" ;\n            posix:size ");
    push_decimal(&mut q, size);
    push_str(&mut q, " ;\n            dc:format \"");
    push_escaped(&mut q, media_type);
    push_str(&mut q, "\" ;\n            dc:created \"");
    push_escaped(&mut q, timestamp);
    push_str(&mut q, "\"^^xsd:dateTime ;\n            liqk:storedAs \"");
    push_escaped(&mut q, item.stored_name.as_str());
    push_str(&mut q, "\" .\n        <");
    push_str(&mut q, upload_dir);
    push_str(&mut q, "> posix:includes <urn:uuid:");
    push_str(&mut q, item.id.as_str());
    push_str(&mut q, "> .\n    }\n}");
    Some(q)
}

/// The update that sets the size of resource `id` to `size`, and changes nothing else.
pub open spec fn size_update(id: Seq<char>, size: nat) -> Seq<char> {
    PREFIX_POSIX@ + "\nWITH <"@ + FILESYSTEM_GRAPH@ + ">\nDELETE { <urn:uuid:"@ + id
        + "> posix:size ?size . }\nINSERT { <urn:uuid:"@ + id + "> posix:size "@ + decimal(size)
        + " . }\nWHERE { OPTIONAL { <urn:uuid:"@ + id + "> posix:size ?size . } }"@
}

/// Builds the update that records the new size of a replaced resource; `None` where `id` is
/// not a resource identifier.
pub fn build_size_update(id: &str, size: u64) -> (r: Option<String>)
    ensures
        r is Some <==> is_resource_id(id@),
        r is Some ==> r->0@ == size_update(id@, size as nat),
{
    if !check_resource_id(id) {
        return None;
    }
    let mut q = String::new();
    push_str(&mut q, PREFIX_POSIX);
    push_str(&mut q, "\nWITH <");
    push_str(&mut q, FILESYSTEM_GRAPH);
    push_str(&mut q, ">\nDELETE { <urn:uuid:");
    push_str(&mut q, id);
    push_str(&mut q, "> posix:size ?size . }\nINSERT { <urn:uuid:");
    push_str(&mut q, id);
    push_str(&mut q, "> posix:size ");
    push_decimal(&mut q, size);
    push_str(&mut q, " . }\nWHERE { OPTIONAL { <urn:uuid:");
    push_str(&mut q, id);
    push_str(&mut q, "> posix:size ?size . } }");
    Some(q)
}

// ---------------------------------------------------------------------------------------------
// Media types
// ---------------------------------------------------------------------------------------------

/// The media type guessed from a file name's extension.
pub uninterp spec fn media_type_of(name: Seq<char>) -> Seq<char>;

/// Relies on mime_guess's `from_path(..).first_or_octet_stream()`: the first media type
/// registered for the name's extension, `application/octet-stream` where there is none; it
/// depends on the name alone.
#[verifier::external_body]
fn guess_media_type(name: &str) -> (r: String)
    ensures
        r@ == media_type_of(name@),
{
    mime_guess::from_path(name).first_or_octet_stream().to_string()
}

/// The media type a blob is served with, inferred from its name on a best-effort basis.
pub fn media_type_for(name: &str) -> (r: String)
    ensures
        r@ == media_type_of(name@),
{
    guess_media_type(name)
}

// ---------------------------------------------------------------------------------------------
// Reporting
// ---------------------------------------------------------------------------------------------

/// `names` joined with `", "`.
pub open spec fn joined(names: Seq<Seq<char>>) -> Seq<char>
    decreases names.len(),
{
    if names.len() == 0 {
        Seq::empty()
    } else if names.len() == 1 {
        names[0]
    } else {
        joined(names.drop_last()) + ", "@ + names.last()
    }
}

/// The summary of a finished upload: `Uploaded {n} file(s): {names}`; `None` where no file
/// was uploaded.
pub open spec fn upload_summary_of(names: Seq<Seq<char>>) -> Option<Seq<char>> {
    if names.len() == 0 {
        None
    } else {
        Some("Uploaded "@ + decimal(names.len()) + " file(s): "@ + joined(names))
    }
}

/// The summary of a finished upload, `None` where no file was uploaded.
pub fn upload_summary(names: &[String]) -> (r: Option<String>)
    ensures
        crate::json::opt_view(r) == upload_summary_of(crate::query::label_views(names@)),
{
    if names.len() == 0 {
        return None;
    }
    let ghost views = crate::query::label_views(names@);
    let mut s = String::new();
    push_str(&mut s, "Uploaded ");
    push_decimal(&mut s, names.len() as u64);
    push_str(&mut s, " file(s): ");
    let ghost head = s@;
    let mut i: usize = 0;
    while i < names.len()
        invariant
            i <= names@.len(),
            views == crate::query::label_views(names@),
            s@ == head + joined(views.subrange(0, i as int)),
        decreases names@.len() - i,
    {
        assert(views.subrange(0, i + 1).drop_last() =~= views.subrange(0, i as int));
        if i > 0 {
            push_str(&mut s, ", ");
        } else {
            assert(views.subrange(0, 0) =~= Seq::<Seq<char>>::empty());
        }
        push_str(&mut s, names[i].as_str());
        i = i + 1;
    }
    assert(views.subrange(0, names@.len() as int) =~= views);
    Some(s)
}

} // verus!

verus! {

/// How one character is written inside a JSON string.
pub open spec fn json_escape_char(c: char) -> Seq<char> {
    if c == '"' {
        seq!['\\', '"']
    } else if c == '\\' {
        seq!['\\', '\\']
    } else if c == '\n' {
        seq!['\\', 'n']
    } else if c == '\r' {
        seq!['\\', 'r']
    } else if c == '\t' {
        seq!['\\', 't']
    } else if (c as u32) < 0x20 {
        seq![
            '\\',
            'u',
            '0',
            '0',
            crate::auth::hex_digit((c as u32 / 16) as int),
            crate::auth::hex_digit((c as u32 % 16) as int),
        ]
    } else {
        seq![c]
    }
}

/// `s` written as the body of a JSON string.
pub open spec fn json_escaped(s: Seq<char>) -> Seq<char>
    decreases s.len(),
{
    if s.len() == 0 {
        Seq::empty()
    } else {
        json_escaped(s.drop_last()) + json_escape_char(s.last())
    }
}

fn hex_digit_exec(d: u32) -> (c: char)
    requires
        d < 16,
    ensures
        c == crate::auth::hex_digit(d as int),
{
    if d < 10 {
        crate::text::digit_char_exec(d as u64)
    } else if d == 10 {
        'a'
    } else if d == 11 {
        'b'
    } else if d == 12 {
        'c'
    } else if d == 13 {
        'd'
    } else if d == 14 {
        'e'
    } else {
        'f'
    }
}

fn push_json_escaped(out: &mut String, s: &str)
    ensures
        final(out)@ == old(out)@ + json_escaped(s@),
{
    let v = chars_of(s);
    let ghost start = out@;
    let mut i: usize = 0;
    while i < v.len()
        invariant
            i <= v@.len(),
            v@ == s@,
            out@ == start + json_escaped(v@.subrange(0, i as int)),
        decreases v@.len() - i,
    {
        let c = v[i];
        let ghost before = out@;
        if c == '"' {
            push_str(out, "\\\"");
        } else if c == '\\' {
            push_str(out, "\\\\");
        } else if c == '\n' {
            push_str(out, "\\n");
        } else if c == '\r' {
            push_str(out, "\\r");
        } else if c == '\t' {
            push_str(out, "\\t");
        } else if (c as u32) < 0x20 {
            push_str(out, "\\u00");
            push_char(out, hex_digit_exec((c as u32) / 16));
            push_char(out, hex_digit_exec((c as u32) % 16));
        } else {
            push_char(out, c);
        }
        proof {
            reveal_strlit("\\\"");
            reveal_strlit("\\\\");
            reveal_strlit("\\n");
            reveal_strlit("\\r");
            reveal_strlit("\\t");
            reveal_strlit("\\u00");
        }
        assert(out@ =~= before + json_escape_char(c));
        assert(v@.subrange(0, i + 1).drop_last() =~= v@.subrange(0, i as int));
        i = i + 1;
    }
    assert(v@.subrange(0, v@.len() as int) =~= v@);
}

/// One created resource in the answer to a creation request.
pub open spec fn created_entry(filename: Seq<char>, id: Seq<char>) -> Seq<char> {
    "{\"filename\":\""@ + json_escaped(filename) + "\",\"uuid\":\""@ + json_escaped(id) + "\"}"@
}

/// The entries of the answer, separated by commas.
pub open spec fn created_entries(items: Seq<UploadItem>) -> Seq<char>
    decreases items.len(),
{
    if items.len() == 0 {
        Seq::empty()
    } else if items.len() == 1 {
        created_entry(items[0].filename@, items[0].id@)
    } else {
        created_entries(items.drop_last()) + ","@ + created_entry(items.last().filename@, items.last().id@)
    }
}

/// The JSON answer to a creation request: an array of `{filename, uuid}` objects, one per
/// created resource, in order.
pub fn created_listing_json(items: &[UploadItem]) -> (r: String)
    ensures
        r@ == "["@ + created_entries(items@) + "]"@,
{
    let mut s = String::new();
    push_str(&mut s, "[");
    let ghost head = s@;
    let mut i: usize = 0;
    while i < items.len()
        invariant
            i <= items@.len(),
            s@ == head + created_entries(items@.subrange(0, i as int)),
        decreases items@.len() - i,
    {
        assert(items@.subrange(0, i + 1).drop_last() =~= items@.subrange(0, i as int));
        if i > 0 {
            push_str(&mut s, ",");
        } else {
            assert(items@.subrange(0, 0) =~= Seq::<UploadItem>::empty());
        }
        let ghost before = s@;
        push_str(&mut s, "{\"filename\":\"");
        push_json_escaped(&mut s, items[i].filename.as_str());
        push_str(&mut s, "\",\"uuid\":\"");
        push_json_escaped(&mut s, items[i].id.as_str());
        push_str(&mut s, "\"}");
        assert(s@ =~= before + created_entry(items@[i as int].filename@, items@[i as int].id@));
        i = i + 1;
    }
    assert(items@.subrange(0, items@.len() as int) =~= items@);
    push_str(&mut s, "]");
    s
}

} // verus!

verus! {

/// The note added to an upload's summary for files stored on disk whose record the store
/// did not take: empty where every record was taken.
pub open spec fn indexing_note_of(unindexed: Seq<Seq<char>>) -> Seq<char> {
    if unindexed.len() == 0 {
        Seq::empty()
    } else {
        "; stored but not yet indexed: "@ + joined(unindexed)
    }
}

/// The note that reports, as a partial success, the files whose record was not taken.
pub fn indexing_note(unindexed: &[String]) -> (r: String)
    ensures
        r@ == indexing_note_of(crate::query::label_views(unindexed@)),
{
    let mut s = String::new();
    if unindexed.len() == 0 {
        return s;
    }
    let ghost views = crate::query::label_views(unindexed@);
    push_str(&mut s, "; stored but not yet indexed: ");
    let ghost head = s@;
    let mut i: usize = 0;
    while i < unindexed.len()
        invariant
            i <= unindexed@.len(),
            views == crate::query::label_views(unindexed@),
            s@ == head + joined(views.subrange(0, i as int)),
        decreases unindexed@.len() - i,
    {
        assert(views.subrange(0, i + 1).drop_last() =~= views.subrange(0, i as int));
        if i > 0 {
            push_str(&mut s, ", ");
        } else {
            assert(views.subrange(0, 0) =~= Seq::<Seq<char>>::empty());
        }
        push_str(&mut s, unindexed[i].as_str());
        i = i + 1;
    }
    assert(views.subrange(0, unindexed@.len() as int) =~= views);
    s
}

} // verus!

verus! {

proof fn lemma_no_separator_base(s: Seq<char>)
    requires
        forall|k: int| 0 <= k < s.len() ==> !is_separator(#[trigger] s[k]),
    ensures
        base_start(s) == 0,
    decreases s.len(),
{
    if s.len() > 0 {
        lemma_no_separator_base(s.drop_last());
    }
}

proof fn lemma_base_has_no_separator(s: Seq<char>)
    ensures
        0 <= base_start(s) <= s.len(),
        forall|k: int| base_start(s) <= k < s.len() ==> !is_separator(#[trigger] s[k]),
    decreases s.len(),
{
    if s.len() > 0 && !is_separator(s.last()) {
        lemma_base_has_no_separator(s.drop_last());
        assert forall|k: int| base_start(s) <= k < s.len() implies !is_separator(#[trigger] s[k]) by {
            if k < s.len() - 1 {
                assert(s[k] == s.drop_last()[k]);
            }
        }
    }
}

proof fn lemma_suffix_bounds(s: Seq<char>)
    ensures
        0 <= suffix_start(s) <= s.len(),
    decreases s.len(),
{
    if s.len() > 0 && s.last() != '.' {
        lemma_suffix_bounds(s.drop_last());
    }
}

/// Every blob name the library gives an upload is a plain file name: the name check made
/// before a blob is served keeps it as it is, so what was stored under it can be read back.
pub proof fn lemma_stored_name_is_plain(item: UploadItem, client_name: Seq<char>, id: Seq<char>)
    requires
        is_resource_id(id),
        sanitized_name(client_name) is Some,
        item_matches(item, client_name, id),
    ensures
        sanitized_name(item.stored_name@) == Some(item.stored_name@),
{
    let name = sanitized_name(client_name)->0;
    lemma_base_has_no_separator(client_name);
    assert(name == base_component(client_name));
    let ext = blob_extension(name);
    assert forall|k: int| 0 <= k < ext.len() implies !is_separator(#[trigger] ext[k]) by {
        if extension_of(name) is Some && extension_of(name)->0.len() > 0 {
            lemma_suffix_bounds(name);
            let b = base_start(client_name);
            let j = suffix_start(name);
            assert(ext[k] == name[j + k]);
            assert(name[j + k] == client_name[b + j + k]);
        } else {
            reveal_strlit("bin");
        }
    }
    let s = item.stored_name@;
    assert(s == id + "."@ + ext);
    reveal_strlit(".");
    assert forall|k: int| 0 <= k < s.len() implies !is_separator(#[trigger] s[k]) by {
        if k < 36 {
            assert(s[k] == id[k]);
        } else if k == 36 {
            assert(s[k] == '.');
        } else {
            assert(s[k] == ext[k - 37]);
        }
    }
    lemma_no_separator_base(s);
    assert(base_component(s) =~= s);
    assert(s[0] == id[0]);
}

} // verus!

verus! {

/// The files of an upload request that reached the disk, and those among them whose record
/// the store did not take: a partial success, reported but not rolled back.
pub struct UploadReport {
    pub stored: Vec<String>,
    pub unindexed: Vec<String>,
}

impl UploadReport {
    pub fn new() -> (r: UploadReport)
        ensures
            r.stored@.len() == 0,
            r.unindexed@.len() == 0,
    {
        UploadReport { stored: Vec::new(), unindexed: Vec::new() }
    }

    /// Records a file written to disk; `indexed` tells whether the store took its record.
    pub fn record(&mut self, filename: String, indexed: bool)
        ensures
            final(self).stored@ == old(self).stored@.push(filename),
            final(self).unindexed@ == (if indexed {
                old(self).unindexed@
            } else {
                old(self).unindexed@.push(filename)
            }),
    {
        if !indexed {
            self.unindexed.push(filename.clone());
        }
        self.stored.push(filename);
    }
}

} // verus!

verus! {

/// The message of a finished upload: its summary, followed by the note on files whose record
/// the store did not take; `None` where no file was stored.
pub fn upload_message(report: &UploadReport) -> (r: Option<String>)
    ensures
        r is Some <==> report.stored@.len() > 0,
        r is Some ==> r->0@ == upload_summary_of(crate::query::label_views(report.stored@))->0
            + indexing_note_of(crate::query::label_views(report.unindexed@)),
{
    match upload_summary(report.stored.as_slice()) {
        Some(summary) => {
            let note = indexing_note(report.unindexed.as_slice());
            let mut s = summary;
            push_str(&mut s, note.as_str());
            Some(s)
        },
        None => None,
    }
}

} // verus!
