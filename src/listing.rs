//! Listing a container: its children as the store reports them, ordered with containers
//! first and then by label without regard to case.

use crate::json::{binding_value, opt_view, read_rows, row_count};
use crate::text::{chars_of, lower_of, lowercase};
use vstd::prelude::*;
use vstd::relations::{sorted_by, total_ordering};

verus! {

broadcast use vstd::seq_lib::group_to_multiset_ensures;

/// A child of a container.
pub struct DirEntry {
    pub label: String,
    pub is_dir: bool,
}

/// What the order of a listing looks at: the kind, the label folded to lower case, and the
/// label itself, which settles ties between labels that differ in case only.
pub struct EntryView {
    pub is_dir: bool,
    pub key: Seq<char>,
    pub label: Seq<char>,
}

pub open spec fn entry_view(e: DirEntry) -> EntryView {
    EntryView { is_dir: e.is_dir, key: lower_of(e.label@), label: e.label@ }
}

pub open spec fn entry_views(es: Seq<DirEntry>) -> Seq<EntryView> {
    es.map_values(|e: DirEntry| entry_view(e))
}

/// Lexicographic order of texts, by code point.
pub open spec fn lex_le(a: Seq<char>, b: Seq<char>) -> bool
    decreases a.len(),
{
    if a.len() == 0 {
        true
    } else if b.len() == 0 {
        false
    } else if a[0] != b[0] {
        (a[0] as u32) < (b[0] as u32)
    } else {
        lex_le(a.drop_first(), b.drop_first())
    }
}

/// The order of a listing: containers before files; then by folded label; then by label.
pub open spec fn listing_le(x: EntryView, y: EntryView) -> bool {
    if x.is_dir != y.is_dir {
        x.is_dir
    } else if x.key != y.key {
        lex_le(x.key, y.key)
    } else {
        lex_le(x.label, y.label)
    }
}

proof fn lemma_lex_reflexive(a: Seq<char>)
    ensures
        lex_le(a, a),
    decreases a.len(),
{
    if a.len() > 0 {
        lemma_lex_reflexive(a.drop_first());
    }
}

proof fn lemma_lex_antisymmetric(a: Seq<char>, b: Seq<char>)
    requires
        lex_le(a, b),
        lex_le(b, a),
    ensures
        a == b,
    decreases a.len(),
{
    if a.len() > 0 && b.len() > 0 && a[0] == b[0] {
        lemma_lex_antisymmetric(a.drop_first(), b.drop_first());
        assert forall|i: int| 0 <= i < a.len() implies a[i] == b[i] by {
            if i > 0 {
                assert(a[i] == a.drop_first()[i - 1]);
                assert(b[i] == b.drop_first()[i - 1]);
            }
        }
        assert(a =~= b);
    }
}

proof fn lemma_lex_transitive(a: Seq<char>, b: Seq<char>, c: Seq<char>)
    requires
        lex_le(a, b),
        lex_le(b, c),
    ensures
        lex_le(a, c),
    decreases a.len(),
{
    if a.len() > 0 && b.len() > 0 && c.len() > 0 && a[0] == b[0] && b[0] == c[0] {
        lemma_lex_transitive(a.drop_first(), b.drop_first(), c.drop_first());
    }
}

proof fn lemma_lex_total(a: Seq<char>, b: Seq<char>)
    ensures
        lex_le(a, b) || lex_le(b, a),
    decreases a.len(),
{
    if a.len() > 0 && b.len() > 0 {
        if a[0] == b[0] {
            lemma_lex_total(a.drop_first(), b.drop_first());
        } else {
            vstd::utf8::char_u32_cast(a[0], a[0] as u32);
            vstd::utf8::char_u32_cast(b[0], b[0] as u32);
        }
    }
}

/// The order of a listing is a total order.
pub proof fn lemma_listing_order_total()
    ensures
        total_ordering(|x: EntryView, y: EntryView| listing_le(x, y)),
{
    let leq = |x: EntryView, y: EntryView| listing_le(x, y);
    assert forall|x: EntryView| #[trigger] leq(x, x) by {
        lemma_lex_reflexive(x.label);
    }
    assert forall|x: EntryView, y: EntryView| #[trigger] leq(x, y) && #[trigger] leq(y, x) implies x == y by {
        if x.is_dir == y.is_dir {
            if x.key != y.key {
                lemma_lex_antisymmetric(x.key, y.key);
            } else {
                lemma_lex_antisymmetric(x.label, y.label);
            }
        }
    }
    assert forall|x: EntryView, y: EntryView, z: EntryView| #[trigger] leq(x, y) && #[trigger] leq(y, z) implies leq(x, z) by {
        if x.is_dir == y.is_dir && y.is_dir == z.is_dir {
            if x.key != y.key && y.key != z.key {
                lemma_lex_transitive(x.key, y.key, z.key);
                if x.key == z.key {
                    lemma_lex_antisymmetric(x.key, y.key);
                }
            } else if x.key == y.key && y.key == z.key {
                lemma_lex_transitive(x.label, y.label, z.label);
            }
        }
    }
    assert forall|x: EntryView, y: EntryView| #[trigger] leq(x, y) || #[trigger] leq(y, x) by {
        lemma_lex_total(x.key, y.key);
        lemma_lex_total(x.label, y.label);
    }
}

/// Whether `a` comes before `b` or equals it in lexicographic order.
fn lex_le_exec(a: &[char], b: &[char]) -> (r: bool)
    ensures
        r == lex_le(a@, b@),
{
    let mut i: usize = 0;
    assert(a@.subrange(0, a@.len() as int) =~= a@);
    assert(b@.subrange(0, b@.len() as int) =~= b@);
    while i < a.len() && i < b.len()
        invariant
            i <= a@.len(),
            i <= b@.len(),
            lex_le(a@, b@) == lex_le(a@.subrange(i as int, a@.len() as int), b@.subrange(i as int, b@.len() as int)),
        decreases a@.len() - i,
    {
        let ghost ra = a@.subrange(i as int, a@.len() as int);
        let ghost rb = b@.subrange(i as int, b@.len() as int);
        assert(ra[0] == a@[i as int]);
        assert(rb[0] == b@[i as int]);
        if a[i] != b[i] {
            return (a[i] as u32) < (b[i] as u32);
        }
        assert(ra.drop_first() =~= a@.subrange(i + 1, a@.len() as int));
        assert(rb.drop_first() =~= b@.subrange(i + 1, b@.len() as int));
        i = i + 1;
    }
    i == a.len()
}

/// An entry with the key it is ordered by: its label folded to lower case.
pub struct KeyedEntry {
    pub entry: DirEntry,
    pub key: String,
}

pub open spec fn keyed_entry_view(k: KeyedEntry) -> EntryView {
    EntryView { is_dir: k.entry.is_dir, key: k.key@, label: k.entry.label@ }
}

pub open spec fn keyed_entry_views(ks: Seq<KeyedEntry>) -> Seq<EntryView> {
    ks.map_values(|k: KeyedEntry| keyed_entry_view(k))
}

/// A keyed entry together with the characters the order compares.
struct Keyed {
    item: KeyedEntry,
    key: Vec<char>,
    label: Vec<char>,
}

impl Keyed {
    spec fn wf(&self) -> bool {
        self.key@ == self.item.key@ && self.label@ == self.item.entry.label@
    }

    spec fn ev(&self) -> EntryView {
        keyed_entry_view(self.item)
    }

    fn new(item: KeyedEntry) -> (r: Keyed)
        ensures
            r.wf(),
            r.item == item,
    {
        let key = chars_of(item.key.as_str());
        let label = chars_of(item.entry.label.as_str());
        Keyed { item, key, label }
    }

    fn le(&self, other: &Keyed) -> (r: bool)
        requires
            self.wf(),
            other.wf(),
        ensures
            r == listing_le(self.ev(), other.ev()),
    {
        if self.item.entry.is_dir != other.item.entry.is_dir {
            self.item.entry.is_dir
        } else if !crate::text::slices_eq(self.key.as_slice(), other.key.as_slice()) {
            lex_le_exec(self.key.as_slice(), other.key.as_slice())
        } else {
            lex_le_exec(self.label.as_slice(), other.label.as_slice())
        }
    }
}

spec fn keyed_views(ks: Seq<Keyed>) -> Seq<EntryView> {
    ks.map_values(|k: Keyed| k.ev())
}

impl KeyedEntry {
    /// A copy of this keyed entry.
    pub fn clone_keyed(&self) -> (r: KeyedEntry)
        ensures
            r == *self,
    {
        KeyedEntry { entry: self.entry.clone_entry(), key: self.key.clone() }
    }
}

/// The keyed entries in the order of a listing: containers first, then by key, then by
/// label.
pub fn sort_keyed(entries: &[KeyedEntry]) -> (r: Vec<KeyedEntry>)
    ensures
        keyed_entry_views(r@) == keyed_entry_views(entries@).sort_by(listing_order()),
{
    let ghost leq = listing_order();
    proof {
        lemma_listing_order_total();
    }
    let ghost input = keyed_entry_views(entries@);
    let mut out: Vec<Keyed> = Vec::new();
    let mut i: usize = 0;
    while i < entries.len()
        invariant
            i <= entries@.len(),
            leq == listing_order(),
            total_ordering(leq),
            input == keyed_entry_views(entries@),
            forall|k: int| 0 <= k < out@.len() ==> (#[trigger] out@[k]).wf(),
            sorted_by(keyed_views(out@), leq),
            keyed_views(out@).to_multiset() == input.subrange(0, i as int).to_multiset(),
        decreases entries@.len() - i,
    {
        let x = Keyed::new(entries[i].clone_keyed());
        let mut j: usize = 0;
        while j < out.len() && out[j].le(&x)
            invariant
                j <= out@.len(),
                leq == listing_order(),
                x.wf(),
                forall|k: int| 0 <= k < out@.len() ==> (#[trigger] out@[k]).wf(),
                forall|k: int| 0 <= k < j ==> leq(#[trigger] keyed_views(out@)[k], x.ev()),
            decreases out@.len() - j,
        {
            assert(keyed_views(out@)[j as int] == out@[j as int].ev());
            j = j + 1;
        }
        let ghost before = keyed_views(out@);
        let ghost xv = x.ev();
        proof {
            if j < before.len() {
                assert(before[j as int] == out@[j as int].ev());
                assert(!leq(before[j as int], xv));
            }
            lemma_insert_sorted(before, xv, j as int, leq);
            assert(input.subrange(0, i + 1) =~= input.subrange(0, i as int).push(xv));
        }
        out.insert(j, x);
        proof {
            assert(keyed_views(out@) =~= before.insert(j as int, xv));
            vstd::seq_lib::to_multiset_insert(before, j as int, xv);
        }
        i = i + 1;
    }
    let mut result: Vec<KeyedEntry> = Vec::new();
    let mut k: usize = 0;
    while k < out.len()
        invariant
            k <= out@.len(),
            result@.len() == k,
            forall|m: int| 0 <= m < k ==> keyed_entry_view(#[trigger] result@[m]) == keyed_views(out@)[m],
        decreases out@.len() - k,
    {
        result.push(out[k].item.clone_keyed());
        k = k + 1;
    }
    proof {
        assert(keyed_entry_views(result@) =~= keyed_views(out@));
        assert(input.subrange(0, input.len() as int) =~= input);
        input.lemma_sort_by_ensures(leq);
        vstd::seq_lib::lemma_sorted_unique(keyed_views(out@), input.sort_by(leq), leq);
    }
    result
}

/// Every entry view of `s` carries its label folded to lower case as its key.
spec fn keys_folded(s: Seq<EntryView>) -> bool {
    forall|m: int| 0 <= m < s.len() ==> (#[trigger] s[m]).key == lower_of(s[m].label)
}

/// The entries in the order of a listing: containers first, then by label without regard
/// to case, then by label.
pub fn sort_entries(entries: &[DirEntry]) -> (r: Vec<DirEntry>)
    ensures
        entry_views(r@) == entry_views(entries@).sort_by(listing_order()),
{
    let mut keyed: Vec<KeyedEntry> = Vec::new();
    let mut i: usize = 0;
    while i < entries.len()
        invariant
            i <= entries@.len(),
            keyed@.len() == i,
            forall|m: int| 0 <= m < i ==> keyed_entry_view(#[trigger] keyed@[m]) == entry_view(entries@[m]),
        decreases entries@.len() - i,
    {
        let e = entries[i].clone_entry();
        let key = lowercase(e.label.as_str());
        keyed.push(KeyedEntry { entry: e, key });
        i = i + 1;
    }
    assert(keyed_entry_views(keyed@) =~= entry_views(entries@));
    let sorted = sort_keyed(keyed.as_slice());
    let ghost input = entry_views(entries@);
    let ghost out = input.sort_by(listing_order());
    proof {
        lemma_listing_order_total();
        input.lemma_sort_by_ensures(listing_order());
        assert forall|m: int| 0 <= m < out.len() implies (#[trigger] out[m]).key == lower_of(out[m].label) by {
            assert(out.contains(out[m]));
            if !input.contains(out[m]) {
                assert(!out.contains(out[m]));
            }
            let n = choose|n: int| 0 <= n < input.len() && input[n] == out[m];
            assert(input[n] == entry_view(entries@[n]));
        }
    }
    let mut result: Vec<DirEntry> = Vec::new();
    let mut k: usize = 0;
    while k < sorted.len()
        invariant
            k <= sorted@.len(),
            keyed_entry_views(sorted@) == out,
            keys_folded(out),
            result@.len() == k,
            forall|m: int| 0 <= m < k ==> entry_view(#[trigger] result@[m]) == out[m],
        decreases sorted@.len() - k,
    {
        assert(keyed_entry_view(sorted@[k as int]) == out[k as int]);
        result.push(sorted[k].entry.clone_entry());
        k = k + 1;
    }
    assert(entry_views(result@) =~= out);
    result
}

impl DirEntry {
    /// A copy of this entry.
    pub fn clone_entry(&self) -> (r: DirEntry)
        ensures
            r == *self,
    {
        DirEntry { label: self.label.clone(), is_dir: self.is_dir }
    }
}

proof fn lemma_insert_sorted(s: Seq<EntryView>, x: EntryView, j: int, leq: spec_fn(EntryView, EntryView) -> bool)
    requires
        total_ordering(leq),
        sorted_by(s, leq),
        0 <= j <= s.len(),
        forall|k: int| 0 <= k < j ==> leq(#[trigger] s[k], x),
        j < s.len() ==> !leq(s[j], x),
    ensures
        sorted_by(s.insert(j, x), leq),
{
    let t = s.insert(j, x);
    if j < s.len() {
        assert(leq(x, s[j]));
    }
    assert forall|a: int, b: int| 0 <= a < b < t.len() implies #[trigger] leq(t[a], t[b]) by {
        if b < j {
            assert(leq(s[a], s[b]));
        } else if b == j {
            assert(leq(s[a], x));
        } else if a < j {
            assert(leq(s[a], x));
            assert(leq(x, s[j]));
            if b - 1 > j {
                assert(leq(s[j], s[b - 1]));
            }
        } else if a == j {
            if b - 1 > j {
                assert(leq(s[j], s[b - 1]));
            }
        } else {
            assert(leq(s[a - 1], s[b - 1]));
        }
    }
}

} // verus!

verus! {

/// The order of a listing, as a function.
pub open spec fn listing_order() -> spec_fn(EntryView, EntryView) -> bool {
    |x: EntryView, y: EntryView| listing_le(x, y)
}

/// The entry that row `i` of a children document reports: its label, and whether its
/// `isDir` value is `true`; `None` where the row has no label.
pub open spec fn entry_of_row(doc: Seq<char>, i: int) -> Option<EntryView> {
    match binding_value(doc, i, "label"@) {
        Some(l) => Some(
            EntryView { is_dir: binding_value(doc, i, "isDir"@) == Some("true"@), key: lower_of(l), label: l },
        ),
        None => None,
    }
}

/// The entries that the first `n` rows of a children document report, in row order.
pub open spec fn entries_upto(doc: Seq<char>, n: int) -> Seq<EntryView>
    decreases n,
{
    if n <= 0 {
        Seq::empty()
    } else {
        match entry_of_row(doc, n - 1) {
            Some(e) => entries_upto(doc, n - 1).push(e),
            None => entries_upto(doc, n - 1),
        }
    }
}

/// The entries that a children document reports.
pub open spec fn entries_of(doc: Seq<char>) -> Seq<EntryView> {
    entries_upto(doc, row_count(doc) as int)
}

/// The entries that a children document reports, in row order; rows without a label are
/// left out.
pub fn children_from_document(doc: &str) -> (r: Vec<DirEntry>)
    ensures
        entry_views(r@) == entries_of(doc@),
{
    let vars: [&str; 2] = ["label", "isDir"];
    let rows = read_rows(doc, vars.as_slice());
    proof {
        reveal_strlit("label");
        reveal_strlit("isDir");
    }
    assert(vars@[0]@ == "label"@);
    assert(vars@[1]@ == "isDir"@);
    let mut out: Vec<DirEntry> = Vec::new();
    let mut i: usize = 0;
    while i < rows.len()
        invariant
            i <= rows@.len(),
            rows@.len() == row_count(doc@),
            vars@[0]@ == "label"@,
            vars@[1]@ == "isDir"@,
            forall|k: int|
                0 <= k < rows@.len() ==> (#[trigger] rows@[k])@.len() == 2 && forall|j: int|
                    0 <= j < 2 ==> opt_view(#[trigger] rows@[k]@[j]) == binding_value(doc@, k, vars@[j]@),
            entry_views(out@) == entries_upto(doc@, i as int),
        decreases rows@.len() - i,
    {
        let row = &rows[i];
        assert(opt_view(row@[0]) == binding_value(doc@, i as int, "label"@));
        assert(opt_view(row@[1]) == binding_value(doc@, i as int, "isDir"@));
        match &row[0] {
            Some(label) => {
                let is_dir = match &row[1] {
                    Some(d) => crate::text::chars_eq(d.as_str(), "true"),
                    None => false,
                };
                let e = DirEntry { label: label.clone(), is_dir };
                out.push(e);
                assert(entry_views(out@) =~= entry_views(out@.drop_last()).push(entry_view(e)));
            },
            None => {},
        }
        i = i + 1;
    }
    out
}

/// The immediate children of a container, from the store's answer to the children query,
/// containers first and then by label without regard to case.
pub fn list_children(doc: &str) -> (r: Vec<DirEntry>)
    ensures
        entry_views(r@) == entries_of(doc@).sort_by(listing_order()),
{
    let entries = children_from_document(doc);
    sort_entries(entries.as_slice())
}

/// A listing depends only on which children are reported, not on the order the store
/// reports them in: two answers for an unchanged container give the same sequence.
pub proof fn lemma_listing_is_canonical(a: Seq<EntryView>, b: Seq<EntryView>)
    requires
        a.to_multiset() == b.to_multiset(),
    ensures
        a.sort_by(listing_order()) == b.sort_by(listing_order()),
{
    lemma_listing_order_total();
    a.lemma_sort_by_ensures(listing_order());
    b.lemma_sort_by_ensures(listing_order());
    vstd::seq_lib::lemma_sorted_unique(a.sort_by(listing_order()), b.sort_by(listing_order()), listing_order());
}

/// Listing the same answer twice gives the same sequence, and a listing is already in
/// order: listing its own entries again changes nothing.
pub proof fn lemma_listing_is_idempotent(doc: Seq<char>)
    ensures
        entries_of(doc).sort_by(listing_order()).sort_by(listing_order()) == entries_of(doc).sort_by(
            listing_order(),
        ),
{
    let s = entries_of(doc).sort_by(listing_order());
    lemma_listing_order_total();
    entries_of(doc).lemma_sort_by_ensures(listing_order());
    s.lemma_sort_by_ensures(listing_order());
    vstd::seq_lib::lemma_sorted_unique(s.sort_by(listing_order()), s, listing_order());
}

} // verus!

verus! {

/// The listing from the store's answer to the children query; `None` where the store failed
/// (`response` is `None`) or its answer is not JSON.
pub fn listing_from_response(response: &Option<String>) -> (r: Option<Vec<DirEntry>>)
    ensures
        r is Some <==> (response is Some && crate::json::json_node_of(response->0@) is Some),
        r is Some ==> entry_views(r->0@) == entries_of(response->0@).sort_by(listing_order()),
{
    match response {
        Some(doc) => if crate::json::json_is_valid(doc.as_str()) {
            Some(list_children(doc.as_str()))
        } else {
            None
        },
        None => None,
    }
}

} // verus!
