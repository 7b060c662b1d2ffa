//! The reload script, its injection into HTML documents, and the ordering
//! of directory listings.

use crate::text::chars_of;
use crate::text::catenate;
use crate::text::decimal;
use crate::text::decimal_text;
use vstd::prelude::*;
use vstd::string::StringSliceAdditionalSpecFns;

verus! {

/// The script that makes a page reload when the server reports a change.
pub const RELOAD_SCRIPT: &'static str =
    "new EventSource(\"/.http-server-rs/reload\").onmessage = () => window.location.reload();";

/// The script that makes a page reload when the server reports a change.
pub fn reload_script() -> (script: &'static str)
    ensures
        script@ == RELOAD_SCRIPT@,
{
    RELOAD_SCRIPT
}

/// Whether `needle` stands in `hay` at place `i`.
pub open spec fn occurs_at(hay: Seq<u8>, needle: Seq<u8>, i: int) -> bool {
    0 <= i && i + needle.len() <= hay.len() && hay.subrange(i, i + needle.len()) == needle
}

/// Whether place `i` is the first at which `needle` stands in `hay`.
pub open spec fn first_at(hay: Seq<u8>, needle: Seq<u8>, i: int) -> bool {
    occurs_at(hay, needle, i) && forall|j: int| 0 <= j < i ==> !occurs_at(hay, needle, j)
}

/// Whether `needle` stands anywhere in `hay`.
pub open spec fn occurs(hay: Seq<u8>, needle: Seq<u8>) -> bool {
    exists|i: int| occurs_at(hay, needle, i)
}

/// Whether `needle` stands in `hay` at place `i`.
fn matches_at(hay: &[u8], needle: &[u8], i: usize) -> (yes: bool)
    requires
        i + needle@.len() <= hay@.len(),
    ensures
        yes == occurs_at(hay@, needle@, i as int),
{
    let n: usize = hay.len();
    let mut k: usize = 0;
    while k < needle.len()
        invariant
            k <= needle@.len(),
            n == hay@.len(),
            i + needle@.len() <= hay@.len(),
            forall|j: int| 0 <= j < k ==> hay@[i + j] == needle@[j],
        decreases needle@.len() - k,
    {
        if hay[i + k] != needle[k] {
            assert(hay@.subrange(i as int, i + needle@.len())[k as int] != needle@[k as int]);
            return false;
        }
        k = k + 1;
    }
    assert(hay@.subrange(i as int, i + needle@.len()) =~= needle@);
    true
}

/// The first place at which `needle` stands in `hay`.
pub fn find(hay: &[u8], needle: &[u8]) -> (place: Option<usize>)
    ensures
        match place {
            Some(i) => first_at(hay@, needle@, i as int),
            None => !occurs(hay@, needle@),
        },
{
    if needle.len() > hay.len() {
        return None;
    }
    let last: usize = hay.len() - needle.len();
    let mut i: usize = 0;
    loop
        invariant
            i <= last,
            last == hay@.len() - needle@.len(),
            forall|j: int| 0 <= j < i ==> !occurs_at(hay@, needle@, j),
        decreases last - i,
    {
        if matches_at(hay, needle, i) {
            return Some(i);
        }
        if i == last {
            return None;
        }
        i = i + 1;
    }
}

/// `doc` with `insert` put in before place `at`.
pub open spec fn spliced(doc: Seq<u8>, at: int, insert: Seq<u8>) -> Seq<u8> {
    doc.take(at) + insert + doc.skip(at)
}

/// The script wrapped in a `script` element.
pub open spec fn script_element(script: Seq<char>) -> Seq<u8> {
    "<script>".spec_bytes() + vstd::utf8::encode_utf8(script) + "</script>".spec_bytes()
}

/// The script element on a line of its own.
pub open spec fn script_line(script: Seq<char>) -> Seq<u8> {
    "\n".spec_bytes() + script_element(script) + "\n".spec_bytes()
}

/// `doc` with `insert` put in right after the first `tag`.
pub open spec fn inserted_after(doc: Seq<u8>, tag: Seq<u8>, insert: Seq<u8>) -> Seq<u8> {
    spliced(doc, (choose|i: int| first_at(doc, tag, i)) + tag.len(), insert)
}

/// The document with the script spliced in: right after the first
/// `<head>`; without one, right after the first `<body>`; without either,
/// at the end.
pub open spec fn injected(doc: Seq<u8>, script: Seq<char>) -> Seq<u8> {
    if occurs(doc, "<head>".spec_bytes()) {
        inserted_after(doc, "<head>".spec_bytes(), script_line(script))
    } else if occurs(doc, "<body>".spec_bytes()) {
        inserted_after(doc, "<body>".spec_bytes(), script_line(script))
    } else {
        doc + script_element(script)
    }
}

/// The first place of a needle in a haystack is a single one.
pub proof fn lemma_first_at_unique(hay: Seq<u8>, needle: Seq<u8>, i: int, j: int)
    requires
        first_at(hay, needle, i),
        first_at(hay, needle, j),
    ensures
        i == j,
{
    if i < j {
        assert(!occurs_at(hay, needle, i));
    }
    if j < i {
        assert(!occurs_at(hay, needle, j));
    }
}

/// Puts `insert` into `doc` right after the `tag` that stands at `at`.
fn insert_after(doc: &[u8], tag: &[u8], at: usize, insert: &Vec<u8>) -> (out: Vec<u8>)
    requires
        first_at(doc@, tag@, at as int),
    ensures
        out@ == inserted_after(doc@, tag@, insert@),
{
    let n: usize = doc.len();
    assert(at + tag@.len() <= n);
    let cut: usize = at + tag.len();
    let mut out: Vec<u8> = Vec::new();
    let mut i: usize = 0;
    while i < cut
        invariant
            i <= cut <= doc@.len(),
            out@ == doc@.take(i as int),
        decreases cut - i,
    {
        out.push(doc[i]);
        assert(doc@.take(i + 1) =~= doc@.take(i as int).push(doc@[i as int]));
        i = i + 1;
    }
    out.extend_from_slice(insert.as_slice());
    let ghost front = out@;
    while i < doc.len()
        invariant
            cut <= i <= doc@.len(),
            out@ == front + doc@.subrange(cut as int, i as int),
        decreases doc@.len() - i,
    {
        out.push(doc[i]);
        assert(doc@.subrange(cut as int, i + 1) =~= doc@.subrange(cut as int, i as int).push(
            doc@[i as int],
        ));
        i = i + 1;
    }
    proof {
        let k = choose|k: int| first_at(doc@, tag@, k);
        lemma_first_at_unique(doc@, tag@, at as int, k);
        assert(doc@.subrange(cut as int, doc@.len() as int) =~= doc@.skip(cut as int));
    }
    out
}

/// The script wrapped in a `script` element.
fn element_of(script: &str) -> (element: Vec<u8>)
    ensures
        element@ == script_element(script@),
{
    let mut element: Vec<u8> = "<script>".as_bytes_vec();
    element.extend_from_slice(script.as_bytes());
    element.extend_from_slice("</script>".as_bytes());
    element
}

/// Splices `script` into the HTML document `doc`: right after the first
/// `<head>`; without one, right after the first `<body>`; without either,
/// at the end.
pub fn inject(doc: &[u8], script: &str) -> (out: Vec<u8>)
    ensures
        out@ == injected(doc@, script@),
{
    let element = element_of(script);
    let head = "<head>".as_bytes();
    let body = "<body>".as_bytes();
    match find(doc, head) {
        Some(at) => {
            let mut line: Vec<u8> = "\n".as_bytes_vec();
            line.extend_from_slice(element.as_slice());
            line.extend_from_slice("\n".as_bytes());
            insert_after(doc, head, at, &line)
        },
        None => match find(doc, body) {
            Some(at) => {
                let mut line: Vec<u8> = "\n".as_bytes_vec();
                line.extend_from_slice(element.as_slice());
                line.extend_from_slice("\n".as_bytes());
                insert_after(doc, body, at, &line)
            },
            None => {
                let mut out = vstd::slice::slice_to_vec(doc);
                out.extend_from_slice(element.as_slice());
                out
            },
        },
    }
}

/// The text in which `unix_mode` writes the file mode `mode`.
pub uninterp spec fn mode_text(mode: u32) -> Seq<char>;

/// `text` as std's `str::to_lowercase` writes it.
pub uninterp spec fn lowercased(text: Seq<char>) -> Seq<char>;

/// Calls `to_string` of the unix_mode crate, which writes a file mode the
/// way `ls -l` does. The result is named, not described.
#[verifier::external_body]
fn mode_to_string(mode: u32) -> (text: String)
    ensures
        text@ == mode_text(mode),
{
    unix_mode::to_string(mode)
}

/// Calls std's `str::to_lowercase`. The result is named, not described.
#[verifier::external_body]
fn to_lowercase(text: &str) -> (lower: String)
    ensures
        lower@ == lowercased(text@),
{
    text.to_lowercase()
}

/// The mode of a file as a listing shows it.
pub fn get_meta_mode(mode: u32) -> (text: String)
    ensures
        text@ == mode_text(mode),
{
    mode_to_string(mode)
}

/// The size of a file as a listing shows it: in thousands of bytes from
/// one thousand on, in bytes below.
pub open spec fn size_text(size: u64) -> Seq<char> {
    if size >= 1000 {
        decimal_text((size / 1000) as nat) + " kb"@
    } else {
        decimal_text(size as nat) + " b "@
    }
}

/// The size of a file as a listing shows it.
pub fn get_meta_size(size: u64) -> (text: String)
    ensures
        text@ == size_text(size),
{
    if size >= 1000 {
        let digits = decimal(size / 1000);
        catenate(digits.as_str(), " kb")
    } else {
        let digits = decimal(size);
        catenate(digits.as_str(), " b ")
    }
}

/// One line of a directory listing.
pub struct ListingEntry {
    pub is_dir: bool,
    pub extension: String,
    pub mode: String,
    pub modified: String,
    pub size: String,
    pub abs_path: String,
    pub rel_path: String,
}

/// Whether `a` comes strictly before `b` when texts are ordered character
/// by character, a proper prefix before its extensions.
pub open spec fn comes_before(a: Seq<char>, b: Seq<char>) -> bool
    decreases a.len(),
{
    if b.len() == 0 {
        false
    } else if a.len() == 0 {
        true
    } else if a[0] == b[0] {
        comes_before(a.skip(1), b.skip(1))
    } else {
        (a[0] as u32) < (b[0] as u32)
    }
}

/// Whether `a` comes strictly before `b`.
pub fn precedes(a: &Vec<char>, b: &Vec<char>) -> (yes: bool)
    ensures
        yes == comes_before(a@, b@),
{
    let mut i: usize = 0;
    assert(a@.skip(0) =~= a@ && b@.skip(0) =~= b@);
    loop
        invariant
            i <= a@.len(),
            i <= b@.len(),
            comes_before(a@, b@) == comes_before(a@.skip(i as int), b@.skip(i as int)),
        decreases a@.len() - i,
    {
        if i >= b.len() {
            return false;
        }
        if i >= a.len() {
            return true;
        }
        if a[i] != b[i] {
            return (a[i] as u32) < (b[i] as u32);
        }
        assert(a@.skip(i as int).skip(1) =~= a@.skip(i + 1));
        assert(b@.skip(i as int).skip(1) =~= b@.skip(i + 1));
        i = i + 1;
    }
}

/// What a listing is ordered by: the relative path in small letters.
pub open spec fn sort_key(entry: ListingEntry) -> Seq<char> {
    lowercased(entry.rel_path@)
}

/// The place at or after `from` at which an entry with the given key goes
/// into an ordered listing: before the first entry that does not come
/// before it.
pub open spec fn slot_from(listing: Seq<ListingEntry>, key: Seq<char>, from: int) -> int
    decreases listing.len() - from,
{
    if from < 0 || from >= listing.len() {
        listing.len() as int
    } else if comes_before(sort_key(listing[from]), key) {
        slot_from(listing, key, from + 1)
    } else {
        from
    }
}

/// The ordered listing with one more entry put in at its place.
pub open spec fn placed(listing: Seq<ListingEntry>, entry: ListingEntry) -> Seq<ListingEntry> {
    listing.insert(slot_from(listing, sort_key(entry), 0), entry)
}

/// The entries ordered by their keys, entries with the same key in the
/// order in which they came.
pub open spec fn in_order(entries: Seq<ListingEntry>) -> Seq<ListingEntry>
    decreases entries.len(),
{
    if entries.len() == 0 {
        Seq::empty()
    } else {
        placed(in_order(entries.skip(1)), entries[0])
    }
}

/// No text comes before itself, and of two texts at most one comes before
/// the other.
pub proof fn lemma_comes_before_asymmetric(a: Seq<char>, b: Seq<char>)
    requires
        comes_before(a, b),
    ensures
        !comes_before(b, a),
        a != b,
    decreases a.len(),
{
    if a.len() > 0 && b.len() > 0 && a[0] == b[0] {
        lemma_comes_before_asymmetric(a.skip(1), b.skip(1));
        if a == b {
            assert(a.skip(1) == b.skip(1));
        }
    }
}

/// Of two different texts one comes before the other.
pub proof fn lemma_comes_before_total(a: Seq<char>, b: Seq<char>)
    ensures
        comes_before(a, b) || a == b || comes_before(b, a),
    decreases a.len(),
{
    if a.len() == 0 || b.len() == 0 {
        if a.len() == 0 && b.len() == 0 {
            assert(a =~= b);
        }
    } else if a[0] == b[0] {
        lemma_comes_before_total(a.skip(1), b.skip(1));
        if a.skip(1) == b.skip(1) {
            assert forall|i: int| 0 <= i < a.len() implies a[i] == b[i] by {
                if i > 0 {
                    assert(a.skip(1)[i - 1] == b.skip(1)[i - 1]);
                }
            }
            assert(a.skip(1).len() == b.skip(1).len());
            assert(a =~= b);
        }
    } else {
        vstd::utf8::char_u32_cast(a[0], a[0] as u32);
        vstd::utf8::char_u32_cast(b[0], b[0] as u32);
    }
}

/// What comes before a text comes before everything the text comes before.
pub proof fn lemma_comes_before_transitive(a: Seq<char>, b: Seq<char>, c: Seq<char>)
    requires
        comes_before(a, b),
        comes_before(b, c),
    ensures
        comes_before(a, c),
    decreases a.len(),
{
    if a.len() > 0 && b.len() > 0 && c.len() > 0 && a[0] == b[0] && b[0] == c[0] {
        lemma_comes_before_transitive(a.skip(1), b.skip(1), c.skip(1));
    }
}

/// Whether no entry of the listing comes before an earlier one.
pub open spec fn ordered(listing: Seq<ListingEntry>) -> bool {
    forall|i: int, j: int|
        0 <= i < j < listing.len() ==> !comes_before(
            sort_key(#[trigger] listing[j]),
            sort_key(#[trigger] listing[i]),
        )
}

/// The place of an entry in a listing lies behind every entry that comes
/// before it, and in front of one that does not.
pub proof fn lemma_slot(listing: Seq<ListingEntry>, key: Seq<char>, from: int)
    requires
        0 <= from <= listing.len(),
    ensures
        from <= slot_from(listing, key, from) <= listing.len(),
        forall|k: int|
            from <= k < slot_from(listing, key, from) ==> comes_before(
                sort_key(#[trigger] listing[k]),
                key,
            ),
        slot_from(listing, key, from) < listing.len() ==> !comes_before(
            sort_key(listing[slot_from(listing, key, from)]),
            key,
        ),
    decreases listing.len() - from,
{
    if from < listing.len() && comes_before(sort_key(listing[from]), key) {
        lemma_slot(listing, key, from + 1);
    }
}

/// Putting an entry at its place keeps an ordered listing ordered.
pub proof fn lemma_placed_ordered(listing: Seq<ListingEntry>, entry: ListingEntry)
    requires
        ordered(listing),
    ensures
        ordered(placed(listing, entry)),
{
    let key = sort_key(entry);
    let at = slot_from(listing, key, 0);
    let out = placed(listing, entry);
    lemma_slot(listing, key, 0);
    assert forall|i: int, j: int| 0 <= i < j < out.len() implies !comes_before(
        sort_key(#[trigger] out[j]),
        sort_key(#[trigger] out[i]),
    ) by {
        if j < at {
            assert(out[i] == listing[i] && out[j] == listing[j]);
        } else if j == at {
            assert(out[i] == listing[i]);
            assert(comes_before(sort_key(listing[i]), key));
            lemma_comes_before_asymmetric(sort_key(listing[i]), key);
        } else if i < at {
            assert(out[i] == listing[i] && out[j] == listing[j - 1]);
        } else if i == at {
            assert(out[j] == listing[j - 1]);
            let first = sort_key(listing[at]);
            let later = sort_key(listing[j - 1]);
            assert(!comes_before(first, key));
            if j - 1 > at {
                assert(!comes_before(sort_key(listing[j - 1]), sort_key(listing[at])));
            }
            if comes_before(later, key) {
                lemma_comes_before_total(first, later);
                lemma_comes_before_total(first, key);
                if comes_before(first, later) {
                    lemma_comes_before_transitive(first, later, key);
                } else if comes_before(key, first) {
                    lemma_comes_before_transitive(later, key, first);
                }
            }
        } else {
            assert(out[i] == listing[i - 1] && out[j] == listing[j - 1]);
        }
    }
}

/// Ordering a listing gives the same entries, each as often as before, with
/// none before an earlier one.
pub proof fn lemma_in_order(entries: Seq<ListingEntry>)
    ensures
        ordered(in_order(entries)),
        in_order(entries).to_multiset() == entries.to_multiset(),
        in_order(entries).len() == entries.len(),
    decreases entries.len(),
{
    if entries.len() == 0 {
        assert(entries =~= Seq::empty());
    } else {
        let rest = entries.skip(1);
        let sorted = in_order(rest);
        lemma_in_order(rest);
        lemma_placed_ordered(sorted, entries[0]);
        lemma_slot(sorted, sort_key(entries[0]), 0);
        vstd::seq_lib::to_multiset_insert(sorted, slot_from(sorted, sort_key(entries[0]), 0), entries[0]);
        vstd::seq_lib::to_multiset_insert(rest, 0, entries[0]);
        assert(rest.insert(0, entries[0]) =~= entries);
    }
}

/// Orders the entries of a listing by their relative paths without regard
/// to case. Entries whose paths differ only in case keep their order.
pub fn sort_entries(entries: Vec<ListingEntry>) -> (sorted: Vec<ListingEntry>)
    ensures
        sorted@ == in_order(entries@),
        ordered(sorted@),
        sorted@.to_multiset() == entries@.to_multiset(),
{
    let ghost all = entries@;
    let mut rest = entries;
    let mut sorted: Vec<ListingEntry> = Vec::new();
    let mut keys: Vec<Vec<char>> = Vec::new();
    assert(all.skip(all.len() as int) =~= Seq::empty());
    while rest.len() > 0
        invariant
            rest@ == all.take(rest@.len() as int),
            rest@.len() <= all.len(),
            sorted@ == in_order(all.skip(rest@.len() as int)),
            keys@.len() == sorted@.len(),
            forall|i: int| 0 <= i < keys@.len() ==> (#[trigger] keys@[i])@ == sort_key(sorted@[i]),
        decreases rest@.len(),
    {
        let ghost n = rest@.len();
        let entry = rest.pop().unwrap();
        let lower = to_lowercase(entry.rel_path.as_str());
        let key = chars_of(lower.as_str());
        let mut at: usize = 0;
        while at < sorted.len() && precedes(&keys[at], &key)
            invariant
                at <= sorted@.len(),
                keys@.len() == sorted@.len(),
                forall|i: int|
                    0 <= i < keys@.len() ==> (#[trigger] keys@[i])@ == sort_key(sorted@[i]),
                slot_from(sorted@, key@, 0) == slot_from(sorted@, key@, at as int),
            decreases sorted@.len() - at,
        {
            at = at + 1;
        }
        proof {
            assert(entry == all[n - 1]);
            assert(all.skip(n - 1)[0] == entry);
            assert(all.skip(n - 1).skip(1) =~= all.skip(n as int));
            assert(rest@ =~= all.take(n - 1));
            assert(slot_from(sorted@, key@, 0) == at);
        }
        sorted.insert(at, entry);
        keys.insert(at, key);
    }
    proof {
        assert(all.skip(0) =~= all);
        lemma_in_order(all);
    }
    sorted
}

} // verus!
