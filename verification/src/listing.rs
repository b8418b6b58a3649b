//! The notes of a map laid out in order of identifier, and the pages cut from
//! that listing.

use crate::text::{
    keys_ascend, lemma_before_asymmetric, lemma_before_connected, lemma_before_irreflexive,
    lemma_before_transitive, lists, text_before, Entry, Text,
};
use vstd::prelude::*;

verus! {

/// The largest number of entries on a page.
pub const MAX_PER_PAGE: u32 = 10;

/// The notes of a map as one sequence of entries, in ascending order of
/// identifier.
pub open spec fn listing(notes: Map<Text, Text>) -> Seq<Entry> {
    choose|entries: Seq<Entry>| lists(entries, notes)
}

/// The page number that a request for `page_number` is served with: pages
/// count from one, and a request for page zero gets the first.
pub open spec fn page_number_used(page_number: u32) -> int {
    if page_number == 0 {
        1
    } else {
        page_number as int
    }
}

/// The page size that a request for `per_page` entries is served with: at
/// least one entry, at most [`MAX_PER_PAGE`].
pub open spec fn per_page_used(per_page: u32) -> int {
    if per_page == 0 {
        1
    } else if per_page > MAX_PER_PAGE {
        MAX_PER_PAGE as int
    } else {
        per_page as int
    }
}

/// The number of entries that lie before page `page_number` when pages hold
/// `per_page` entries each.
pub open spec fn entries_before_page(page_number: int, per_page: int) -> int {
    (page_number - 1) * per_page
}

/// Page `page_number` of `entries`, with `per_page` entries to the page: what
/// is left of the next `per_page` entries once those of the earlier pages are
/// passed over.
pub open spec fn page_of(entries: Seq<Entry>, page_number: int, per_page: int) -> Seq<Entry> {
    let len = entries.len() as int;
    let before = entries_before_page(page_number, per_page);
    let start = if before < len {
        before
    } else {
        len
    };
    let end = if start + per_page < len {
        start + per_page
    } else {
        len
    };
    entries.subrange(start, end)
}

/// The page of a map's notes that a request for `page_number` and `per_page`
/// is answered with.
pub open spec fn page(notes: Map<Text, Text>, page_number: u32, per_page: u32) -> Seq<Entry> {
    page_of(listing(notes), page_number_used(page_number), per_page_used(per_page))
}

/// The number of pages that `len` entries fill, or begin to fill, with
/// `per_page` entries to the page.
pub open spec fn page_count(len: int, per_page: int) -> int {
    (len + per_page - 1) / per_page
}

/// The pages of a map's notes from the first to page `last`, one after the
/// other, as requests for `per_page` entries are answered.
pub open spec fn pages_through(notes: Map<Text, Text>, per_page: u32, last: int) -> Seq<Entry>
    decreases last,
{
    if last <= 0 {
        Seq::empty()
    } else {
        pages_through(notes, per_page, last - 1) + page(notes, last as u32, per_page)
    }
}

/// Two listings of one map agree on the identifiers of their first `n` entries.
proof fn lemma_lists_agree_below(a: Seq<Entry>, b: Seq<Entry>, notes: Map<Text, Text>, n: int)
    requires
        lists(a, notes),
        lists(b, notes),
        0 <= n <= a.len(),
        n <= b.len(),
    ensures
        forall|i: int| 0 <= i < n ==> a[i].0 == b[i].0,
    decreases n,
{
    if n > 0 {
        let m = n - 1;
        lemma_lists_agree_below(a, b, notes, m);
        // Each list holds the other's entry `m` somewhere: `b` at `j`, `a` at `l`.
        let j = choose|j: int| 0 <= j < b.len() && b[j].0 == a[m].0;
        let l = choose|l: int| 0 <= l < a.len() && a[l].0 == b[m].0;
        if j < m {
            // `a[m]` would stand in `a` at `j` too, before itself.
            lemma_before_irreflexive(a[m].0);
        } else if l < m {
            lemma_before_irreflexive(b[m].0);
        } else if j > m && l > m {
            // Each of the two entries would come before the other.
            lemma_before_asymmetric(a[m].0, b[m].0);
        }
    }
}

/// A listing is no longer than another listing of the same map.
proof fn lemma_lists_no_longer(a: Seq<Entry>, b: Seq<Entry>, notes: Map<Text, Text>)
    requires
        lists(a, notes),
        lists(b, notes),
    ensures
        a.len() <= b.len(),
{
    if a.len() > b.len() {
        // The entry of `a` past the end of `b` stands in `b`, so earlier in `a` too.
        let n = b.len() as int;
        lemma_lists_agree_below(a, b, notes, n);
        let j = choose|j: int| 0 <= j < b.len() && b[j].0 == a[n].0;
        lemma_before_irreflexive(a[n].0);
    }
}

/// A map has at most one listing.
pub proof fn lemma_lists_unique(a: Seq<Entry>, b: Seq<Entry>, notes: Map<Text, Text>)
    requires
        lists(a, notes),
        lists(b, notes),
    ensures
        a == b,
{
    lemma_lists_no_longer(a, b, notes);
    lemma_lists_no_longer(b, a, notes);
    lemma_lists_agree_below(a, b, notes, a.len() as int);
}

/// What lists a map is the map's listing.
pub proof fn lemma_lists_is_listing(entries: Seq<Entry>, notes: Map<Text, Text>)
    requires
        lists(entries, notes),
    ensures
        entries == listing(notes),
{
    lemma_lists_unique(entries, listing(notes), notes);
}

/// The number of entries at the front of `entries` whose identifier comes
/// before `key`.
spec fn rank(entries: Seq<Entry>, key: Text) -> int
    decreases entries.len(),
{
    if entries.len() == 0 {
        0
    } else if text_before(entries.last().0, key) {
        entries.len() as int
    } else {
        rank(entries.drop_last(), key)
    }
}

proof fn lemma_rank(entries: Seq<Entry>, key: Text)
    requires
        keys_ascend(entries),
    ensures
        0 <= rank(entries, key) <= entries.len(),
        forall|i: int| 0 <= i < rank(entries, key) ==> text_before(#[trigger] entries[i].0, key),
        forall|i: int|
            rank(entries, key) <= i < entries.len() ==> !text_before(#[trigger] entries[i].0, key),
    decreases entries.len(),
{
    if entries.len() > 0 {
        let last = entries.len() - 1;
        if text_before(entries.last().0, key) {
            assert forall|i: int| 0 <= i < entries.len() implies text_before(
                #[trigger] entries[i].0,
                key,
            ) by {
                if i < last {
                    lemma_before_transitive(entries[i].0, entries[last].0, key);
                }
            }
        } else {
            let front = entries.drop_last();
            assert(keys_ascend(front));
            lemma_rank(front, key);
            assert forall|i: int| rank(entries, key) <= i < entries.len() implies !text_before(
                #[trigger] entries[i].0,
                key,
            ) by {
                if i < last {
                    assert(front[i] == entries[i]);
                }
            }
            assert forall|i: int| 0 <= i < rank(entries, key) implies text_before(
                #[trigger] entries[i].0,
                key,
            ) by {
                assert(front[i] == entries[i]);
            }
        }
    }
}

/// A map of finitely many notes has a listing, with one entry to the note.
proof fn lemma_some_listing(notes: Map<Text, Text>) -> (entries: Seq<Entry>)
    requires
        notes.dom().finite(),
    ensures
        lists(entries, notes),
        entries.len() == notes.dom().len(),
    decreases notes.dom().len(),
{
    if notes.dom().len() == 0 {
        notes.dom().lemma_len0_is_empty();
        Seq::empty()
    } else {
        let key = notes.dom().choose();
        let rest = notes.remove(key);
        let shorter = lemma_some_listing(rest);
        lemma_rank(shorter, key);
        let at = rank(shorter, key);
        // The entry for `key` goes between the entries before it and those after it.
        let entries = shorter.insert(at, (key, notes[key]));
        assert forall|i: int, j: int| 0 <= i < j < entries.len() implies text_before(
            #[trigger] entries[i].0,
            #[trigger] entries[j].0,
        ) by {
            if i == at {
                lemma_before_connected(shorter[j - 1].0, key);
            }
        }
        assert forall|other: Text| #[trigger] notes.contains_key(other) implies exists|i: int|
            0 <= i < entries.len() && entries[i].0 == other by {
            if other == key {
                assert(entries[at].0 == other);
            } else {
                let i = choose|i: int| 0 <= i < shorter.len() && shorter[i].0 == other;
                if i < at {
                    assert(entries[i].0 == other);
                } else {
                    assert(entries[i + 1].0 == other);
                }
            }
        }
        entries
    }
}

/// The listing of a map of finitely many notes lists the map, and has one
/// entry to the note.
pub proof fn lemma_listing_lists(notes: Map<Text, Text>)
    requires
        notes.dom().finite(),
    ensures
        lists(listing(notes), notes),
        listing(notes).len() == notes.len(),
{
    let entries = lemma_some_listing(notes);
    lemma_lists_is_listing(entries, notes);
}

/// The pages up to page `last` make up the front of the listing: as many
/// entries as the pages have room for, or all of them.
pub proof fn lemma_pages_through(notes: Map<Text, Text>, per_page: u32, last: int)
    requires
        0 <= last <= u32::MAX,
    ensures
        pages_through(notes, per_page, last) == if last * per_page_used(per_page) < listing(
            notes,
        ).len() {
            listing(notes).take(last * per_page_used(per_page))
        } else {
            listing(notes)
        },
    decreases last,
{
    let entries = listing(notes);
    let size = per_page_used(per_page);
    if last == 0 {
        assert(last * size == 0) by (nonlinear_arith)
            requires
                last == 0,
        ;
    } else {
        lemma_pages_through(notes, per_page, last - 1);
        assert(last * size == (last - 1) * size + size) by (nonlinear_arith);
        let before = (last - 1) * size;
        assert(0 <= before) by (nonlinear_arith)
            requires
                before == (last - 1) * size,
                last >= 1,
                size >= 1,
        ;
    }
}

} // verus!
