//! What holds of the operations taken together.

use crate::listing::{
    entries_before_page, lemma_listing_lists, lemma_pages_through, listing, page, page_count,
    page_number_used, pages_through, per_page_used, MAX_PER_PAGE,
};
use crate::text::{keys_ascend, lists, Text};
use crate::todo::{
    deleted, fetched, not_found_message, notes_after_update, updated, updated_message,
};
use vstd::prelude::*;

verus! {

/// A change that an operation makes to the store.
pub enum Change {
    /// `note` was created under the fresh identifier `id`.
    Create { id: Text, note: Text },
    /// The note under `id` was to be replaced by `note`.
    Update { id: Text, note: Text },
    /// The note under `id` was to be deleted.
    Delete { id: Text },
}

/// Whether `change` takes the notes `before` to the notes `after`, as the
/// operations do.
pub open spec fn changes(before: Map<Text, Text>, change: Change, after: Map<Text, Text>) -> bool {
    match change {
        Change::Create { id, note } => !before.contains_key(id) && after == before.insert(id, note),
        Change::Update { id, note } => after == notes_after_update(before, id, note),
        Change::Delete { id } => after == before.remove(id),
    }
}

/// Whether `stores` and `steps` record a history of the store: every step
/// takes one state of the notes to the next.
pub open spec fn history(stores: Seq<Map<Text, Text>>, steps: Seq<Change>) -> bool {
    &&& stores.len() == steps.len() + 1
    &&& forall|i: int|
        0 <= i < steps.len() ==> changes(stores[i], #[trigger] steps[i], stores[i + 1])
}

/// Whether no step of `steps` after `from` and before `to` deletes `id`.
pub open spec fn kept(steps: Seq<Change>, id: Text, from: int, to: int) -> bool {
    forall|k: int| from < k < to ==> #[trigger] steps[k] != (Change::Delete { id })
}

proof fn lemma_created_id_stays(
    stores: Seq<Map<Text, Text>>,
    steps: Seq<Change>,
    i: int,
    k: int,
)
    requires
        history(stores, steps),
        0 <= i < k <= steps.len(),
        steps[i] is Create,
        kept(steps, steps[i]->Create_id, i, k),
    ensures
        stores[k].contains_key(steps[i]->Create_id),
    decreases k,
{
    assert(changes(stores[k - 1], steps[k - 1], stores[k - 1 + 1]));
    if i < k - 1 {
        lemma_created_id_stays(stores, steps, i, k - 1);
    }
}

/// Uniqueness: in a history of the store no identifier is handed out twice,
/// unless the note that it was first given to has been deleted in between.
pub proof fn lemma_created_ids_differ(
    stores: Seq<Map<Text, Text>>,
    steps: Seq<Change>,
    i: int,
    j: int,
)
    requires
        history(stores, steps),
        0 <= i < j < steps.len(),
        steps[i] is Create,
        steps[j] is Create,
        kept(steps, steps[i]->Create_id, i, j),
    ensures
        steps[i]->Create_id != steps[j]->Create_id,
{
    lemma_created_id_stays(stores, steps, i, j);
}

/// Whether one of the first `n` steps of `steps` creates a note under `id`
/// that none of the steps after it, among those `n`, deletes.
pub open spec fn created_and_kept(steps: Seq<Change>, id: Text, n: int) -> bool {
    exists|i: int|
        0 <= i < n && (#[trigger] steps[i]) is Create && steps[i]->Create_id == id && kept(
            steps,
            id,
            i,
            n,
        )
}

proof fn lemma_held_after(stores: Seq<Map<Text, Text>>, steps: Seq<Change>, id: Text, n: int)
    requires
        history(stores, steps),
        stores[0] == Map::<Text, Text>::empty(),
        0 <= n <= steps.len(),
    ensures
        stores[n].contains_key(id) <==> created_and_kept(steps, id, n),
    decreases n,
{
    if n > 0 {
        let m = n - 1;
        lemma_held_after(stores, steps, id, m);
        if created_and_kept(steps, id, m) {
            // The step that created the note before step `m` still counts after
            // it, unless step `m` deletes the note.
            let i = choose|i: int|
                0 <= i < m && (#[trigger] steps[i]) is Create && steps[i]->Create_id == id
                    && kept(steps, id, i, m);
            if steps[m] != (Change::Delete { id }) {
                assert(kept(steps, id, i, n));
            }
        }
        if created_and_kept(steps, id, n) {
            // The step that created the note is step `m`, or one before it that
            // counted before step `m` already.
            let i = choose|i: int|
                0 <= i < n && (#[trigger] steps[i]) is Create && steps[i]->Create_id == id
                    && kept(steps, id, i, n);
            if i < m {
                assert(kept(steps, id, i, m));
                assert(steps[m] != (Change::Delete { id }));
            }
        }
    }
}

/// A note exists if and only if it was created and has not been deleted
/// since: a store that starts out empty holds a note under an identifier
/// exactly when one step of its history created a note under it and no later
/// step deleted it.
pub proof fn lemma_held_iff_created_and_kept(
    stores: Seq<Map<Text, Text>>,
    steps: Seq<Change>,
    id: Text,
)
    requires
        history(stores, steps),
        stores[0] == Map::<Text, Text>::empty(),
    ensures
        stores.last().contains_key(id) <==> created_and_kept(steps, id, steps.len() as int),
{
    lemma_held_after(stores, steps, id, steps.len() as int);
}

/// Round trip: a note that was just created is fetched under the identifier
/// it was given.
pub proof fn lemma_fetch_after_create(before: Map<Text, Text>, id: Text, note: Text)
    ensures
        fetched(before.insert(id, note), id) == Ok::<Text, Text>(note),
{
}

/// Update preserves identity: once the note under an identifier is replaced,
/// the new note is fetched under that identifier, and the store holds notes
/// under the same identifiers as before, so as many.
pub proof fn lemma_fetch_after_update(before: Map<Text, Text>, id: Text, note: Text)
    requires
        before.contains_key(id),
    ensures
        updated(before, id) == Ok::<Text, Text>(updated_message(id)),
        fetched(notes_after_update(before, id, note), id) == Ok::<Text, Text>(note),
        notes_after_update(before, id, note).dom() == before.dom(),
        notes_after_update(before, id, note).len() == before.len(),
{
}

/// Delete removes: once an identifier is deleted, fetching it reports that
/// no note is found under it.
pub proof fn lemma_fetch_after_delete(before: Map<Text, Text>, id: Text)
    ensures
        fetched(before.remove(id), id) == Err::<Text, Text>(not_found_message(id)),
{
}

/// Not found: under an identifier that the store does not hold, fetching,
/// updating and deleting all report that no note is found, and neither
/// updating nor deleting changes the store.
pub proof fn lemma_unknown_id(notes: Map<Text, Text>, id: Text, note: Text)
    requires
        !notes.contains_key(id),
    ensures
        fetched(notes, id) == Err::<Text, Text>(not_found_message(id)),
        updated(notes, id) == Err::<Text, Text>(not_found_message(id)),
        deleted(notes, id) == Err::<Text, Text>(not_found_message(id)),
        notes_after_update(notes, id, note) == notes,
        notes.remove(id) == notes,
{
}

/// Pagination clamping: a request is answered as the request for the page
/// number and the page size that it is served with, and with no more entries
/// than that page size, so never more than [`MAX_PER_PAGE`].
pub proof fn lemma_page_request_clamped(notes: Map<Text, Text>, page_number: u32, per_page: u32)
    ensures
        1 <= page_number_used(page_number) <= u32::MAX,
        1 <= per_page_used(per_page) <= MAX_PER_PAGE,
        page(notes, page_number, per_page) == page(
            notes,
            page_number_used(page_number) as u32,
            per_page_used(per_page) as u32,
        ),
        page(notes, page_number, per_page).len() <= per_page_used(per_page),
{
}

/// A page holds notes of the store, each under its identifier, and the
/// identifiers of a page strictly ascend, so that none occurs twice.
pub proof fn lemma_page_holds_notes(notes: Map<Text, Text>, page_number: u32, per_page: u32)
    requires
        notes.dom().finite(),
    ensures
        keys_ascend(page(notes, page_number, per_page)),
        forall|i: int|
            0 <= i < page(notes, page_number, per_page).len() ==> {
                let entry = #[trigger] page(notes, page_number, per_page)[i];
                notes.contains_key(entry.0) && notes[entry.0] == entry.1
            },
{
    lemma_listing_lists(notes);
    let entries = listing(notes);
    let shown = page(notes, page_number, per_page);
    let before = entries_before_page(page_number_used(page_number), per_page_used(per_page));
    assert(0 <= before) by (nonlinear_arith)
        requires
            before == (page_number_used(page_number) - 1) * per_page_used(per_page),
            page_number_used(page_number) >= 1,
            per_page_used(per_page) >= 1,
    ;
    let start = if before < entries.len() {
        before
    } else {
        entries.len() as int
    };
    // The page is a stretch of the listing.
    assert(forall|i: int| 0 <= i < shown.len() ==> #[trigger] shown[i] == entries[start + i]);
}

/// Pagination coverage: the pages of a store from the first to the last that
/// has an entry, one after the other, are the listing of the store: every
/// note once, in ascending order of identifier.
pub proof fn lemma_pages_cover(notes: Map<Text, Text>, per_page: u32)
    requires
        notes.dom().finite(),
        page_count(notes.len() as int, per_page_used(per_page)) <= u32::MAX,
    ensures
        lists(listing(notes), notes),
        listing(notes).len() == notes.len(),
        pages_through(
            notes,
            per_page,
            page_count(notes.len() as int, per_page_used(per_page)),
        ) == listing(notes),
{
    lemma_listing_lists(notes);
    let size = per_page_used(per_page);
    let len = notes.len() as int;
    let count = page_count(len, size);
    assert(0 <= count && count * size >= len) by (nonlinear_arith)
        requires
            count == (len + size - 1) / size,
            size >= 1,
            len >= 0,
    ;
    lemma_pages_through(notes, per_page, count);
}

} // verus!
