//! The operations on the store: create, fetch, list, update and delete.

use crate::ident::{identifier_at, identifier_shaped, sequence_after, IdGenerator, NODE_BYTES};
use crate::listing::{listing, page, per_page_used, MAX_PER_PAGE};
use crate::store::{entries_of, NotFound, TodoStore};
use crate::text::{lists, Text};
use vstd::prelude::*;
use vstd::string::*;

verus! {

/// The number of identifiers that [`create_todo`] draws before it gives up.
/// An identifier has room for this many clock sequences, so at an unchanged
/// clock reading later draws would only repeat earlier ones.
pub const MAX_ATTEMPTS: u32 = 16384;

/// The answer to a request that names a note: a note or a confirmation, or
/// the message that says why there is none.
pub type IcResult = Result<String, String>;

/// An answer as texts.
pub open spec fn answer_text(answer: IcResult) -> Result<Text, Text> {
    match answer {
        Ok(text) => Ok(text@),
        Err(message) => Err(message@),
    }
}

/// What one attempt to create a note came to.
#[derive(Debug, PartialEq, Eq)]
pub enum Attempt {
    /// The note was filed under this identifier.
    Created(String),
    /// The identifier drawn was taken. Nothing was filed, and the note comes back.
    Collided(String),
}

/// The message that no note is filed under `id`.
pub open spec fn not_found_message(id: Text) -> Text {
    "No task found with id: "@ + id
}

/// The message that the note under `id` was replaced.
pub open spec fn updated_message(id: Text) -> Text {
    "Successfully updated task id: "@ + id
}

/// The message that the note under `id` was deleted.
pub open spec fn deleted_message(id: Text) -> Text {
    "Successfully deleted task id: "@ + id
}

/// The answer to fetching `id` from `notes`.
pub open spec fn fetched(notes: Map<Text, Text>, id: Text) -> Result<Text, Text> {
    if notes.contains_key(id) {
        Ok(notes[id])
    } else {
        Err(not_found_message(id))
    }
}

/// The notes that are left when the note under `id` in `notes` is to be
/// replaced by `note`.
pub open spec fn notes_after_update(notes: Map<Text, Text>, id: Text, note: Text) -> Map<
    Text,
    Text,
> {
    if notes.contains_key(id) {
        notes.insert(id, note)
    } else {
        notes
    }
}

/// The answer to replacing the note under `id` in `notes`.
pub open spec fn updated(notes: Map<Text, Text>, id: Text) -> Result<Text, Text> {
    if notes.contains_key(id) {
        Ok(updated_message(id))
    } else {
        Err(not_found_message(id))
    }
}

/// The answer to deleting the note under `id` from `notes`.
pub open spec fn deleted(notes: Map<Text, Text>, id: Text) -> Result<Text, Text> {
    if notes.contains_key(id) {
        Ok(deleted_message(id))
    } else {
        Err(not_found_message(id))
    }
}

/// The clock sequence counter of the draw that follows `draws` earlier ones
/// by a generator seeded at `time`.
pub open spec fn sequence_at(time: u64, draws: int) -> u16 {
    ((time % 0x1_0000 + draws) % 0x1_0000) as u16
}

/// The identifier that [`create_todo`] draws at `time` for the caller `node`
/// after `draws` earlier ones.
pub open spec fn candidate(time: u64, node: Seq<u8>, draws: int) -> Text {
    identifier_at(sequence_at(time, draws), time, node)
}

/// Whether the draw after `draws` earlier ones is the first whose identifier
/// is free in `notes`.
pub open spec fn first_free(notes: Map<Text, Text>, time: u64, node: Seq<u8>, draws: int) -> bool {
    &&& 0 <= draws
    &&& !notes.contains_key(candidate(time, node, draws))
    &&& forall|earlier: int|
        0 <= earlier < draws ==> notes.contains_key(#[trigger] candidate(time, node, earlier))
}

impl NotFound {
    /// The message that reports the missing note to a caller.
    pub fn message(&self) -> (message: String)
        ensures
            message@ == not_found_message(self.id@),
    {
        String::from_str("No task found with id: ").concat(self.id.as_str())
    }
}

/// The clock reading that stands in for the host's clock where the store runs
/// without a host.
pub fn get_time() -> (time: u64)
    ensures
        time == 1699707661583u64,
{
    1699707661583u64
}

/// The caller identity that stands in for the host's where the store runs
/// without a host.
pub fn get_node_id() -> (node_id: Vec<u8>)
    ensures
        node_id@ == seq![1u8, 2u8, 3u8, 4u8, 5u8, 6u8],
{
    vec![1, 2, 3, 4, 5, 6]
}

/// Files `note` under the identifier `id` unless the store already holds a
/// note under it.
pub fn file_under(store: &mut TodoStore, id: String, note: String) -> (attempt: Attempt)
    ensures
        match attempt {
            Attempt::Created(filed) => {
                &&& filed@ == id@
                &&& !old(store)@.contains_key(id@)
                &&& final(store)@ == old(store)@.insert(id@, note@)
            },
            Attempt::Collided(back) => {
                &&& back@ == note@
                &&& old(store)@.contains_key(id@)
                &&& final(store)@ == old(store)@
            },
        },
{
    if store.contains(&id) {
        Attempt::Collided(note)
    } else {
        store.insert(id.clone(), note);
        Attempt::Created(id)
    }
}

/// One attempt to file `note`: draws an identifier at the clock reading
/// `time` and files the note under it unless the store already holds a note
/// under that identifier.
///
/// A caller whose clock moves reads it again before every attempt.
pub fn try_create(
    store: &mut TodoStore,
    generator: &mut IdGenerator,
    time: u64,
    note: String,
) -> (attempt: Attempt)
    ensures
        final(generator).sequence() == sequence_after(old(generator).sequence()),
        final(generator).node() == old(generator).node(),
        match attempt {
            Attempt::Created(id) => {
                &&& id@ == identifier_at(old(generator).sequence(), time, old(generator).node())
                &&& identifier_shaped(id@)
                &&& !old(store)@.contains_key(id@)
                &&& final(store)@ == old(store)@.insert(id@, note@)
            },
            Attempt::Collided(back) => {
                &&& back@ == note@
                &&& old(store)@.contains_key(
                    identifier_at(old(generator).sequence(), time, old(generator).node()),
                )
                &&& final(store)@ == old(store)@
            },
        },
{
    let id = generator.next_id(time);
    file_under(store, id, note)
}

/// Files `note` under a fresh identifier and returns the identifier.
///
/// The identifier is drawn at the clock reading `time` for the caller
/// `node_id`, of which the first [`NODE_BYTES`] bytes count. While the store
/// holds a note under the identifier drawn, the next one is drawn, up to
/// [`MAX_ATTEMPTS`] draws in all; if every one of them is taken, nothing is
/// filed and the result is `None`.
pub fn create_todo(
    store: &mut TodoStore,
    note: String,
    time: u64,
    node_id: &[u8],
) -> (created: Option<String>)
    requires
        node_id.len() >= NODE_BYTES,
    ensures
        match created {
            Some(id) => {
                &&& exists|draws: int|
                    draws < MAX_ATTEMPTS && first_free(
                        old(store)@,
                        time,
                        node_id@.subrange(0, NODE_BYTES as int),
                        draws,
                    ) && id@ == #[trigger] candidate(
                        time,
                        node_id@.subrange(0, NODE_BYTES as int),
                        draws,
                    )
                &&& identifier_shaped(id@)
                &&& !old(store)@.contains_key(id@)
                &&& final(store)@ == old(store)@.insert(id@, note@)
            },
            None => {
                &&& forall|draws: int|
                    0 <= draws < MAX_ATTEMPTS ==> old(store)@.contains_key(
                        #[trigger] candidate(time, node_id@.subrange(0, NODE_BYTES as int), draws),
                    )
                &&& final(store)@ == old(store)@
            },
        },
{
    let ghost node = node_id@.subrange(0, NODE_BYTES as int);
    let mut generator = IdGenerator::new(time, node_id);
    let mut pending = note;
    let mut draws: u32 = 0;
    while draws < MAX_ATTEMPTS
        invariant
            draws <= MAX_ATTEMPTS,
            node_id.len() >= NODE_BYTES,
            node == node_id@.subrange(0, NODE_BYTES as int),
            store@ == old(store)@,
            pending@ == note@,
            generator.node() == node,
            generator.sequence() == sequence_at(time, draws as int),
            forall|earlier: int|
                0 <= earlier < draws ==> old(store)@.contains_key(
                    #[trigger] candidate(time, node, earlier),
                ),
        decreases MAX_ATTEMPTS - draws,
    {
        match try_create(store, &mut generator, time, pending) {
            Attempt::Created(id) => {
                assert(first_free(old(store)@, time, node, draws as int));
                return Some(id);
            },
            Attempt::Collided(back) => {
                pending = back;
            },
        }
        draws = draws + 1;
    }
    None
}

/// The note filed under `task_id`.
pub fn get_todo_by_id(store: &TodoStore, task_id: String) -> (answer: IcResult)
    ensures
        answer_text(answer) == fetched(store@, task_id@),
{
    match store.get(&task_id) {
        Ok(note) => Ok(note),
        Err(missing) => Err(missing.message()),
    }
}

/// One page of the notes, in ascending order of identifier: see
/// [`TodoStore::paginated_list`].
pub fn get_todos_by_page(store: &TodoStore, page_number: u32, per_page: u32) -> (pairs: Vec<
    (String, String),
>)
    ensures
        entries_of(pairs@) == page(store@, page_number, per_page),
        pairs.len() <= per_page_used(per_page) <= MAX_PER_PAGE,
        lists(listing(store@), store@),
{
    store.paginated_list(page_number, per_page)
}

/// Replaces the note under `task_id` by `note`. Where the store holds no note
/// under `task_id`, it is left as it was.
pub fn update_todo_by_id(store: &mut TodoStore, task_id: String, note: String) -> (answer: IcResult)
    ensures
        final(store)@ == notes_after_update(old(store)@, task_id@, note@),
        answer_text(answer) == updated(old(store)@, task_id@),
{
    if !store.contains(&task_id) {
        return Err(NotFound { id: task_id }.message());
    }
    let message = String::from_str("Successfully updated task id: ").concat(task_id.as_str());
    store.insert(task_id, note);
    Ok(message)
}

/// Deletes the note under `task_id`.
pub fn delete_todo_by_id(store: &mut TodoStore, task_id: String) -> (answer: IcResult)
    ensures
        final(store)@ == old(store)@.remove(task_id@),
        answer_text(answer) == deleted(old(store)@, task_id@),
{
    match store.remove(&task_id) {
        Ok(_) => Ok(
            String::from_str("Successfully deleted task id: ").concat(task_id.as_str()),
        ),
        Err(missing) => Err(missing.message()),
    }
}

} // verus!
