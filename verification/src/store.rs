//! The persistent store: notes by identifier, read and changed one at a time
//! or read a page at a time.

use crate::listing::{lemma_lists_is_listing, listing, page, per_page_used, MAX_PER_PAGE};
use crate::notes::{entries_ahead, notes_held, NoteMap};
use crate::text::{lists, Entry, Text};
use vstd::prelude::*;

verus! {

/// The region of stable memory that holds the notes.
pub const NOTES_REGION: u8 = 0;

/// The report that the store holds no note under an identifier.
#[derive(Debug, PartialEq, Eq)]
pub struct NotFound {
    /// The identifier that was asked for.
    pub id: String,
}

/// The entries that a vector of identifier and note pairs holds.
pub open spec fn entries_of(pairs: Seq<(String, String)>) -> Seq<Entry> {
    Seq::new(pairs.len(), |i: int| (pairs[i].0@, pairs[i].1@))
}

/// The store of notes. Its view is the map from identifier to note.
pub struct TodoStore {
    notes: NoteMap,
}

impl View for TodoStore {
    type V = Map<Text, Text>;

    closed spec fn view(&self) -> Map<Text, Text> {
        notes_held(self.notes)
    }
}

impl TodoStore {
    /// The store on the default stable memory: with the notes that the memory
    /// already holds in [`NOTES_REGION`], or empty where it holds none.
    pub fn init() -> (store: TodoStore)
        ensures
            store@.dom().finite(),
    {
        TodoStore { notes: NoteMap::open(NOTES_REGION) }
    }

    /// The note under `id`.
    pub fn get(&self, id: &String) -> (found: Result<String, NotFound>)
        ensures
            match found {
                Ok(note) => self@.contains_key(id@) && note@ == self@[id@],
                Err(missing) => !self@.contains_key(id@) && missing.id@ == id@,
            },
    {
        match self.notes.get(id) {
            Some(note) => Ok(note),
            None => Err(NotFound { id: id.clone() }),
        }
    }

    /// Whether the store holds a note under `id`.
    pub fn contains(&self, id: &String) -> (present: bool)
        ensures
            present == self@.contains_key(id@),
    {
        self.notes.contains_key(id)
    }

    /// Files `note` under `id`, in place of any note that was there.
    pub fn insert(&mut self, id: String, note: String)
        ensures
            final(self)@ == old(self)@.insert(id@, note@),
    {
        self.notes.insert(id, note);
    }

    /// Takes out the note under `id` and returns it.
    pub fn remove(&mut self, id: &String) -> (removed: Result<String, NotFound>)
        ensures
            final(self)@ == old(self)@.remove(id@),
            match removed {
                Ok(note) => old(self)@.contains_key(id@) && note@ == old(self)@[id@],
                Err(missing) => !old(self)@.contains_key(id@) && missing.id@ == id@,
            },
    {
        match self.notes.remove(id) {
            Some(note) => Ok(note),
            None => Err(NotFound { id: id.clone() }),
        }
    }

    /// One page of the notes, in ascending order of identifier.
    ///
    /// Pages count from one and hold at most [`MAX_PER_PAGE`] entries: a
    /// `page_number` of zero is served as one, and `per_page` is brought into
    /// the range from one to [`MAX_PER_PAGE`]. A page past the last note is
    /// empty.
    pub fn paginated_list(&self, page_number: u32, per_page: u32) -> (pairs: Vec<(String, String)>)
        ensures
            entries_of(pairs@) == page(self@, page_number, per_page),
            pairs.len() <= per_page_used(per_page) <= MAX_PER_PAGE,
            lists(listing(self@), self@),
    {
        let page_number: u64 = if page_number == 0 {
            1
        } else {
            page_number as u64
        };
        let per_page: u64 = if per_page > MAX_PER_PAGE {
            MAX_PER_PAGE as u64
        } else if per_page == 0 {
            1
        } else {
            per_page as u64
        };
        assert((page_number - 1) * per_page <= 0xffff_ffff * 10) by (nonlinear_arith)
            requires
                1 <= page_number <= 0xffff_ffff,
                1 <= per_page <= 10,
        ;
        let before: u64 = (page_number - 1) * per_page;
        let mut cursor = self.notes.walk();
        let ghost all = entries_ahead(cursor);
        proof {
            lemma_lists_is_listing(all, self@);
        }
        let mut passed: u64 = 0;
        let mut more = true;
        while passed < before && more
            invariant
                passed <= before,
                passed <= all.len(),
                more ==> entries_ahead(cursor) == all.skip(passed as int),
                !more ==> passed == all.len(),
            decreases
                    before - passed + if more {
                        1int
                    } else {
                        0int
                    },
        {
            match cursor.next() {
                Some(_) => {
                    passed = passed + 1;
                },
                None => {
                    more = false;
                },
            }
        }
        let mut pairs: Vec<(String, String)> = Vec::new();
        while (pairs.len() as u64) < per_page && more
            invariant
                per_page <= 10,
                pairs.len() <= per_page,
                passed + pairs.len() <= all.len(),
                entries_of(pairs@) == all.subrange(passed as int, passed + pairs.len()),
                more ==> entries_ahead(cursor) == all.skip(passed + pairs.len()),
                !more ==> passed + pairs.len() == all.len(),
            decreases
                    per_page - pairs.len() + if more {
                        1int
                    } else {
                        0int
                    },
        {
            match cursor.next() {
                Some(pair) => {
                    let ghost taken = pairs@;
                    pairs.push(pair);
                    assert(entries_of(pairs@) =~= all.subrange(
                        passed as int,
                        passed + pairs.len(),
                    )) by {
                        assert forall|i: int| 0 <= i < pairs.len() implies entries_of(pairs@)[i]
                            == all[passed + i] by {
                            if i < taken.len() {
                                assert(entries_of(taken)[i] == all[passed + i]);
                            }
                        }
                    }
                },
                None => {
                    more = false;
                },
            }
        }
        pairs
    }
}

} // verus!
