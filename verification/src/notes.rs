//! The ordered map of notes on stable memory, and what is taken on trust about it.
//!
//! The map is a `StableBTreeMap` from identifier to note. Nothing in this file
//! is proved: each function states what the map's own code does, in terms of
//! [`notes_held`] and [`entries_ahead`].

use crate::text::{lists, Entry, Text};
use ic_stable_structures::btreemap::Iter;
use ic_stable_structures::memory_manager::{MemoryId, MemoryManager, VirtualMemory};
use ic_stable_structures::{DefaultMemoryImpl, StableBTreeMap};
use vstd::prelude::*;

verus! {

/// The ordered map from identifier to note.
///
/// Wraps `StableBTreeMap<String, String, VirtualMemory<DefaultMemoryImpl>>`,
/// whose trait bounds Verus cannot take in a declaration.
#[verifier::external_body]
pub struct NoteMap {
    map: StableBTreeMap<String, String, VirtualMemory<DefaultMemoryImpl>>,
}

/// A position in a walk over a [`NoteMap`] in ascending order of identifier.
///
/// Wraps the map's `Iter`.
#[verifier::external_body]
pub struct NoteCursor<'a> {
    iter: Iter<'a, String, String, VirtualMemory<DefaultMemoryImpl>>,
}

/// The notes that a map holds, by identifier.
pub uninterp spec fn notes_held(map: NoteMap) -> Map<Text, Text>;

/// The entries that a cursor has yet to hand out, next one first.
pub uninterp spec fn entries_ahead(cursor: NoteCursor<'_>) -> Seq<Entry>;

impl NoteMap {
    /// `MemoryManager::init` on the default memory, `MemoryManager::get` for
    /// the region `region` of it and `StableBTreeMap::init` there: the map
    /// that the region already holds, or an empty one. It holds finitely many
    /// notes. The last region number is kept for the manager's own use.
    #[verifier::external_body]
    pub(crate) fn open(region: u8) -> (map: NoteMap)
        requires
            region < u8::MAX,
        ensures
            notes_held(map).dom().finite(),
    {
        let manager = MemoryManager::init(DefaultMemoryImpl::default());
        NoteMap { map: StableBTreeMap::init(manager.get(MemoryId::new(region))) }
    }

    /// `StableBTreeMap::get`: the note under `key`, if the map has one.
    #[verifier::external_body]
    pub(crate) fn get(&self, key: &String) -> (found: Option<String>)
        ensures
            match found {
                Some(note) => notes_held(*self).contains_key(key@) && notes_held(*self)[key@]
                    == note@,
                None => !notes_held(*self).contains_key(key@),
            },
    {
        self.map.get(key)
    }

    /// `StableBTreeMap::contains_key`: whether the map has a note under `key`.
    #[verifier::external_body]
    pub(crate) fn contains_key(&self, key: &String) -> (present: bool)
        ensures
            present == notes_held(*self).contains_key(key@),
    {
        self.map.contains_key(key)
    }

    /// `StableBTreeMap::insert`: files `value` under `key`, in place of any
    /// note that was there, and returns the note it replaced.
    #[verifier::external_body]
    pub(crate) fn insert(&mut self, key: String, value: String) -> (replaced: Option<String>)
        ensures
            notes_held(*final(self)) == notes_held(*old(self)).insert(key@, value@),
            match replaced {
                Some(note) => notes_held(*old(self)).contains_key(key@) && notes_held(
                    *old(self),
                )[key@] == note@,
                None => !notes_held(*old(self)).contains_key(key@),
            },
    {
        self.map.insert(key, value)
    }

    /// `StableBTreeMap::remove`: takes out the note under `key`, if there is
    /// one, and returns it.
    #[verifier::external_body]
    pub(crate) fn remove(&mut self, key: &String) -> (removed: Option<String>)
        ensures
            notes_held(*final(self)) == notes_held(*old(self)).remove(key@),
            match removed {
                Some(note) => notes_held(*old(self)).contains_key(key@) && notes_held(
                    *old(self),
                )[key@] == note@,
                None => !notes_held(*old(self)).contains_key(key@),
            },
    {
        self.map.remove(key)
    }

    /// `StableBTreeMap::iter`: a walk over all the entries of the map, in
    /// ascending order of identifier. The map orders its keys as `String`
    /// does, byte by byte, which for UTF-8 is code point by code point.
    #[verifier::external_body]
    pub(crate) fn walk(&self) -> (cursor: NoteCursor<'_>)
        ensures
            lists(entries_ahead(cursor), notes_held(*self)),
    {
        NoteCursor { iter: self.map.iter() }
    }
}

impl<'a> NoteCursor<'a> {
    /// `Iterator::next` of the map's `Iter`: hands out the next entry of the
    /// walk, or nothing once the walk is over.
    #[verifier::external_body]
    pub(crate) fn next(&mut self) -> (entry: Option<(String, String)>)
        ensures
            match entry {
                Some(pair) => entries_ahead(*old(self)).len() > 0 && (pair.0@, pair.1@)
                    == entries_ahead(*old(self))[0] && entries_ahead(*final(self))
                    == entries_ahead(*old(self)).skip(1),
                None => entries_ahead(*old(self)).len() == 0 && entries_ahead(*final(self))
                    == entries_ahead(*old(self)),
            },
    {
        self.iter.next()
    }
}

} // verus!
