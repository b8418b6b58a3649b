//! Identifiers and notes as sequences of characters, and the order in which
//! the store keeps identifiers.

use vstd::prelude::*;

verus! {

/// An identifier or a note, as the sequence of its characters.
pub type Text = Seq<char>;

/// An identifier together with the note filed under it.
pub type Entry = (Text, Text);

/// Whether `a` and `b` hold the same characters at every position below `k`.
pub open spec fn agree_below(a: Text, b: Text, k: int) -> bool {
    forall|i: int| 0 <= i < k ==> a[i] == b[i]
}

/// Whether `k` is a position that puts `a` before `b`: the two agree below
/// `k`, and there `a` ends while `b` goes on, or `a` holds the character with
/// the smaller code point.
pub open spec fn precedes_at(a: Text, b: Text, k: int) -> bool {
    &&& 0 <= k <= a.len()
    &&& k < b.len()
    &&& agree_below(a, b, k)
    &&& (k == a.len() || (a[k] as int) < (b[k] as int))
}

/// Whether `a` comes before `b`, character by character and by code point.
/// This is how `String` orders its values, and so the order of the store's keys.
pub open spec fn text_before(a: Text, b: Text) -> bool {
    exists|k: int| precedes_at(a, b, k)
}

/// Whether the identifiers of `entries` strictly ascend.
pub open spec fn keys_ascend(entries: Seq<Entry>) -> bool {
    forall|i: int, j: int|
        0 <= i < j < entries.len() ==> text_before(#[trigger] entries[i].0, #[trigger] entries[j].0)
}

/// Whether `entries` lists `notes` in order: its identifiers strictly ascend,
/// every entry is a note of the map, and every note of the map is an entry.
pub open spec fn lists(entries: Seq<Entry>, notes: Map<Text, Text>) -> bool {
    &&& keys_ascend(entries)
    &&& forall|i: int|
        0 <= i < entries.len() ==> notes.contains_key(#[trigger] entries[i].0)
            && notes[entries[i].0] == entries[i].1
    &&& forall|key: Text| #[trigger]
        notes.contains_key(key) ==> exists|i: int| 0 <= i < entries.len() && entries[i].0 == key
}

/// No text comes before itself.
pub proof fn lemma_before_irreflexive(a: Text)
    ensures
        !text_before(a, a),
{
}

/// Of two texts, at most one comes before the other.
pub proof fn lemma_before_asymmetric(a: Text, b: Text)
    ensures
        !(text_before(a, b) && text_before(b, a)),
{
    if text_before(a, b) && text_before(b, a) {
        // Below the later of the two positions the texts agree, so the earlier
        // one cannot tell them apart; and at one position only one text can
        // end first or hold the smaller character.
        let k = choose|k: int| precedes_at(a, b, k);
        let l = choose|l: int| precedes_at(b, a, l);
        assert(k == l);
    }
}

/// What comes before a text comes before everything that the text comes before.
pub proof fn lemma_before_transitive(a: Text, b: Text, c: Text)
    requires
        text_before(a, b),
        text_before(b, c),
    ensures
        text_before(a, c),
{
    // The earlier of the two positions puts `a` before `c`.
    let k = choose|k: int| precedes_at(a, b, k);
    let l = choose|l: int| precedes_at(b, c, l);
    let m = if k <= l {
        k
    } else {
        l
    };
    assert(precedes_at(a, c, m));
}

/// The first position at or after `from` at which `a` and `b` stop agreeing:
/// where one of them ends, or where their characters differ.
pub open spec fn first_difference(a: Text, b: Text, from: int) -> int
    decreases a.len() - from,
{
    if from < 0 || from >= a.len() || from >= b.len() || a[from] != b[from] {
        from
    } else {
        first_difference(a, b, from + 1)
    }
}

proof fn lemma_first_difference(a: Text, b: Text, from: int)
    requires
        0 <= from <= a.len(),
        from <= b.len(),
        agree_below(a, b, from),
    ensures
        from <= first_difference(a, b, from) <= a.len(),
        first_difference(a, b, from) <= b.len(),
        agree_below(a, b, first_difference(a, b, from)),
        first_difference(a, b, from) == a.len() || first_difference(a, b, from) == b.len()
            || a[first_difference(a, b, from)] != b[first_difference(a, b, from)],
    decreases a.len() - from,
{
    if from < a.len() && from < b.len() && a[from] == b[from] {
        lemma_first_difference(a, b, from + 1);
    }
}

/// Of two different texts, one comes before the other.
pub proof fn lemma_before_connected(a: Text, b: Text)
    requires
        a != b,
    ensures
        text_before(a, b) || text_before(b, a),
{
    let k = first_difference(a, b, 0);
    lemma_first_difference(a, b, 0);
    if k == a.len() && k == b.len() {
        assert(a =~= b);
    } else if k == a.len() || (k < b.len() && (a[k] as int) < (b[k] as int)) {
        assert(precedes_at(a, b, k));
    } else {
        assert(agree_below(b, a, k));
        assert(precedes_at(b, a, k));
    }
}

} // verus!
