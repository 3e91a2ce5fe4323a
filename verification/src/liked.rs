//! Which songs the user likes, as every screen sees it.
//!
//! Most songs on the screen are not stored and have no internal number, so
//! membership is indexed twice: by the stable identifier, and by the internal
//! number of stored songs (greater than zero).

use std::collections::HashSet;

use vstd::prelude::*;

use crate::domain::{ident, Track};
use crate::keyset::KeySet;

verus! {

broadcast use vstd::std_specs::hash::group_hash_axioms;

#[derive(Debug)]
pub struct Liked {
    /// Identifiers of the liked songs.
    pub keys: KeySet,
    /// Internal numbers of the liked songs that are stored.
    pub ids: HashSet<i64>,
}

/// Whether a song is liked: by its identifier, or by its number if it has one.
pub open spec fn likes(keys: Set<Seq<char>>, ids: Set<i64>, t: Track) -> bool {
    keys.contains(ident(t)) || (t.id > 0 && ids.contains(t.id))
}

/// The numbers after a song was added.
pub open spec fn ids_with(ids: Set<i64>, t: Track) -> Set<i64> {
    if t.id > 0 {
        ids.insert(t.id)
    } else {
        ids
    }
}

/// The identifiers of a list of songs.
pub open spec fn key_set(tracks: Seq<Track>) -> Set<Seq<char>> {
    Set::new(|k: Seq<char>| exists|i: int| 0 <= i < tracks.len() && ident(#[trigger] tracks[i]) == k)
}

/// The numbers of the stored songs of a list.
pub open spec fn id_set(tracks: Seq<Track>) -> Set<i64> {
    Set::new(
        |n: i64| n > 0 && exists|i: int| 0 <= i < tracks.len() && (#[trigger] tracks[i]).id == n,
    )
}

/// The number of liked songs, as far as the larger index knows.
pub open spec fn like_count(keys: Set<Seq<char>>, ids: Set<i64>) -> nat {
    if ids.len() > keys.len() {
        ids.len()
    } else {
        keys.len()
    }
}

impl Liked {
    pub open spec fn wf(&self) -> bool {
        &&& self.keys.wf()
        &&& self.keys@.finite()
        &&& self.ids@.finite()
    }

    /// The song is liked.
    pub open spec fn has(&self, t: Track) -> bool {
        likes(self.keys@, self.ids@, t)
    }

    /// Marks a song as liked.
    pub fn add(&mut self, track: &Track)
        requires
            old(self).wf(),
        ensures
            final(self).wf(),
            final(self).keys@ == old(self).keys@.insert(ident(*track)),
            final(self).ids@ == ids_with(old(self).ids@, *track),
    {
        self.keys.insert(track.identifier());
        if track.id > 0 {
            self.ids.insert(track.id);
        }
    }

    /// Takes the mark away.
    pub fn remove(&mut self, track: &Track)
        requires
            old(self).wf(),
        ensures
            final(self).wf(),
            final(self).keys@ == old(self).keys@.remove(ident(*track)),
            final(self).ids@ == old(self).ids@.remove(track.id),
    {
        let key = track.identifier();
        self.keys.remove(&key);
        self.ids.remove(&track.id);
    }

    /// Replaces the whole state by the liked songs of the store.
    pub fn set_tracks(&mut self, tracks: Vec<Track>)
        ensures
            final(self).wf(),
            final(self).keys@ == key_set(tracks@),
            final(self).ids@ == id_set(tracks@),
    {
        self.keys.clear();
        self.ids.clear();
        let mut i: usize = 0;
        proof {
            assert(self.keys@ =~= key_set(tracks@.take(0)));
            assert(self.ids@ =~= id_set(tracks@.take(0)));
        }
        while i < tracks.len()
            invariant
                0 <= i <= tracks.len(),
                self.wf(),
                self.keys@ == key_set(tracks@.take(i as int)),
                self.ids@ == id_set(tracks@.take(i as int)),
            decreases tracks.len() - i,
        {
            self.add(&tracks[i]);
            proof {
                lemma_sets_push(tracks@, i as int);
            }
            i = i + 1;
        }
        proof {
            assert(tracks@.take(tracks.len() as int) =~= tracks@);
        }
    }

    /// Whether a song is liked.
    pub fn contains(&self, track: &Track) -> (r: bool)
        ensures
            r == self.has(*track),
    {
        let key = track.identifier();
        self.keys.contains(&key) || (track.id > 0 && self.ids.contains(&track.id))
    }

    /// Whether the song with an internal number is liked, for screens that know
    /// only the number.
    pub fn contains_id(&self, track_id: i64) -> (r: bool)
        ensures
            r == (track_id > 0 && self.ids@.contains(track_id)),
    {
        track_id > 0 && self.ids.contains(&track_id)
    }

    /// Number of liked songs, as far as the larger index knows.
    pub fn len(&self) -> (r: usize)
        requires
            self.wf(),
        ensures
            r == like_count(self.keys@, self.ids@),
    {
        let ids: usize = self.ids.len();
        let keys: usize = self.keys.len();
        if ids > keys {
            ids
        } else {
            keys
        }
    }

    /// Whether nothing is liked.
    pub fn is_empty(&self) -> (r: bool)
        ensures
            r == (self.ids@ == Set::<i64>::empty() && self.keys@ == Set::<Seq<char>>::empty()),
    {
        self.ids.is_empty() && self.keys.is_empty()
    }
}

impl Default for Liked {
    fn default() -> (r: Self)
        ensures
            r.wf(),
            r.keys@ == Set::<Seq<char>>::empty(),
            r.ids@ == Set::<i64>::empty(),
    {
        Liked { keys: KeySet::new(), ids: HashSet::new() }
    }
}

proof fn lemma_sets_push(tracks: Seq<Track>, i: int)
    requires
        0 <= i < tracks.len(),
    ensures
        key_set(tracks.take(i + 1)) == key_set(tracks.take(i)).insert(ident(tracks[i])),
        id_set(tracks.take(i + 1)) == ids_with(id_set(tracks.take(i)), tracks[i]),
{
    let a = tracks.take(i);
    let b = tracks.take(i + 1);
    assert(b[i] == tracks[i]);
    assert(forall|j: int| 0 <= j < i ==> a[j] == b[j]);
    assert forall|k: Seq<char>| key_set(b).contains(k) == key_set(a).insert(ident(tracks[i])).contains(k) by {
        if key_set(a).contains(k) {
            let j = choose|j: int| 0 <= j < a.len() && ident(#[trigger] a[j]) == k;
            assert(ident(b[j]) == k);
        }
        if key_set(b).contains(k) {
            let j = choose|j: int| 0 <= j < b.len() && ident(#[trigger] b[j]) == k;
            if j < i {
                assert(ident(a[j]) == k);
            }
        }
        if k == ident(tracks[i]) {
            assert(ident(b[i]) == k);
        }
    }
    assert(key_set(b) =~= key_set(a).insert(ident(tracks[i])));
    assert forall|n: i64| id_set(b).contains(n) == ids_with(id_set(a), tracks[i]).contains(n) by {
        if id_set(a).contains(n) {
            let j = choose|j: int| 0 <= j < a.len() && (#[trigger] a[j]).id == n;
            assert(b[j].id == n);
        }
        if id_set(b).contains(n) {
            let j = choose|j: int| 0 <= j < b.len() && (#[trigger] b[j]).id == n;
            if j < i {
                assert(a[j].id == n);
            }
        }
        if n == tracks[i].id {
            assert(b[i].id == n);
        }
    }
    assert(id_set(b) =~= ids_with(id_set(a), tracks[i]));
}

/// Liking a song makes every copy of it liked: by identifier, or by the number
/// of a stored song.
pub proof fn law_added_songs_are_liked(keys: Set<Seq<char>>, ids: Set<i64>, t: Track, copy: Track)
    requires
        ident(copy) == ident(t) || (copy.id == t.id && t.id > 0),
    ensures
        likes(keys.insert(ident(t)), ids_with(ids, t), copy),
{
}

/// Liking a song that is not stored says nothing of the other songs: a song
/// without a number is never liked because of another one without a number.
pub proof fn law_unstored_songs_do_not_spill(
    keys: Set<Seq<char>>,
    ids: Set<i64>,
    t: Track,
    other: Track,
)
    requires
        ident(other) != ident(t),
        other.id <= 0 || other.id != t.id,
    ensures
        likes(keys.insert(ident(t)), ids_with(ids, t), other) == likes(keys, ids, other),
{
}

/// A song whose mark was taken away is liked under neither index.
pub proof fn law_removed_songs_are_not_liked(keys: Set<Seq<char>>, ids: Set<i64>, t: Track)
    ensures
        !likes(keys.remove(ident(t)), ids.remove(t.id), t),
        !ids.remove(t.id).contains(t.id),
{
}

/// The number of liked songs is zero exactly when the state is empty, and then
/// neither a song nor a number is liked.
pub proof fn law_empty_means_nothing_is_liked(liked: Liked, t: Track, n: i64)
    requires
        liked.wf(),
    ensures
        like_count(liked.keys@, liked.ids@) == 0 <==> liked.ids@ == Set::<i64>::empty()
            && liked.keys@ == Set::<Seq<char>>::empty(),
        like_count(liked.keys@, liked.ids@) == 0 ==> !liked.has(t) && !liked.ids@.contains(n),
{
    if like_count(liked.keys@, liked.ids@) == 0 {
        liked.keys@.lemma_len0_is_empty();
        liked.ids@.lemma_len0_is_empty();
    }
}

/// After the whole state was replaced, exactly the songs that match one of the
/// given ones are liked.
pub proof fn law_replaced_state_is_exact(tracks: Seq<Track>, t: Track)
    ensures
        likes(key_set(tracks), id_set(tracks), t) <==> exists|i: int|
            0 <= i < tracks.len() && (ident(#[trigger] tracks[i]) == ident(t) || (t.id > 0
                && tracks[i].id == t.id)),
{
    if likes(key_set(tracks), id_set(tracks), t) {
        if key_set(tracks).contains(ident(t)) {
            let i = choose|i: int| 0 <= i < tracks.len() && ident(#[trigger] tracks[i]) == ident(t);
            assert(ident(tracks[i]) == ident(t));
        } else {
            let i = choose|i: int| 0 <= i < tracks.len() && (#[trigger] tracks[i]).id == t.id;
            assert(tracks[i].id == t.id);
        }
    }
}

/// The number of liked songs is that of the larger index.
pub proof fn law_likes_are_counted(liked: Liked, n: usize)
    requires
        liked.wf(),
        call_ensures(Liked::len, (&liked,), n),
    ensures
        n >= liked.keys@.len(),
        n >= liked.ids@.len(),
        n == liked.keys@.len() || n == liked.ids@.len(),
{
}

/// A song that is marked is liked, and not any more once the mark is taken away;
/// songs with another identifier and another number are not touched.
pub proof fn law_marks_come_and_go(liked: &mut Liked, t: Track, back: &mut Liked, other: Track)
    requires
        call_ensures(Liked::add, (liked, &t), ()),
        *old(back) == *final(liked),
        call_ensures(Liked::remove, (back, &t), ()),
        ident(other) != ident(t),
        other.id != t.id,
    ensures
        final(liked).has(t),
        !final(back).has(t),
        final(liked).has(other) == old(liked).has(other),
        final(back).has(other) == old(liked).has(other),
{
}

/// After the marks were replaced exactly the given songs are liked.
pub proof fn law_marks_are_replaced(liked: &mut Liked, tracks: Vec<Track>, t: Track)
    requires
        call_ensures(Liked::set_tracks, (liked, tracks), ()),
    ensures
        final(liked).has(t) <==> exists|i: int|
            0 <= i < tracks@.len() && (ident(#[trigger] tracks@[i]) == ident(t) || (t.id > 0
                && tracks@[i].id == t.id)),
{
    law_replaced_state_is_exact(tracks@, t);
}

} // verus!
