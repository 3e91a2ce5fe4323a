//! Ordering recommendations by the taste of the user.

use vstd::prelude::*;

use crate::domain::Track;

verus! {

/// A recommendation with its rating. Of two ratings the greater one is the
/// better match.
#[derive(Debug)]
pub struct Candidate {
    pub track: Track,
    pub rating: i64,
    /// How often the user turned the song down.
    pub negative: u64,
    /// How often the song was played.
    pub plays: u64,
}

/// The user clearly turned the song down: at least twice, and at least as often
/// as it was played.
pub open spec fn rejected(c: Candidate) -> bool {
    c.negative >= 2 && c.negative >= c.plays
}

/// The candidates that were not turned down, in their order.
pub open spec fn kept(v: Seq<Candidate>) -> Seq<Candidate>
    decreases v.len(),
{
    if v.len() == 0 {
        Seq::empty()
    } else if rejected(v.last()) {
        kept(v.drop_last())
    } else {
        kept(v.drop_last()).push(v.last())
    }
}

/// Where a candidate goes in a list ordered by rating: behind every one that is
/// at least as good.
pub open spec fn slot(sorted: Seq<Candidate>, rating: i64) -> nat
    decreases sorted.len(),
{
    if sorted.len() == 0 {
        0
    } else if sorted.last().rating >= rating {
        sorted.len()
    } else {
        slot(sorted.drop_last(), rating)
    }
}

/// The list by falling rating; equally rated candidates keep their order.
pub open spec fn by_rating(v: Seq<Candidate>) -> Seq<Candidate>
    decreases v.len(),
{
    if v.len() == 0 {
        Seq::empty()
    } else {
        let before = by_rating(v.drop_last());
        before.insert(slot(before, v.last().rating) as int, v.last())
    }
}

pub open spec fn songs(v: Seq<Candidate>) -> Seq<Track> {
    v.map_values(|c: Candidate| c.track)
}

/// What is left of the candidates, best match first.
pub open spec fn taste_ordered(v: Seq<Candidate>) -> Seq<Track> {
    songs(by_rating(kept(v)))
}

fn is_rejected(c: &Candidate) -> (r: bool)
    ensures
        r == rejected(*c),
{
    let tries: u64 = if c.plays > 1 {
        c.plays
    } else {
        1
    };
    c.negative >= 2 && c.negative >= tries
}

/// Drops what the user clearly turned down and orders the rest by rating.
pub fn taste_order(candidates: Vec<Candidate>) -> (r: Vec<Track>)
    ensures
        r@ == taste_ordered(candidates@),
{
    let n: usize = candidates.len();
    let mut ratings: Vec<i64> = Vec::new();
    let mut out: Vec<Track> = Vec::new();
    let ghost mut chosen: Seq<Candidate> = Seq::empty();
    let mut i: usize = 0;
    proof {
        assert(candidates@.take(0) =~= Seq::<Candidate>::empty());
        assert(songs(by_rating(kept(candidates@.take(0)))) =~= Seq::<Track>::empty());
    }
    while i < n
        invariant
            0 <= i <= n,
            n == candidates@.len(),
            chosen == by_rating(kept(candidates@.take(i as int))),
            out@ == songs(chosen),
            ratings@ == chosen.map_values(|c: Candidate| c.rating),
        decreases n - i,
    {
        proof {
            assert(candidates@.take(i + 1).drop_last() =~= candidates@.take(i as int));
            assert(candidates@.take(i + 1).last() == candidates@[i as int]);
        }
        if !is_rejected(&candidates[i]) {
            let rating: i64 = candidates[i].rating;
            let mut at: usize = ratings.len();
            proof {
                assert(chosen.take(chosen.len() as int) =~= chosen);
            }
            while at > 0 && ratings[at - 1] < rating
                invariant
                    0 <= at <= ratings@.len(),
                    ratings@ == chosen.map_values(|c: Candidate| c.rating),
                    slot(chosen, rating) == slot(chosen.take(at as int), rating),
                decreases at,
            {
                proof {
                    assert(chosen.take(at as int).drop_last() =~= chosen.take(at - 1));
                    assert(chosen.take(at as int).last() == chosen[at - 1]);
                }
                at = at - 1;
            }
            proof {
                if at > 0 {
                    assert(chosen.take(at as int).last() == chosen[at - 1]);
                }
                assert(slot(chosen, rating) == at);
                let c = candidates@[i as int];
                let k = kept(candidates@.take(i as int));
                assert(kept(candidates@.take(i + 1)) == k.push(c));
                assert(k.push(c).drop_last() =~= k);
                assert(by_rating(k.push(c)) == chosen.insert(at as int, c));
                assert(songs(chosen.insert(at as int, c)) =~= songs(chosen).insert(
                    at as int,
                    c.track,
                ));
                assert(chosen.insert(at as int, c).map_values(|c: Candidate| c.rating)
                    =~= ratings@.insert(at as int, rating));
                chosen = chosen.insert(at as int, c);
            }
            ratings.insert(at, rating);
            out.insert(at, candidates[i].track.clone());
        }
        i = i + 1;
    }
    proof {
        assert(candidates@.take(n as int) =~= candidates@);
    }
    out
}

proof fn lemma_slot(s: Seq<Candidate>, rating: i64)
    requires
        forall|a: int, b: int| 0 <= a < b < s.len() ==> (#[trigger] s[a]).rating >= (#[trigger] s[b]).rating,
    ensures
        slot(s, rating) <= s.len(),
        forall|a: int| 0 <= a < slot(s, rating) ==> (#[trigger] s[a]).rating >= rating,
        forall|a: int| slot(s, rating) <= a < s.len() ==> (#[trigger] s[a]).rating < rating,
    decreases s.len(),
{
    if s.len() > 0 && s.last().rating < rating {
        let d = s.drop_last();
        assert(forall|a: int| 0 <= a < d.len() ==> #[trigger] d[a] == s[a]);
        lemma_slot(d, rating);
        assert forall|a: int| slot(s, rating) <= a < s.len() implies (#[trigger] s[a]).rating < rating by {
            if a < d.len() {
                assert(d[a].rating < rating);
            }
        }
        assert forall|a: int| 0 <= a < slot(s, rating) implies (#[trigger] s[a]).rating >= rating by {
            assert(d[a].rating >= rating);
        }
    } else if s.len() > 0 {
        assert(s.last() == s[s.len() - 1]);
    }
}

proof fn lemma_sorted(v: Seq<Candidate>)
    ensures
        by_rating(v).len() == v.len(),
        by_rating(v).to_multiset() == v.to_multiset(),
        forall|a: int, b: int|
            0 <= a < b < v.len() ==> (#[trigger] by_rating(v)[a]).rating >= (#[trigger] by_rating(v)[b]).rating,
    decreases v.len(),
{
    broadcast use vstd::seq_lib::group_to_multiset_ensures;

    if v.len() > 0 {
        let d = v.drop_last();
        lemma_sorted(d);
        let s = by_rating(d);
        let c = v.last();
        lemma_slot(s, c.rating);
        let at = slot(s, c.rating) as int;
        let r = by_rating(v);
        assert(r == s.insert(at, c));
        assert forall|a: int, b: int| 0 <= a < b < r.len() implies (#[trigger] r[a]).rating
            >= (#[trigger] r[b]).rating by {
            let a0 = if a < at { a } else { a - 1 };
            let b0 = if b < at { b } else { b - 1 };
            if a == at {
                assert(s[b0].rating < c.rating);
            } else if b == at {
                assert(s[a0].rating >= c.rating);
            } else {
                assert(s[a0].rating >= s[b0].rating);
            }
        }
        assert(v =~= d.push(c));
        assert(r.to_multiset() =~= s.to_multiset().insert(c));
    } else {
        assert(v =~= Seq::<Candidate>::empty());
    }
}

proof fn lemma_kept(v: Seq<Candidate>, c: Candidate)
    ensures
        kept(v).contains(c) <==> v.contains(c) && !rejected(c),
    decreases v.len(),
{
    if v.len() > 0 {
        let d = v.drop_last();
        lemma_kept(d, c);
        assert(v =~= d.push(v.last()));
        if kept(v).contains(c) {
            let i = choose|i: int| 0 <= i < kept(v).len() && kept(v)[i] == c;
            if rejected(v.last()) {
                assert(kept(d).contains(c));
            } else if i < kept(d).len() {
                assert(kept(d)[i] == c);
            }
            if kept(d).contains(c) {
                let j = choose|j: int| 0 <= j < d.len() && d[j] == c;
                assert(v[j] == c);
            } else {
                assert(v[v.len() - 1] == c);
            }
        }
        if v.contains(c) && !rejected(c) {
            let i = choose|i: int| 0 <= i < v.len() && v[i] == c;
            if i < d.len() {
                assert(d[i] == c);
                let j = choose|j: int| 0 <= j < kept(d).len() && kept(d)[j] == c;
                assert(kept(v)[j] == c);
            } else {
                assert(kept(v)[kept(v).len() - 1] == c);
            }
        }
    }
}

/// The best matches come first.
pub proof fn law_best_matches_first(v: Seq<Candidate>, a: int, b: int)
    requires
        0 <= a < b < by_rating(v).len(),
    ensures
        by_rating(v)[a].rating >= by_rating(v)[b].rating,
{
    lemma_sorted(v);
}

/// Ordering neither loses nor repeats a candidate.
pub proof fn law_ordering_is_a_permutation(v: Seq<Candidate>)
    ensures
        by_rating(v).to_multiset() == v.to_multiset(),
        taste_ordered(v).len() == kept(v).len(),
{
    lemma_sorted(v);
    lemma_sorted(kept(v));
}

/// Exactly the candidates that were clearly turned down are left out: a single
/// refusal never drops a song.
pub proof fn law_only_clear_refusals_drop_songs(v: Seq<Candidate>, c: Candidate)
    ensures
        kept(v).contains(c) <==> v.contains(c) && !(c.negative >= 2 && c.negative >= c.plays),
        c.negative < 2 ==> !rejected(c),
{
    lemma_kept(v, c);
}

/// A candidate of this rating that the user did not turn down at least twice and
/// as often as it was played.
pub open spec fn is_match(rating: i64) -> spec_fn(Candidate) -> bool {
    |c: Candidate| c.rating == rating && !(c.negative >= 2 && c.negative >= c.plays)
}

spec fn is_rated(rating: i64) -> spec_fn(Candidate) -> bool {
    |c: Candidate| c.rating == rating
}

proof fn lemma_kept_of_rating(v: Seq<Candidate>, x: i64)
    ensures
        kept(v).filter(is_rated(x)) == v.filter(is_match(x)),
    decreases v.len(),
{
    reveal(Seq::filter);
    if v.len() > 0 {
        lemma_kept_of_rating(v.drop_last(), x);
        if !rejected(v.last()) {
            let k = kept(v.drop_last());
            assert(k.push(v.last()).drop_last() =~= k);
        }
    }
}

proof fn lemma_order_of_equals(v: Seq<Candidate>, x: i64)
    ensures
        by_rating(v).filter(is_rated(x)) == v.filter(is_rated(x)),
    decreases v.len(),
{
    reveal(Seq::filter);
    if v.len() > 0 {
        let d = v.drop_last();
        let c = v.last();
        lemma_order_of_equals(d, x);
        lemma_sorted(d);
        let s = by_rating(d);
        lemma_slot(s, c.rating);
        let at = slot(s, c.rating) as int;
        let (a, b) = (s.take(at), s.skip(at));
        assert(s =~= a + b);
        assert(by_rating(v) =~= (a + seq![c]) + b);
        Seq::filter_distributes_over_add(a, b, is_rated(x));
        Seq::filter_distributes_over_add(a + seq![c], b, is_rated(x));
        Seq::filter_distributes_over_add(a, seq![c], is_rated(x));
        assert(seq![c].drop_last() =~= Seq::<Candidate>::empty());
        assert(seq![c].last() == c);
        assert(Seq::<Candidate>::empty().filter(is_rated(x)) =~= Seq::empty());
        if c.rating == x {
            lemma_none_left(b, x);
            assert(by_rating(v).filter(is_rated(x)) =~= v.filter(is_rated(x)));
        } else {
            assert(seq![c].filter(is_rated(x)) =~= Seq::empty());
            assert(by_rating(v).filter(is_rated(x)) =~= v.filter(is_rated(x)));
        }
    }
}

proof fn lemma_none_left(v: Seq<Candidate>, x: i64)
    requires
        forall|i: int| 0 <= i < v.len() ==> (#[trigger] v[i]).rating < x,
    ensures
        v.filter(is_rated(x)) == Seq::<Candidate>::empty(),
    decreases v.len(),
{
    reveal(Seq::filter);
    if v.len() > 0 {
        assert(v.last() == v[v.len() - 1]);
        lemma_none_left(v.drop_last(), x);
    }
    assert(v.filter(is_rated(x)) =~= Seq::empty());
}

/// The songs come by falling rating; those of one rating are exactly the
/// candidates of that rating that were not clearly turned down, in the order in
/// which they were given. `ranking` are the candidates in the order of the songs.
pub proof fn law_taste_orders_the_candidates(
    candidates: Vec<Candidate>,
    songs_out: Vec<Track>,
) -> (ranking: Seq<Candidate>)
    requires
        call_ensures(taste_order, (candidates,), songs_out),
    ensures
        ranking.len() == songs_out@.len(),
        forall|i: int|
            0 <= i < ranking.len() ==> (#[trigger] ranking[i]).track == songs_out@[i],
        forall|i: int, j: int|
            0 <= i < j < ranking.len() ==> (#[trigger] ranking[i]).rating >= (#[trigger] ranking[j]).rating,
        forall|x: i64|
            ranking.filter(|c: Candidate| c.rating == x) == candidates@.filter(
                #[trigger] is_match(x),
            ),
{
    let v = candidates@;
    let w = by_rating(kept(v));
    lemma_sorted(kept(v));
    assert forall|x: i64| w.filter(|c: Candidate| c.rating == x) == v.filter(
        #[trigger] is_match(x),
    ) by {
        lemma_order_of_equals(kept(v), x);
        lemma_kept_of_rating(v, x);
        assert(is_rated(x) =~= (|c: Candidate| c.rating == x));
    }
    w
}

} // verus!
