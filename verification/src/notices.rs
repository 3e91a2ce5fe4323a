//! Short-lived notices about the stream, shown at the foot of the screen.

use std::collections::VecDeque;

use vstd::prelude::*;

use crate::text::{join, joined};

verus! {

/// A notice and the time until which it is shown.
#[derive(Debug)]
pub struct Notice {
    pub text: String,
    pub expires: u64,
}

/// A bounded ring of notices.
#[derive(Debug)]
pub struct Notices {
    pub items: VecDeque<Notice>,
}

/// Notices that fit at the foot of the screen.
pub const NOTICE_CAP: usize = 3;

/// How long a notice stays after it was last reported.
pub const NOTICE_LIFETIME: u64 = 8_000_000_000;

/// The texts and expiry times of notices.
pub open spec fn notice_list(items: Seq<Notice>) -> Seq<(Seq<char>, u64)> {
    items.map_values(|n: Notice| (n.text@, n.expires))
}

/// The last notice with this text that has not expired at `now`, or -1.
pub open spec fn live_index(list: Seq<(Seq<char>, u64)>, text: Seq<char>, now: u64) -> int
    decreases list.len(),
{
    if list.len() == 0 {
        -1
    } else if list.last().0 == text && list.last().1 > now {
        list.len() - 1
    } else {
        live_index(list.drop_last(), text, now)
    }
}

/// The notice that a report at `now` renews, or -1: the one with its text that is
/// still shown, or the latest one if it has that text.
pub open spec fn renewed_index(list: Seq<(Seq<char>, u64)>, text: Seq<char>, now: u64) -> int {
    if live_index(list, text, now) >= 0 {
        live_index(list, text, now)
    } else if list.len() > 0 && list.last().0 == text {
        list.len() - 1
    } else {
        -1
    }
}

/// The list after a report at `now`: a repetition renews the notice where it
/// stands; anything else is added, and the oldest one leaves a full ring.
pub open spec fn reported(list: Seq<(Seq<char>, u64)>, text: Seq<char>, now: u64) -> Seq<
    (Seq<char>, u64),
> {
    let entry = (text, (now + NOTICE_LIFETIME) as u64);
    let at = renewed_index(list, text, now);
    if at >= 0 {
        list.update(at, entry)
    } else if list.len() >= NOTICE_CAP {
        list.drop_first().push(entry)
    } else {
        list.push(entry)
    }
}

/// Where the reported notice stands afterwards.
pub open spec fn reported_index(list: Seq<(Seq<char>, u64)>, text: Seq<char>, now: u64) -> int {
    let at = renewed_index(list, text, now);
    if at >= 0 {
        at
    } else {
        reported(list, text, now).len() - 1
    }
}

/// The texts that have not expired at `now`, oldest first.
pub open spec fn live(list: Seq<(Seq<char>, u64)>, now: u64) -> Seq<Seq<char>>
    decreases list.len(),
{
    if list.len() == 0 {
        Seq::empty()
    } else {
        let rest = live(list.drop_last(), now);
        if list.last().1 > now {
            rest.push(list.last().0)
        } else {
            rest
        }
    }
}

impl Notices {
    pub open spec fn view(&self) -> Seq<(Seq<char>, u64)> {
        notice_list(self.items@)
    }

    pub open spec fn wf(&self) -> bool {
        self.items@.len() <= NOTICE_CAP
    }

    /// The last notice with this text that is still shown at `now`.
    fn find_live(&self, text: &String, now: u64) -> (r: Option<usize>)
        ensures
            match r {
                Some(i) => i < self.items@.len() && i == live_index(self@, text@, now),
                None => live_index(self@, text@, now) < 0,
            },
    {
        let mut n: usize = self.items.len();
        proof {
            assert(self@.take(n as int) =~= self@);
        }
        while n > 0
            invariant
                n <= self.items@.len(),
                live_index(self@, text@, now) == live_index(self@.take(n as int), text@, now),
            decreases n,
        {
            proof {
                assert(self@.take(n as int).drop_last() =~= self@.take(n - 1));
                assert(self@.take(n as int).last() == self@[n - 1]);
            }
            if self.items[n - 1].text == *text && self.items[n - 1].expires > now {
                return Some(n - 1);
            }
            n = n - 1;
        }
        None
    }

    /// Records a notice. Repeating one that is still shown only renews it, so a
    /// failure that repeats does not fill the screen.
    pub fn push(&mut self, text: String, now: u64)
        requires
            old(self).wf(),
            now <= u64::MAX - NOTICE_LIFETIME,
        ensures
            final(self).wf(),
            final(self)@ == reported(old(self)@, text@, now),
    {
        let expires: u64 = now + NOTICE_LIFETIME;
        let ghost before = self.items@;
        let n: usize = self.items.len();
        let mut at: Option<usize> = self.find_live(&text, now);
        if at.is_none() && n > 0 && self.items[n - 1].text == text {
            at = Some(n - 1);
        }
        if let Some(i) = at {
            let _ = self.items.remove(i);
            self.items.insert(i, Notice { text, expires });
            proof {
                assert(notice_list(self.items@) =~= notice_list(before).update(
                    i as int,
                    (text@, expires),
                ));
            }
            return;
        }
        self.items.push_back(Notice { text, expires });
        if self.items.len() > NOTICE_CAP {
            let _ = self.items.pop_front();
            proof {
                assert(notice_list(self.items@) =~= notice_list(before).drop_first().push(
                    (text@, expires),
                ));
            }
        } else {
            proof {
                assert(notice_list(self.items@) =~= notice_list(before).push((text@, expires)));
            }
        }
    }

    /// The notices that are shown now, joined; empty when there is none.
    pub fn active(&self, now: u64) -> (r: String)
        ensures
            r@ == joined(live(self@, now), " · "@),
    {
        let mut shown: Vec<String> = Vec::new();
        let mut i: usize = 0;
        while i < self.items.len()
            invariant
                0 <= i <= self.items.len(),
                crate::text::texts(shown@) == live(self@.take(i as int), now),
            decreases self.items.len() - i,
        {
            proof {
                assert(self@.take(i + 1).drop_last() =~= self@.take(i as int));
                assert(self@.take(i + 1).last() == self@[i as int]);
            }
            let ghost before = shown@;
            if self.items[i].expires > now {
                shown.push(self.items[i].text.clone());
                proof {
                    assert(crate::text::texts(shown@) =~= crate::text::texts(before).push(
                        self.items@[i as int].text@,
                    ));
                }
            }
            i = i + 1;
        }
        proof {
            assert(self@.take(self.items.len() as int) =~= self@);
        }
        join(&shown, " · ")
    }
}

impl Default for Notices {
    fn default() -> (r: Self)
        ensures
            r.wf(),
            r@ == Seq::<(Seq<char>, u64)>::empty(),
    {
        let r = Notices { items: VecDeque::new() };
        assert(r@ =~= Seq::<(Seq<char>, u64)>::empty());
        r
    }
}

proof fn lemma_live_index(list: Seq<(Seq<char>, u64)>, text: Seq<char>, now: u64)
    ensures
        ({
            let at = live_index(list, text, now);
            &&& -1 <= at < list.len()
            &&& at >= 0 ==> list[at].0 == text && list[at].1 > now
            &&& forall|i: int|
                at < i < list.len() ==> !((#[trigger] list[i]).0 == text && list[i].1 > now)
        }),
    decreases list.len(),
{
    if list.len() > 0 {
        lemma_live_index(list.drop_last(), text, now);
        let at = live_index(list, text, now);
        assert forall|i: int| at < i < list.len() implies !((#[trigger] list[i]).0 == text
            && list[i].1 > now) by {
            if i < list.len() - 1 {
                assert(list[i] == list.drop_last()[i]);
            }
        }
    }
}

proof fn lemma_live_index_is(list: Seq<(Seq<char>, u64)>, text: Seq<char>, now: u64, at: int)
    requires
        0 <= at < list.len(),
        list[at].0 == text && list[at].1 > now,
        forall|i: int| at < i < list.len() ==> !((#[trigger] list[i]).0 == text && list[i].1 > now),
    ensures
        live_index(list, text, now) == at,
{
    lemma_live_index(list, text, now);
    let found = live_index(list, text, now);
    if found < at {
        assert(list[at].0 == text);
    } else if found > at {
        assert(list[found].0 == text);
    }
}

/// Repeating a notice while it is shown only renews it, where it stands and
/// whatever was reported after it: nothing is added and nothing leaves.
pub proof fn law_repeats_only_renew(
    list: Seq<(Seq<char>, u64)>,
    at: int,
    text: Seq<char>,
    now: u64,
)
    requires
        list.len() <= NOTICE_CAP,
        now <= u64::MAX - NOTICE_LIFETIME,
        0 <= at < list.len(),
        list[at].0 == text,
        list[at].1 > now,
    ensures
        ({
            let after = reported(list, text, now);
            let k = reported_index(list, text, now);
            &&& after.len() == list.len()
            &&& 0 <= k < list.len() && list[k].0 == text && list[k].1 > now
            &&& after == list.update(k, (text, (now + NOTICE_LIFETIME) as u64))
        }),
{
    lemma_live_index(list, text, now);
    assert(list[at].0 == text);
}

/// The ring never exceeds its capacity.
pub proof fn law_ring_is_bounded(list: Seq<(Seq<char>, u64)>, text: Seq<char>, now: u64)
    requires
        list.len() <= NOTICE_CAP,
    ensures
        reported(list, text, now).len() <= NOTICE_CAP,
{
    lemma_live_index(list, text, now);
}

/// Reporting a text twice is reporting it once, later, as long as it is still
/// shown at the second report.
pub proof fn law_second_report_renews_the_first(
    list: Seq<(Seq<char>, u64)>,
    text: Seq<char>,
    now: u64,
    later: u64,
)
    requires
        list.len() <= NOTICE_CAP,
        now <= later < now + NOTICE_LIFETIME,
        later <= u64::MAX - NOTICE_LIFETIME,
    ensures
        ({
            let once = reported(list, text, now);
            let k = reported_index(list, text, now);
            reported(once, text, later) == once.update(k, (text, (later + NOTICE_LIFETIME) as u64))
        }),
{
    let once = reported(list, text, now);
    let k = reported_index(list, text, now);
    lemma_live_index(list, text, now);
    assert(once[k] == (text, (now + NOTICE_LIFETIME) as u64));
    assert forall|i: int| k < i < once.len() implies !((#[trigger] once[i]).0 == text && once[i].1
        > later) by {
        assert(once[i] == list[i]);
    }
    lemma_live_index_is(once, text, later, k);
}

/// No text is shown twice at `at`.
pub open spec fn shown_once(list: Seq<(Seq<char>, u64)>, at: u64) -> bool {
    forall|i: int, j: int|
        0 <= i < j < list.len() && (#[trigger] list[i]).1 > at && (#[trigger] list[j]).1 > at
            ==> list[i].0 != list[j].0
}

/// No report makes a text be shown twice.
pub proof fn law_texts_are_shown_once(
    list: Seq<(Seq<char>, u64)>,
    text: Seq<char>,
    now: u64,
    at: u64,
)
    requires
        list.len() <= NOTICE_CAP,
        now <= at,
        now <= u64::MAX - NOTICE_LIFETIME,
        shown_once(list, now),
    ensures
        shown_once(reported(list, text, now), at),
{
    lemma_live_index(list, text, now);
    let after = reported(list, text, now);
    let k = renewed_index(list, text, now);
    let drops = k < 0 && list.len() >= NOTICE_CAP;
    assert forall|i: int, j: int|
        0 <= i < j < after.len() && (#[trigger] after[i]).1 > at && (#[trigger] after[j]).1
            > at implies after[i].0 != after[j].0 by {
        if drops {
            assert(after[i] == list[i + 1]);
            if j + 1 < list.len() {
                assert(after[j] == list[j + 1]);
            }
        } else {
            if i != k && i < list.len() {
                assert(after[i] == list[i]);
            }
            if j != k && j < list.len() {
                assert(after[j] == list[j]);
            }
            if k >= 0 {
                assert(list[k].0 == text);
            }
        }
    }
}

proof fn lemma_live_has(list: Seq<(Seq<char>, u64)>, k: int, at: u64)
    requires
        0 <= k < list.len(),
    ensures
        list[k].1 > at ==> live(list, at).contains(list[k].0),
        list[k].1 <= at ==> live(list, at) == live(list.remove(k), at),
    decreases list.len(),
{
    let rest = list.drop_last();
    if k == list.len() - 1 {
        assert(list.remove(k) =~= rest);
        if list[k].1 > at {
            let l = live(list, at);
            assert(l[l.len() - 1] == list[k].0);
        }
    } else {
        lemma_live_has(rest, k, at);
        assert(list.remove(k).drop_last() =~= rest.remove(k));
        assert(list.remove(k).last() == list.last());
        if list[k].1 > at {
            let i = choose|i: int| 0 <= i < live(rest, at).len() && live(rest, at)[i] == list[k].0;
            assert(live(list, at)[i] == list[k].0);
        }
    }
}

/// A notice is shown from the moment it is reported for its whole lifetime, and
/// not from then on.
pub proof fn law_notices_expire(list: Seq<(Seq<char>, u64)>, text: Seq<char>, now: u64, at: u64)
    requires
        now <= u64::MAX - NOTICE_LIFETIME,
    ensures
        ({
            let after = reported(list, text, now);
            let k = reported_index(list, text, now);
            &&& after[k] == (text, (now + NOTICE_LIFETIME) as u64)
            &&& at < now + NOTICE_LIFETIME ==> live(after, at).contains(text)
            &&& at >= now + NOTICE_LIFETIME ==> live(after, at) == live(after.remove(k), at)
        }),
{
    lemma_live_index(list, text, now);
    lemma_live_has(reported(list, text, now), reported_index(list, text, now), at);
}

/// A text that is not among the notices is added behind them, for eight seconds;
/// if there are three already, the oldest goes.
pub proof fn law_new_texts_are_added_behind(
    list: Seq<(Seq<char>, u64)>,
    text: Seq<char>,
    now: u64,
)
    requires
        list.len() <= 3,
        now <= u64::MAX - 8_000_000_000,
        forall|i: int| 0 <= i < list.len() ==> (#[trigger] list[i]).0 != text,
    ensures
        ({
            let kept = if list.len() == 3 {
                list.skip(1)
            } else {
                list
            };
            reported(list, text, now) == kept + seq![(text, (now + 8_000_000_000) as u64)]
        }),
{
    lemma_no_live(list, text, now);
    let entry = (text, (now + 8_000_000_000) as u64);
    assert(list.drop_first().push(entry) =~= list.skip(1) + seq![entry]);
    assert(list.push(entry) =~= list + seq![entry]);
}

proof fn lemma_no_live(list: Seq<(Seq<char>, u64)>, text: Seq<char>, now: u64)
    requires
        forall|i: int| 0 <= i < list.len() ==> (#[trigger] list[i]).0 != text,
    ensures
        live_index(list, text, now) < 0,
    decreases list.len(),
{
    if list.len() > 0 {
        assert(list.last() == list[list.len() - 1]);
        lemma_no_live(list.drop_last(), text, now);
    }
}

/// What is shown are the texts of the notices that have not expired, oldest
/// first, with a dot between them.
pub proof fn law_unexpired_notices_are_shown(notices: Notices, now: u64, text: String)
    requires
        call_ensures(Notices::active, (&notices, now), text),
    ensures
        text@ == joined(
            notices@.filter(|n: (Seq<char>, u64)| now < n.1).map_values(
                |n: (Seq<char>, u64)| n.0,
            ),
            " · "@,
        ),
{
    lemma_live_is_filter(notices@, now);
}

proof fn lemma_live_is_filter(list: Seq<(Seq<char>, u64)>, now: u64)
    ensures
        live(list, now) == list.filter(|n: (Seq<char>, u64)| now < n.1).map_values(
            |n: (Seq<char>, u64)| n.0,
        ),
    decreases list.len(),
{
    reveal(Seq::filter);
    let p = |n: (Seq<char>, u64)| now < n.1;
    let f = |n: (Seq<char>, u64)| n.0;
    if list.len() == 0 {
        assert(list.filter(p).map_values(f) =~= Seq::empty());
    } else {
        lemma_live_is_filter(list.drop_last(), now);
        let rest = list.drop_last().filter(p);
        assert(rest.push(list.last()).map_values(f) =~= rest.map_values(f).push(list.last().0));
    }
}

/// A report is found in the list after it.
pub proof fn law_reports_are_in_the_list(list: Seq<(Seq<char>, u64)>, text: Seq<char>, now: u64)
    ensures
        0 <= reported_index(list, text, now) < reported(list, text, now).len(),
{
    lemma_live_index_in_the_list(list, text, now);
}

proof fn lemma_live_index_in_the_list(list: Seq<(Seq<char>, u64)>, text: Seq<char>, now: u64)
    ensures
        live_index(list, text, now) < list.len(),
    decreases list.len(),
{
    if list.len() > 0 {
        lemma_live_index_in_the_list(list.drop_last(), text, now);
    }
}

/// A report is among the notices for eight seconds, whatever was there before.
pub proof fn law_reports_are_shown(n: &mut Notices, text: String, now: u64, at: u64)
    requires
        call_ensures(Notices::push, (n, text, now), ()),
        now <= u64::MAX - 8_000_000_000,
        at < now + 8_000_000_000,
    ensures
        exists|i: int|
            0 <= i < final(n)@.len() && (#[trigger] final(n)@[i]).0 == text@ && final(n)@[i].1 > at,
{
    law_notices_expire(old(n)@, text@, now, at);
    law_reports_are_in_the_list(old(n)@, text@, now);
    let k = reported_index(old(n)@, text@, now);
    assert(final(n)@[k].0 == text@);
}

} // verus!
