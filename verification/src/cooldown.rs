//! A limit on how often the bot replies in a group.

use vstd::prelude::*;
use crate::clock::Timestamp;
use crate::ident::GroupId;
use crate::table::Table;

verus! {

/// Remembers when a reply last went to each group, and refuses one that comes
/// too soon after it.
pub struct ReplyCooldown {
    /// The least time between replies, in nanoseconds.
    min_interval: u128,
    last_reply: Table<Timestamp>,
}

/// A reply at `now` comes too soon after the last one to the group `k`: not more
/// than the interval lies between them. An interval of zero limits nothing.
pub open spec fn too_soon(
    last: Map<Seq<char>, Timestamp>,
    interval: int,
    k: Seq<char>,
    now: Timestamp,
) -> bool {
    last.contains_key(k) && interval > 0 && now.total() - last[k].total() <= interval
}

/// The marks of `list`, a later one in place of an earlier one of its group.
pub open spec fn marks(list: Seq<(GroupId, Timestamp)>) -> Map<Seq<char>, Timestamp>
    decreases list.len(),
{
    if list.len() == 0 {
        Map::empty()
    } else {
        marks(list.drop_last()).insert(list.last().0@, list.last().1)
    }
}

impl ReplyCooldown {
    /// The least time between replies, in nanoseconds.
    pub closed spec fn interval(self) -> int {
        self.min_interval as int
    }

    /// When a reply last went to each group.
    pub closed spec fn last(self) -> Map<Seq<char>, Timestamp> {
        self.last_reply@
    }

    /// No group stands twice.
    pub closed spec fn wf(self) -> bool {
        self.last_reply.wf()
    }

    /// A limit of the given number of nanoseconds. Zero allows everything.
    pub fn new(min_interval: u128) -> (res: Self)
        ensures
            res.wf(),
            res.interval() == min_interval,
            res.last() == Map::<Seq<char>, Timestamp>::empty(),
    {
        ReplyCooldown { min_interval, last_reply: Table::new() }
    }

    /// A limit that starts with the marks of an earlier run.
    pub fn new_with_store(min_interval: u128, watermarks: Vec<(GroupId, Timestamp)>) -> (res: Self)
        ensures
            res.wf(),
            res.interval() == min_interval,
            res.last() == marks(watermarks@),
    {
        let mut last_reply: Table<Timestamp> = Table::new();
        let mut i: usize = 0;
        while i < watermarks.len()
            invariant
                0 <= i <= watermarks@.len(),
                last_reply.wf(),
                last_reply@ == marks(watermarks@.take(i as int)),
            decreases watermarks@.len() - i,
        {
            assert(watermarks@.take(i + 1).drop_last() =~= watermarks@.take(i as int));
            assert(watermarks@.take(i + 1).last() == watermarks@[i as int]);
            last_reply.put(watermarks[i].0.clone(), watermarks[i].1);
            i = i + 1;
        }
        assert(watermarks@.take(i as int) =~= watermarks@);
        ReplyCooldown { min_interval, last_reply }
    }

    /// Whether a reply to the group may go out at `now`: the last one went out
    /// more than the interval ago. If so, the time is taken down.
    pub fn allow_at(&mut self, group_id: &GroupId, now: Timestamp) -> (res: bool)
        requires
            old(self).wf(),
        ensures
            final(self).wf(),
            final(self).interval() == old(self).interval(),
            res == !too_soon(old(self).last(), old(self).interval(), group_id@, now),
            final(self).last() == if res {
                old(self).last().insert(group_id@, now)
            } else {
                old(self).last()
            },
    {
        if let Some(prev) = self.last_reply.get(group_id.as_str()) {
            let gap: i128 = now.since(prev);
            if self.min_interval > 0 && (gap < 0 || gap as u128 <= self.min_interval) {
                return false;
            }
        }
        self.last_reply.put(group_id.clone(), now);
        true
    }

    /// The mark to be saved for a reply to the group at `now`, where it may go
    /// out; where it may not, nothing is saved.
    pub fn mark_at(&mut self, group_id: &GroupId, now: Timestamp) -> (res: Option<
        (GroupId, Timestamp),
    >)
        requires
            old(self).wf(),
        ensures
            final(self).wf(),
            final(self).interval() == old(self).interval(),
            match res {
                Some(mark) => {
                    &&& !too_soon(old(self).last(), old(self).interval(), group_id@, now)
                    &&& mark.0@ == group_id@
                    &&& mark.1 == now
                    &&& final(self).last() == old(self).last().insert(group_id@, now)
                },
                None => {
                    &&& too_soon(old(self).last(), old(self).interval(), group_id@, now)
                    &&& final(self).last() == old(self).last()
                },
            },
    {
        if self.allow_at(group_id, now) {
            Some((group_id.clone(), now))
        } else {
            None
        }
    }

    /// Whether a reply to the group may go out now; if so, the time is taken down.
    pub fn allow(&mut self, group_id: &GroupId) -> (res: bool)
        requires
            old(self).wf(),
        ensures
            final(self).wf(),
            final(self).interval() == old(self).interval(),
            exists|now: Timestamp| #[trigger]
                now.valid() && res == !too_soon(
                    old(self).last(),
                    old(self).interval(),
                    group_id@,
                    now,
                ) && final(self).last() == if res {
                    old(self).last().insert(group_id@, now)
                } else {
                    old(self).last()
                },
            old(self).interval() == 0 ==> res,
            !old(self).last().contains_key(group_id@) ==> res,
    {
        let now: Timestamp = Timestamp::now();
        let res: bool = self.allow_at(group_id, now);
        assert(now.valid());
        res
    }
}

/// Two replies that were let through to one group lie more than the interval
/// apart, unless it is zero; a reply to one group leaves the others free.
pub proof fn law_replies_keep_interval(
    last: Map<Seq<char>, Timestamp>,
    interval: int,
    group: Seq<char>,
    first: Timestamp,
    second: Timestamp,
    other: Seq<char>,
)
    requires
        !too_soon(last.insert(group, first), interval, group, second),
        other != group,
    ensures
        interval > 0 ==> second.total() - first.total() > interval,
        too_soon(last.insert(group, first), interval, other, second) == too_soon(
            last,
            interval,
            other,
            second,
        ),
{
    assert(last.insert(group, first).contains_key(group));
}

/// A limit that starts with the marks of an earlier run, kept in the order in
/// which the replies went out, goes on where that run ended.
pub proof fn law_marks_survive_restart(list: Seq<(GroupId, Timestamp)>, group: GroupId, now: Timestamp)
    ensures
        marks(list.push((group, now))) == marks(list).insert(group@, now),
{
    assert(list.push((group, now)).drop_last() =~= list);
}

/// The marks that were saved are all that a restart needs: where they tell of
/// every reply so far, they still do with the mark of one more.
pub proof fn law_saved_marks_survive_restart(
    saved: Seq<(GroupId, Timestamp)>,
    last: Map<Seq<char>, Timestamp>,
    mark: (GroupId, Timestamp),
)
    requires
        marks(saved) == last,
    ensures
        marks(saved.push(mark)) == last.insert(mark.0@, mark.1),
{
    assert(saved.push(mark).drop_last() =~= saved);
}

/// A reply is held back exactly where the group had one before, an interval is set,
/// and not more than the interval lies between them; groups do not disturb each
/// other.
pub proof fn law_reply_is_held_back(
    last: Map<Seq<char>, Timestamp>,
    interval: int,
    k: Seq<char>,
    now: Timestamp,
)
    ensures
        interval == 0 ==> !too_soon(last, interval, k, now),
        !last.contains_key(k) ==> !too_soon(last, interval, k, now),
        interval > 0 && last.contains_key(k) ==> (too_soon(last, interval, k, now) <==> now.secs
            * 1_000_000_000 + now.nanos - (last[k].secs * 1_000_000_000 + last[k].nanos)
            <= interval),
{
}

/// The marks that are taken up are, for every group, the last of its marks in the
/// list, and there are no others.
pub proof fn law_last_mark_counts(list: Seq<(GroupId, Timestamp)>, at: int)
    requires
        0 <= at < list.len(),
        forall|k: int| at < k < list.len() ==> (#[trigger] list[k]).0@ != list[at].0@,
    ensures
        marks(list).contains_pair(list[at].0@, list[at].1),
        forall|g: Seq<char>| #[trigger]
            marks(list).contains_key(g) ==> exists|k: int|
                0 <= k < list.len() && (#[trigger] list[k]).0@ == g,
    decreases list.len(),
{
    let shorter = list.drop_last();
    lemma_marks_known(list);
    if at < list.len() - 1 {
        assert(list[list.len() - 1].0@ != list[at].0@);
        assert(shorter[at] == list[at]);
        assert forall|k: int| at < k < shorter.len() implies (#[trigger] shorter[k]).0@
            != shorter[at].0@ by {
            assert(shorter[k] == list[k]);
        }
        law_last_mark_counts(shorter, at);
    }
}

proof fn lemma_marks_known(list: Seq<(GroupId, Timestamp)>)
    ensures
        forall|g: Seq<char>| #[trigger]
            marks(list).contains_key(g) ==> exists|k: int|
                0 <= k < list.len() && (#[trigger] list[k]).0@ == g,
    decreases list.len(),
{
    if list.len() > 0 {
        let shorter = list.drop_last();
        lemma_marks_known(shorter);
        assert forall|g: Seq<char>| #[trigger] marks(list).contains_key(g) implies exists|k: int|
            0 <= k < list.len() && (#[trigger] list[k]).0@ == g by {
            if g == list.last().0@ {
                assert(list[list.len() - 1].0@ == g);
            } else {
                assert(marks(shorter).contains_key(g));
                let k = choose|k: int| 0 <= k < shorter.len() && (#[trigger] shorter[k]).0@ == g;
                assert(list[k].0@ == g);
            }
        }
    }
}

} // verus!
