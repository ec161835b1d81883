//! The memory of relationships: a graph in memory, and how relationships are
//! written down.

use vstd::prelude::*;
use vstd::string::*;
use crate::json::{member, Json, JsonNumber};
use crate::single::{gives, show_with, shown_as, shows_all, total, Calc, Single};
use crate::text::{chars_of, has_text, join, joined, occurs_at, position, same, text_of, texts};
use crate::types::GraphUpdate;

verus! {

/// A relationship, with its strength so far.
#[derive(Debug, PartialEq)]
pub struct Relation {
    pub from: String,
    pub to: String,
    pub kind: String,
    pub delta: Single,
}

impl Clone for Relation {
    fn clone(&self) -> (res: Self)
        ensures
            res == *self,
    {
        Relation {
            from: self.from.clone(),
            to: self.to.clone(),
            kind: self.kind.clone(),
            delta: self.delta,
        }
    }
}

/// What tells relationships apart: from whom, to whom, and of what kind.
pub type RelationKey = (Seq<char>, Seq<char>, Seq<char>);

impl Relation {
    /// From whom, to whom, and of what kind.
    pub open spec fn key(self) -> RelationKey {
        (self.from@, self.to@, self.kind@)
    }
}

/// Where the first occurrence of `sub` in `s` begins.
#[verifier::opaque]
pub open spec fn first_place(s: Seq<char>, sub: Seq<char>) -> Option<int> {
    if has_text(s, sub) {
        Some(
            choose|i: int|
                occurs_at(s, sub, i) && forall|j: int| 0 <= j < i ==> !occurs_at(s, sub, j),
        )
    } else {
        None
    }
}

/// Where the first occurrence of `sub` in `s` begins.
fn find(s: &Vec<char>, sub: &Vec<char>) -> (res: Option<usize>)
    ensures
        match res {
            Some(i) => first_place(s@, sub@) == Some(i as int) && occurs_at(s@, sub@, i as int),
            None => first_place(s@, sub@) is None,
        },
{
    let res: Option<usize> = position(s, sub);
    proof {
        reveal(first_place);
        if let Some(i) = res {
            let k = first_place(s@, sub@)->0;
            assert(occurs_at(s@, sub@, i as int) && forall|j: int|
                0 <= j < i ==> !occurs_at(s@, sub@, j));
            assert(occurs_at(s@, sub@, k));
            assert(k == i);
        }
    }
    res
}

/// The kind of relationship that a statement speaks of: what stands between
/// the first `-[r:` and the next `]`, and `REL` where there is no such thing.
pub open spec fn kind_of(cypher: Seq<char>) -> Seq<char> {
    match first_place(cypher, "-[r:"@) {
        Some(start) => {
            let rest = cypher.skip(start + 4);
            match first_place(rest, "]"@) {
                Some(end) => rest.take(end),
                None => "REL"@,
            }
        },
        None => "REL"@,
    }
}

/// The kind of relationship that a statement speaks of.
pub fn extract_kind(cypher: &str) -> (res: String)
    ensures
        res@ == kind_of(cypher@),
{
    let v: Vec<char> = chars_of(cypher);
    let len: usize = v.len();
    proof {
        reveal_strlit("-[r:");
        reveal_strlit("]");
    }
    if let Some(start) = find(&v, &chars_of("-[r:")) {
        assert(start + 4 <= len);
        let tail: String = text_of(&v, start + 4, len);
        assert(tail@ =~= cypher@.skip(start + 4));
        let rest: Vec<char> = chars_of(tail.as_str());
        if let Some(end) = find(&rest, &chars_of("]")) {
            assert(rest@.subrange(0, end as int) =~= rest@.take(end as int));
            return text_of(&rest, 0, end);
        }
    }
    "REL".to_string()
}

/// What an update says of a relationship, where it names both users and a
/// number.
pub ghost struct Told {
    pub key: RelationKey,
    pub number: JsonNumber,
}

/// What an update says of a relationship.
pub open spec fn told(u: GraphUpdate) -> Option<Told> {
    match (
        member(u.params@, "from"@, 0),
        member(u.params@, "to"@, 0),
        member(u.params@, "delta"@, 0),
    ) {
        (Some(Json::Text(from)), Some(Json::Text(to)), Some(Json::Number(number))) => Some(
            Told { key: (from@, to@, kind_of(u.cypher@)), number },
        ),
        _ => None,
    }
}

/// `narrow` takes every number.
pub open spec fn narrows_all<N: Fn(&JsonNumber) -> Single>(narrow: N) -> bool {
    forall|n: &JsonNumber| #[trigger] call_requires(narrow, (n,))
}

/// `narrow` may give `r` for `n`.
pub open spec fn narrowed<N: Fn(&JsonNumber) -> Single>(
    narrow: N,
    n: JsonNumber,
    r: Single,
) -> bool {
    call_ensures(narrow, (&n,), r)
}

/// Where the relationship with the key `k` stands, from position `from` on.
pub open spec fn rank_of(list: Seq<Relation>, k: RelationKey, from: int) -> Option<int>
    decreases list.len() - from,
{
    if from < 0 || from >= list.len() {
        None
    } else if list[from].key() == k {
        Some(from)
    } else {
        rank_of(list, k, from + 1)
    }
}

/// No two relationships have the same users and the same kind.
pub open spec fn relations_unique(list: Seq<Relation>) -> bool {
    forall|i: int, j: int|
        0 <= i < j < list.len() ==> (#[trigger] list[i]).key() != (#[trigger] list[j]).key()
}

/// The strength of the relationship with the key `k`.
pub open spec fn strength(list: Seq<Relation>, k: RelationKey) -> Option<Single> {
    match rank_of(list, k, 0) {
        Some(i) => Some(list[i].delta),
        None => None,
    }
}

/// `after` is `before` with `delta` added to the relationship with the key `k`,
/// or with the relationship set up where there was none.
pub open spec fn merged<F: Fn(Calc) -> Single>(
    f: F,
    before: Seq<Relation>,
    k: RelationKey,
    delta: Single,
    after: Seq<Relation>,
) -> bool {
    match rank_of(before, k, 0) {
        Some(i) => exists|sum: Single| #[trigger]
            gives(f, Calc::Add(before[i].delta, delta), sum) && after == before.update(
                i,
                Relation { delta: sum, ..before[i] },
            ),
        None => after.len() == before.len() + 1 && after.drop_last() == before
            && after.last().key() == k && after.last().delta == delta,
    }
}

/// `after` is `before` with one update applied.
pub open spec fn updated<F: Fn(Calc) -> Single, N: Fn(&JsonNumber) -> Single>(
    f: F,
    narrow: N,
    before: Seq<Relation>,
    u: GraphUpdate,
    after: Seq<Relation>,
) -> bool {
    match told(u) {
        Some(t) => exists|delta: Single| #[trigger]
            narrowed(narrow, t.number, delta) && merged(f, before, t.key, delta, after),
        None => after == before,
    }
}

/// `steps` are the states from `before` on, one for each update.
pub open spec fn update_run<F: Fn(Calc) -> Single, N: Fn(&JsonNumber) -> Single>(
    f: F,
    narrow: N,
    updates: Seq<GraphUpdate>,
    steps: Seq<Seq<Relation>>,
) -> bool {
    &&& steps.len() == updates.len() + 1
    &&& forall|i: int|
        0 <= i < updates.len() ==> updated(
            f,
            narrow,
            #[trigger] steps[i],
            updates[i],
            steps[i + 1],
        )
}

/// The value of a parameter.
fn param<'a>(u: &'a GraphUpdate, name: &str) -> (res: Option<&'a Json>)
    ensures
        match res {
            Some(j) => member(u.params@, name@, 0) == Some(*j),
            None => member(u.params@, name@, 0) is None,
        },
{
    let mut i: usize = 0;
    while i < u.params.len()
        invariant
            0 <= i <= u.params@.len(),
            member(u.params@, name@, 0) == member(u.params@, name@, i as int),
        decreases u.params@.len() - i,
    {
        if same(u.params[i].0.as_str(), name) {
            return Some(&u.params[i].1);
        }
        i = i + 1;
    }
    None
}

/// A graph in memory. It keeps the updates, and adds up the relationships that
/// they speak of.
pub struct InMemoryGraphStore {
    updates: Vec<GraphUpdate>,
    relationships: Vec<Relation>,
}

impl InMemoryGraphStore {
    /// The updates applied so far.
    pub closed spec fn log(self) -> Seq<GraphUpdate> {
        self.updates@
    }

    /// The relationships, in the order in which they came.
    pub closed spec fn relations(self) -> Seq<Relation> {
        self.relationships@
    }

    /// Between two users there is one relationship of each kind.
    pub open spec fn wf(self) -> bool {
        relations_unique(self.relations())
    }

    /// An empty graph.
    pub fn new() -> (res: Self)
        ensures
            res.wf(),
            res.log().len() == 0,
            res.relations().len() == 0,
    {
        InMemoryGraphStore { updates: Vec::new(), relationships: Vec::new() }
    }

    /// The updates applied so far.
    pub fn applied_updates(&self) -> (res: &Vec<GraphUpdate>)
        ensures
            res@ == self.log(),
    {
        &self.updates
    }

    /// Where a relationship stands.
    fn locate(&self, from: &str, to: &str, kind: &str) -> (res: Option<usize>)
        ensures
            match res {
                Some(i) => i < self.relations().len() && rank_of(
                    self.relations(),
                    (from@, to@, kind@),
                    0,
                ) == Some(i as int),
                None => rank_of(self.relations(), (from@, to@, kind@), 0) is None,
            },
    {
        let ghost list = self.relations();
        let ghost k = (from@, to@, kind@);
        let mut i: usize = 0;
        while i < self.relationships.len()
            invariant
                0 <= i <= self.relationships@.len(),
                list == self.relationships@,
                k == (from@, to@, kind@),
                rank_of(list, k, 0) == rank_of(list, k, i as int),
            decreases self.relationships@.len() - i,
        {
            let r: &Relation = &self.relationships[i];
            if same(r.from.as_str(), from) && same(r.to.as_str(), to) && same(
                r.kind.as_str(),
                kind,
            ) {
                return Some(i);
            }
            i = i + 1;
        }
        None
    }

    /// The strength of a relationship, if there is one.
    pub fn relationship_delta(&self, from: &str, to: &str, kind: &str) -> (res: Option<Single>)
        ensures
            res == strength(self.relations(), (from@, to@, kind@)),
    {
        match self.locate(from, to, kind) {
            Some(i) => Some(self.relationships[i].delta),
            None => None,
        }
    }

    /// Adds to a relationship, or sets it up.
    pub fn merge_relation<F: Fn(Calc) -> Single>(
        &mut self,
        from: &str,
        to: &str,
        kind: &str,
        delta: Single,
        f: &F,
    )
        requires
            old(self).wf(),
            total(*f),
        ensures
            final(self).wf(),
            final(self).log() == old(self).log(),
            merged(
                *f,
                old(self).relations(),
                (from@, to@, kind@),
                delta,
                final(self).relations(),
            ),
    {
        let ghost before = self.relations();
        match self.locate(from, to, kind) {
            Some(i) => {
                let had: Relation = self.relationships[i].clone();
                let sum: Single = f(Calc::Add(had.delta, delta));
                assert(gives(*f, Calc::Add(before[i as int].delta, delta), sum));
                self.relationships.set(
                    i,
                    Relation { from: had.from, to: had.to, kind: had.kind, delta: sum },
                );
            },
            None => {
                self.relationships.push(
                    Relation {
                        from: from.to_string(),
                        to: to.to_string(),
                        kind: kind.to_string(),
                        delta,
                    },
                );
                assert(self.relations().drop_last() =~= before);
            },
        }
        proof {
            law_merge_keeps_unique(
                *f,
                before,
                (from@, to@, kind@),
                delta,
                self.relations(),
            );
        }
    }

    /// Applies one update to the relationships.
    fn apply_one<F: Fn(Calc) -> Single, N: Fn(&JsonNumber) -> Single>(
        &mut self,
        u: &GraphUpdate,
        f: &F,
        narrow: &N,
    )
        requires
            old(self).wf(),
            total(*f),
            narrows_all(*narrow),
        ensures
            final(self).wf(),
            final(self).log() == old(self).log(),
            updated(*f, *narrow, old(self).relations(), *u, final(self).relations()),
    {
        if let (Some(Json::Text(from)), Some(Json::Text(to)), Some(Json::Number(number))) = (
            param(u, "from"),
            param(u, "to"),
            param(u, "delta"),
        ) {
            let delta: Single = narrow(number);
            assert(narrowed(*narrow, *number, delta));
            let kind: String = extract_kind(u.cypher.as_str());
            self.merge_relation(from.as_str(), to.as_str(), kind.as_str(), delta, f);
        }
    }

    /// Applies updates, one after the other, and keeps them.
    pub fn apply_updates<F: Fn(Calc) -> Single, N: Fn(&JsonNumber) -> Single>(
        &mut self,
        updates: Vec<GraphUpdate>,
        f: &F,
        narrow: &N,
    )
        requires
            old(self).wf(),
            total(*f),
            narrows_all(*narrow),
        ensures
            final(self).wf(),
            final(self).log() == old(self).log() + updates@,
            exists|steps: Seq<Seq<Relation>>|
                #![trigger update_run(*f, *narrow, updates@, steps)]
                update_run(*f, *narrow, updates@, steps) && steps[0] == old(self).relations()
                    && steps.last() == final(self).relations(),
    {
        let ghost mut steps: Seq<Seq<Relation>> = seq![self.relations()];
        let ghost all = updates@;
        let mut i: usize = 0;
        while i < updates.len()
            invariant
                0 <= i <= updates@.len(),
                updates@ == all,
                total(*f),
                narrows_all(*narrow),
                self.wf(),
                self.log() == old(self).log(),
                steps.len() == i + 1,
                steps[0] == old(self).relations(),
                steps[i as int] == self.relations(),
                forall|k: int|
                    0 <= k < i ==> updated(
                        *f,
                        *narrow,
                        #[trigger] steps[k],
                        all[k],
                        steps[k + 1],
                    ),
            decreases updates@.len() - i,
        {
            self.apply_one(&updates[i], f, narrow);
            proof {
                let before = steps;
                steps = steps.push(self.relations());
                assert forall|k: int| 0 <= k < i + 1 implies updated(
                    *f,
                    *narrow,
                    #[trigger] steps[k],
                    all[k],
                    steps[k + 1],
                ) by {
                    if k < i {
                        assert(steps[k] == before[k]);
                        assert(steps[k + 1] == before[k + 1]);
                    }
                }
            }
            i = i + 1;
        }
        let mut rest: Vec<GraphUpdate> = updates;
        self.updates.append(&mut rest);
        proof {
            assert(update_run(*f, *narrow, all, steps));
            assert(steps.last() == self.relations());
        }
    }

    /// The strongest relationships, one on each line. Numbers are written by
    /// `show`.
    pub fn relationship_summary<G: Fn(Single) -> String>(&self, limit: usize, show: &G) -> (res:
        String)
        requires
            shows_all(*show),
        ensures
            exists|shown: Seq<Seq<char>>|
                #![trigger summary(strongest(self.relations(), limit as int), shown)]
                all_shown(*show, strongest(self.relations(), limit as int), shown) && res@
                    == summary(strongest(self.relations(), limit as int), shown),
    {
        let sorted: Vec<Relation> = sort(&self.relationships);
        let ghost top = strongest(self.relations(), limit as int);
        let count: usize = if sorted.len() <= limit {
            sorted.len()
        } else {
            limit
        };
        let ghost mut shown: Seq<Seq<char>> = Seq::empty();
        let mut rows: Vec<RelationRow> = Vec::new();
        let mut i: usize = 0;
        while i < count
            invariant
                0 <= i <= count <= sorted@.len(),
                top == sorted@.take(count as int),
                shows_all(*show),
                rows@.len() == i,
                shown.len() == i,
                forall|k: int|
                    0 <= k < i ==> shown_as(*show, top[k].delta, #[trigger] shown[k]),
                forall|k: int| 0 <= k < i ==> row_of(#[trigger] rows@[k], top[k], shown[k]),
            decreases count - i,
        {
            let r: &Relation = &sorted[i];
            let delta: String = show_with(show, r.delta);
            proof {
                shown = shown.push(delta@);
            }
            rows.push(
                RelationRow {
                    from: r.from.clone(),
                    kind: r.kind.clone(),
                    to: r.to.clone(),
                    delta,
                },
            );
            i = i + 1;
        }
        let res: String = summary_text(&rows);
        proof {
            assert(top.len() == i);
            assert(rows@.map_values(|r: RelationRow| row_line(r.from@, r.kind@, r.to@, r.delta@))
                =~= Seq::new(
                top.len(),
                |k: int| row_line(top[k].from@, top[k].kind@, top[k].to@, shown[k]),
            ));
            assert(all_shown(*show, top, shown));
            assert(res@ == summary(top, shown));
        }
        res
    }
}

/// A relationship on a line of its own.
pub open spec fn row_line(
    from: Seq<char>,
    kind: Seq<char>,
    to: Seq<char>,
    delta: Seq<char>,
) -> Seq<char> {
    from + " -["@ + kind + "]-> "@ + to + " (delta "@ + delta + ")"@
}

/// A relationship, with its strength in writing.
#[derive(Debug)]
pub struct RelationRow {
    pub from: String,
    pub kind: String,
    pub to: String,
    pub delta: String,
}

/// `row` is that of `r`, with the strength written as `shown`.
pub open spec fn row_of(row: RelationRow, r: Relation, shown: Seq<char>) -> bool {
    row.from@ == r.from@ && row.kind@ == r.kind@ && row.to@ == r.to@ && row.delta@ == shown
}

/// The relationships, one on each line.
pub fn summary_text(rows: &Vec<RelationRow>) -> (res: String)
    ensures
        res@ == joined(
            rows@.map_values(|r: RelationRow| row_line(r.from@, r.kind@, r.to@, r.delta@)),
            "\n"@,
        ),
{
    let mut lines: Vec<String> = Vec::new();
    let mut i: usize = 0;
    while i < rows.len()
        invariant
            0 <= i <= rows@.len(),
            texts(lines@) == rows@.take(i as int).map_values(
                |r: RelationRow| row_line(r.from@, r.kind@, r.to@, r.delta@),
            ),
        decreases rows@.len() - i,
    {
        let r: &RelationRow = &rows[i];
        let ghost before = lines@;
        lines.push(
            r.from.clone().concat(" -[").concat(r.kind.as_str()).concat("]-> ").concat(
                r.to.as_str(),
            ).concat(" (delta ").concat(r.delta.as_str()).concat(")"),
        );
        proof {
            assert(texts(lines@) =~= texts(before).push(
                row_line(r.from@, r.kind@, r.to@, r.delta@),
            ));
            assert(texts(lines@) =~= rows@.take(i + 1).map_values(
                |r: RelationRow| row_line(r.from@, r.kind@, r.to@, r.delta@),
            ));
        }
        i = i + 1;
    }
    assert(rows@.take(i as int) =~= rows@);
    join(&lines, "\n")
}

/// `sorted` with `r` put in behind everything at least as strong.
pub open spec fn put_in(sorted: Seq<Relation>, r: Relation) -> Seq<Relation>
    decreases sorted.len(),
{
    if sorted.len() == 0 || sorted.last().delta.magnitude() >= r.delta.magnitude() {
        sorted.push(r)
    } else {
        put_in(sorted.drop_last(), r).push(sorted.last())
    }
}

/// The relationships by their strength, whatever its sign, the strongest first;
/// equally strong ones in the order in which they came.
pub open spec fn by_strength(list: Seq<Relation>) -> Seq<Relation>
    decreases list.len(),
{
    if list.len() == 0 {
        Seq::empty()
    } else {
        put_in(by_strength(list.drop_last()), list.last())
    }
}

/// The `limit` strongest relationships, the strongest first.
pub open spec fn strongest(list: Seq<Relation>, limit: int) -> Seq<Relation> {
    let s = by_strength(list);
    if s.len() <= limit {
        s
    } else {
        s.take(limit)
    }
}

/// The relationships, one on each line, with their strengths written as given.
pub open spec fn summary(top: Seq<Relation>, shown: Seq<Seq<char>>) -> Seq<char> {
    joined(
        Seq::new(
            top.len(),
            |i: int| row_line(top[i].from@, top[i].kind@, top[i].to@, shown[i]),
        ),
        "\n"@,
    )
}

/// `show` may write the strengths of `top` as `shown`.
pub open spec fn all_shown<G: Fn(Single) -> String>(
    show: G,
    top: Seq<Relation>,
    shown: Seq<Seq<char>>,
) -> bool {
    shown.len() == top.len() && forall|i: int|
        0 <= i < top.len() ==> shown_as(show, top[i].delta, #[trigger] shown[i])
}

proof fn lemma_put_in_at(sorted: Seq<Relation>, r: Relation, at: int)
    requires
        0 <= at <= sorted.len(),
        at == 0 || sorted[at - 1].delta.magnitude() >= r.delta.magnitude(),
        forall|k: int|
            at <= k < sorted.len() ==> (#[trigger] sorted[k]).delta.magnitude()
                < r.delta.magnitude(),
    ensures
        put_in(sorted, r) == sorted.insert(at, r),
    decreases sorted.len() - at,
{
    if at == sorted.len() {
        assert(sorted.insert(at, r) =~= sorted.push(r));
    } else {
        assert(sorted.last().delta.magnitude() < r.delta.magnitude());
        let shorter = sorted.drop_last();
        assert forall|k: int| at <= k < shorter.len() implies (
        #[trigger] shorter[k]).delta.magnitude() < r.delta.magnitude() by {
            assert(shorter[k] == sorted[k]);
        }
        lemma_put_in_at(shorter, r, at);
        assert(sorted.insert(at, r) =~= shorter.insert(at, r).push(sorted.last()));
    }
}

/// The relationships by their strength.
fn sort(list: &Vec<Relation>) -> (res: Vec<Relation>)
    ensures
        res@ == by_strength(list@),
{
    let mut sorted: Vec<Relation> = Vec::new();
    let mut i: usize = 0;
    while i < list.len()
        invariant
            0 <= i <= list@.len(),
            sorted@ == by_strength(list@.take(i as int)),
            sorted@.len() == i,
        decreases list@.len() - i,
    {
        proof {
            assert(list@.take(i + 1).drop_last() =~= list@.take(i as int));
            assert(list@.take(i + 1).last() == list@[i as int]);
        }
        let size: u32 = list[i].delta.magnitude_bits();
        let mut at: usize = sorted.len();
        while at > 0 && sorted[at - 1].delta.magnitude_bits() < size
            invariant
                0 <= at <= sorted@.len(),
                i < list@.len(),
                size == list@[i as int].delta.magnitude(),
                forall|k: int|
                    at <= k < sorted@.len() ==> (#[trigger] sorted@[k]).delta.magnitude() < size,
            decreases at,
        {
            at = at - 1;
        }
        proof {
            lemma_put_in_at(sorted@, list@[i as int], at as int);
        }
        sorted.insert(at, list[i].clone());
        i = i + 1;
    }
    assert(list@.take(i as int) =~= list@);
    sorted
}

/// Sorting by strength neither loses nor adds a relationship.
pub proof fn law_sorting_keeps_relations(list: Seq<Relation>)
    ensures
        by_strength(list).to_multiset() == list.to_multiset(),
        by_strength(list).len() == list.len(),
    decreases list.len(),
{
    broadcast use vstd::seq_lib::group_to_multiset_ensures;

    if list.len() > 0 {
        law_sorting_keeps_relations(list.drop_last());
        lemma_put_in_keeps(by_strength(list.drop_last()), list.last());
        assert(list =~= list.drop_last().push(list.last()));
    } else {
        assert(by_strength(list) =~= list);
    }
}

proof fn lemma_put_in_keeps(sorted: Seq<Relation>, r: Relation)
    ensures
        put_in(sorted, r).to_multiset() == sorted.to_multiset().insert(r),
        put_in(sorted, r).len() == sorted.len() + 1,
    decreases sorted.len(),
{
    broadcast use vstd::seq_lib::group_to_multiset_ensures;

    if sorted.len() == 0 || sorted.last().delta.magnitude() >= r.delta.magnitude() {
    } else {
        lemma_put_in_keeps(sorted.drop_last(), r);
        assert(sorted =~= sorted.drop_last().push(sorted.last()));
        assert(put_in(sorted, r).to_multiset() =~= sorted.to_multiset().insert(r));
    }
}

/// The strengths never rise from one relationship to the next.
pub open spec fn falling(list: Seq<Relation>) -> bool {
    forall|i: int, j: int|
        0 <= i <= j < list.len() ==> (#[trigger] list[i]).delta.magnitude() >= (
        #[trigger] list[j]).delta.magnitude()
}

/// The relationships by their strength have the strongest first.
pub proof fn law_strongest_first(list: Seq<Relation>)
    ensures
        falling(by_strength(list)),
    decreases list.len(),
{
    if list.len() > 0 {
        law_strongest_first(list.drop_last());
        lemma_put_in_falls(by_strength(list.drop_last()), list.last());
    }
}

proof fn lemma_put_in_falls(sorted: Seq<Relation>, r: Relation)
    requires
        falling(sorted),
    ensures
        falling(put_in(sorted, r)),
        put_in(sorted, r).len() == sorted.len() + 1,
        forall|b: int|
            (forall|k: int|
                0 <= k < sorted.len() ==> (#[trigger] sorted[k]).delta.magnitude() >= b)
                && r.delta.magnitude() >= b ==> #[trigger] at_least(put_in(sorted, r), b),
    decreases sorted.len(),
{
    let res = put_in(sorted, r);
    if sorted.len() == 0 || sorted.last().delta.magnitude() >= r.delta.magnitude() {
        assert forall|i: int, j: int| 0 <= i <= j < res.len() implies (
        #[trigger] res[i]).delta.magnitude() >= (#[trigger] res[j]).delta.magnitude() by {
            if j == sorted.len() && i < sorted.len() {
                assert(sorted[i].delta.magnitude() >= sorted[sorted.len() - 1].delta.magnitude());
            }
        }
    } else {
        let shorter = sorted.drop_last();
        assert(falling(shorter)) by {
            assert forall|i: int, j: int| 0 <= i <= j < shorter.len() implies (
            #[trigger] shorter[i]).delta.magnitude() >= (#[trigger] shorter[j]).delta.magnitude() by {
                assert(shorter[i] == sorted[i] && shorter[j] == sorted[j]);
            }
        }
        lemma_put_in_falls(shorter, r);
        let inner = put_in(shorter, r);
        let b = sorted.last().delta.magnitude();
        assert forall|k: int| 0 <= k < shorter.len() implies (
        #[trigger] shorter[k]).delta.magnitude() >= b by {
            assert(shorter[k] == sorted[k]);
            assert(sorted[k].delta.magnitude() >= sorted[sorted.len() - 1].delta.magnitude());
        }
        assert(at_least(inner, b));
        assert forall|i: int, j: int| 0 <= i <= j < res.len() implies (
        #[trigger] res[i]).delta.magnitude() >= (#[trigger] res[j]).delta.magnitude() by {
            if j < inner.len() {
                assert(res[i] == inner[i] && res[j] == inner[j]);
            } else if i < inner.len() {
                assert(res[i] == inner[i]);
            }
        }
        assert forall|c: int|
            (forall|k: int|
                0 <= k < sorted.len() ==> (#[trigger] sorted[k]).delta.magnitude() >= c)
                && r.delta.magnitude() >= c implies #[trigger] at_least(res, c) by {
            assert forall|k: int| 0 <= k < shorter.len() implies (
            #[trigger] shorter[k]).delta.magnitude() >= c by {
                assert(shorter[k] == sorted[k]);
            }
            assert(at_least(inner, c));
            assert(sorted[sorted.len() - 1].delta.magnitude() >= c);
        }
    }
}

/// Every strength is at least `b`.
pub open spec fn at_least(list: Seq<Relation>, b: int) -> bool {
    forall|k: int| 0 <= k < list.len() ==> (#[trigger] list[k]).delta.magnitude() >= b
}

/// An update of one relationship leaves the strengths of all others.
pub proof fn law_merge_leaves_others<F: Fn(Calc) -> Single>(
    f: F,
    before: Seq<Relation>,
    k: RelationKey,
    delta: Single,
    after: Seq<Relation>,
    other: RelationKey,
)
    requires
        merged(f, before, k, delta, after),
        other != k,
    ensures
        strength(after, other) == strength(before, other),
{
    lemma_rank_bounds(before, k, 0);
    lemma_same_rank(before, after, other, 0);
}

/// A relationship that is set up has the strength it was given, and one that is
/// added to has the sum.
pub proof fn law_merge_adds_up<F: Fn(Calc) -> Single>(
    f: F,
    before: Seq<Relation>,
    k: RelationKey,
    delta: Single,
    after: Seq<Relation>,
)
    requires
        merged(f, before, k, delta, after),
    ensures
        match strength(before, k) {
            Some(had) => strength(after, k) matches Some(now) && gives(
                f,
                Calc::Add(had, delta),
                now,
            ),
            None => strength(after, k) == Some(delta),
        },
{
    lemma_rank_bounds(before, k, 0);
    match rank_of(before, k, 0) {
        Some(i) => {
            lemma_rank_is(after, k, 0, i);
        },
        None => {
            assert forall|j: int| 0 <= j < before.len() implies (#[trigger] after[j]).key() != k by {
                assert(after.drop_last()[j] == before[j]);
            }
            lemma_rank_is(after, k, 0, before.len() as int);
        },
    }
}

/// Adding to a relationship, or setting one up, leaves one relationship of each
/// kind between two users.
pub proof fn law_merge_keeps_unique<F: Fn(Calc) -> Single>(
    f: F,
    before: Seq<Relation>,
    k: RelationKey,
    delta: Single,
    after: Seq<Relation>,
)
    requires
        relations_unique(before),
        merged(f, before, k, delta, after),
    ensures
        relations_unique(after),
{
    lemma_rank_bounds(before, k, 0);
    assert forall|j: int| 0 <= j < before.len() implies (#[trigger] after[j]).key()
        == before[j].key() by {
        if rank_of(before, k, 0) is None {
            assert(after.drop_last()[j] == before[j]);
        }
    }
    assert forall|i: int, j: int| 0 <= i < j < after.len() implies (#[trigger] after[i]).key() != (
    #[trigger] after[j]).key() by {
        if j < before.len() {
            assert(before[i].key() != before[j].key());
        } else {
            assert(before[i].key() != k);
        }
    }
}

proof fn lemma_rank_bounds(list: Seq<Relation>, k: RelationKey, from: int)
    requires
        0 <= from,
    ensures
        match rank_of(list, k, from) {
            Some(i) => from <= i < list.len() && list[i].key() == k && forall|j: int|
                from <= j < i ==> (#[trigger] list[j]).key() != k,
            None => forall|j: int| from <= j < list.len() ==> (#[trigger] list[j]).key() != k,
        },
    decreases list.len() - from,
{
    if from < list.len() && list[from].key() != k {
        lemma_rank_bounds(list, k, from + 1);
    }
}

proof fn lemma_rank_is(list: Seq<Relation>, k: RelationKey, from: int, i: int)
    requires
        0 <= from <= i < list.len(),
        list[i].key() == k,
        forall|j: int| from <= j < i ==> (#[trigger] list[j]).key() != k,
    ensures
        rank_of(list, k, from) == Some(i),
    decreases i - from,
{
    if from < i {
        lemma_rank_is(list, k, from + 1, i);
    }
}

proof fn lemma_same_rank(before: Seq<Relation>, after: Seq<Relation>, other: RelationKey, from: int)
    requires
        0 <= from,
        before.len() <= after.len() <= before.len() + 1,
        forall|j: int|
            0 <= j < before.len() ==> (#[trigger] after[j]).key() == before[j].key() && (
            before[j].key() == other ==> after[j] == before[j]),
        after.len() > before.len() ==> after.last().key() != other,
    ensures
        match (rank_of(before, other, from), rank_of(after, other, from)) {
            (Some(i), Some(j)) => i == j && from <= i < before.len() && after[i] == before[i],
            (None, None) => true,
            _ => false,
        },
    decreases after.len() - from,
{
    if from < after.len() {
        lemma_same_rank(before, after, other, from + 1);
    }
}

/// A relationship has a strength exactly where one stands between these users, in
/// this direction and of this kind; it is that of the first such. Relationships of
/// other kinds, or in the other direction, have their own.
pub proof fn law_strength_is_that_of_the_relation(
    list: Seq<Relation>,
    from: Seq<char>,
    to: Seq<char>,
    kind: Seq<char>,
)
    ensures
        strength(list, (from, to, kind)) is Some <==> exists|i: int|
            0 <= i < list.len() && (#[trigger] list[i]).from@ == from && list[i].to@ == to
                && list[i].kind@ == kind,
        forall|i: int|
            0 <= i < list.len() && (#[trigger] list[i]).from@ == from && list[i].to@ == to
                && list[i].kind@ == kind && (forall|j: int|
                0 <= j < i ==> !((#[trigger] list[j]).from@ == from && list[j].to@ == to
                    && list[j].kind@ == kind)) ==> strength(list, (from, to, kind)) == Some(
                list[i].delta,
            ),
{
    let k = (from, to, kind);
    lemma_rank_bounds(list, k, 0);
    if let Some(r) = rank_of(list, k, 0) {
        assert(list[r].from@ == from && list[r].to@ == to && list[r].kind@ == kind);
    }
    assert forall|i: int|
        0 <= i < list.len() && (#[trigger] list[i]).from@ == from && list[i].to@ == to
            && list[i].kind@ == kind && (forall|j: int|
            0 <= j < i ==> !((#[trigger] list[j]).from@ == from && list[j].to@ == to
                && list[j].kind@ == kind)) implies strength(list, k) == Some(list[i].delta) by {
        assert(list[i].key() == k);
        assert forall|j: int| 0 <= j < i implies (#[trigger] list[j]).key() != k by {}
        lemma_rank_is(list, k, 0, i);
    }
}

/// A statement is about the kind that stands in its first arrow, and about `REL`
/// where it has none.
pub proof fn law_kind_stands_in_the_arrow(lead: Seq<char>, kind: Seq<char>, tail: Seq<char>)
    requires
        !has_text(lead + "-[r"@, "-[r:"@),
        !kind.contains(']'),
    ensures
        kind_of(lead + "-[r:"@ + kind + "]"@ + tail) == kind,
        kind_of(lead) == "REL"@,
        kind_of(lead + "-[r:"@ + kind) == "REL"@,
{
    let rest = kind + "]"@ + tail;
    let whole = lead + "-[r:"@ + kind + "]"@ + tail;
    let open = lead + "-[r:"@ + kind;
    assert("-[r:"@.len() == 4) by {
        reveal_strlit("-[r:");
    }
    assert(whole =~= lead + "-[r:"@ + rest);
    lemma_first_arrow(lead, rest);
    assert(whole.skip(lead.len() as int + 4) =~= rest);
    lemma_closing(kind, tail);
    assert(rest.take(kind.len() as int) =~= kind);
    lemma_first_arrow(lead, kind);
    assert(open.skip(lead.len() as int + 4) =~= kind);
    lemma_no_arrow(lead);
}

proof fn lemma_closing(kind: Seq<char>, tail: Seq<char>)
    requires
        !kind.contains(']'),
    ensures
        first_place(kind + "]"@ + tail, "]"@) == Some(kind.len() as int),
        first_place(kind, "]"@) is None,
{
    reveal_strlit("]");
    let rest = kind + "]"@ + tail;
    let n = kind.len() as int;
    assert(rest.subrange(n, n + 1) =~= "]"@);
    assert forall|j: int| 0 <= j < n implies !occurs_at(rest, "]"@, j) by {
        if occurs_at(rest, "]"@, j) {
            assert(rest.subrange(j, j + 1)[0] == ']');
            assert(kind[j] == ']');
        }
    }
    lemma_first_place(rest, "]"@, n);
    if has_text(kind, "]"@) {
        let j = choose|j: int| occurs_at(kind, "]"@, j);
        assert(kind.subrange(j, j + 1)[0] == ']');
        assert(kind.contains(kind[j]));
    }
    assert(first_place(kind, "]"@) is None) by {
        reveal(first_place);
    }
}

proof fn lemma_no_arrow(lead: Seq<char>)
    requires
        !has_text(lead + "-[r"@, "-[r:"@),
    ensures
        first_place(lead, "-[r:"@) is None,
{
    if has_text(lead, "-[r:"@) {
        let j = choose|j: int| occurs_at(lead, "-[r:"@, j);
        let n = "-[r:"@.len();
        assert((lead + "-[r"@).subrange(j, j + n) =~= lead.subrange(j, j + n));
        assert(occurs_at(lead + "-[r"@, "-[r:"@, j));
    }
    reveal(first_place);
}

proof fn lemma_first_arrow(lead: Seq<char>, rest: Seq<char>)
    requires
        !has_text(lead + "-[r"@, "-[r:"@),
    ensures
        first_place(lead + "-[r:"@ + rest, "-[r:"@) == Some(lead.len() as int),
{
    reveal_strlit("-[r:");
    reveal_strlit("-[r");
    let whole = lead + "-[r:"@ + rest;
    let n = lead.len() as int;
    assert(whole.subrange(n, n + 4) =~= "-[r:"@);
    assert forall|j: int| 0 <= j < n implies !occurs_at(whole, "-[r:"@, j) by {
        if occurs_at(whole, "-[r:"@, j) {
            assert((lead + "-[r"@).subrange(j, j + 4) =~= whole.subrange(j, j + 4));
            assert(occurs_at(lead + "-[r"@, "-[r:"@, j));
        }
    }
    lemma_first_place(whole, "-[r:"@, n);
}

proof fn lemma_first_place(s: Seq<char>, sub: Seq<char>, i: int)
    requires
        occurs_at(s, sub, i),
        forall|j: int| 0 <= j < i ==> !occurs_at(s, sub, j),
    ensures
        first_place(s, sub) == Some(i),
{
    reveal(first_place);
    let k = first_place(s, sub)->0;
    assert(occurs_at(s, sub, k));
    assert(k == i);
}

/// An update that names both users and a number speaks of the relationship between
/// them, of the kind of its statement; any other speaks of none, and changes none.
pub proof fn law_update_names_users_and_number<
    F: Fn(Calc) -> Single,
    N: Fn(&JsonNumber) -> Single,
>(
    f: F,
    narrow: N,
    before: Seq<Relation>,
    u: GraphUpdate,
    after: Seq<Relation>,
)
    requires
        updated(f, narrow, before, u, after),
    ensures
        !(member(u.params@, "from"@, 0) matches Some(Json::Text(_))) ==> after == before,
        !(member(u.params@, "to"@, 0) matches Some(Json::Text(_))) ==> after == before,
        !(member(u.params@, "delta"@, 0) matches Some(Json::Number(_))) ==> after == before,
        (member(u.params@, "from"@, 0) matches Some(Json::Text(a)) && member(u.params@, "to"@, 0)
            matches Some(Json::Text(b)) && member(u.params@, "delta"@, 0) matches Some(
            Json::Number(n),
        )) ==> {
            let from = member(u.params@, "from"@, 0)->0->Text_0@;
            let to = member(u.params@, "to"@, 0)->0->Text_0@;
            let number = member(u.params@, "delta"@, 0)->0->Number_0;
            exists|d: Single| #[trigger]
                narrowed(narrow, number, d) && match strength(before, (from, to, kind_of(u.cypher@))) {
                    None => strength(after, (from, to, kind_of(u.cypher@))) == Some(d),
                    Some(had) => strength(after, (from, to, kind_of(u.cypher@))) matches Some(now)
                        && gives(f, Calc::Add(had, d), now),
                }
        },
{
    if let Some(t) = told(u) {
        let d = choose|d: Single| #[trigger]
            narrowed(narrow, t.number, d) && merged(f, before, t.key, d, after);
        law_merge_adds_up(f, before, t.key, d, after);
    }
}

/// The relationships by their strength are those that there are, each once: `at` are
/// their places in the list. A stronger one comes first, whatever its sign, and of
/// equally strong ones that which came first.
pub proof fn law_order_of_relations(list: Seq<Relation>) -> (at: Seq<int>)
    ensures
        at.len() == list.len(),
        by_strength(list).len() == list.len(),
        forall|i: int|
            0 <= i < at.len() ==> 0 <= #[trigger] at[i] < list.len() && by_strength(list)[i]
                == list[at[i]],
        forall|p: int| 0 <= p < list.len() ==> #[trigger] at.contains(p),
        forall|i: int, j: int|
            #![trigger at[i], at[j]]
            0 <= i < j < at.len() ==> stronger_or_earlier(
                by_strength(list)[i],
                at[i],
                by_strength(list)[j],
                at[j],
            ),
    decreases list.len(),
{
    if list.len() == 0 {
        Seq::empty()
    } else {
        let shorter = list.drop_last();
        let n = list.len() - 1;
        let before = law_order_of_relations(shorter);
        let sorted = by_strength(shorter);
        law_strongest_first(shorter);
        let place = lemma_put_place(sorted, list.last());
        let at = before.insert(place, n);
        assert(forall|i: int| 0 <= i < n ==> #[trigger] shorter[i] == list[i]);
        lemma_order_kept(sorted, before, list.last(), place, n);
        assert forall|i: int| 0 <= i < at.len() implies 0 <= #[trigger] at[i] < list.len()
            && by_strength(list)[i] == list[at[i]] by {
            if i < place {
                assert(at[i] == before[i]);
            } else if i > place {
                assert(at[i] == before[i - 1]);
            }
        }
        assert forall|p: int| 0 <= p < list.len() implies #[trigger] at.contains(p) by {
            if p == n {
                assert(at[place] == n);
            } else {
                assert(before.contains(p));
                let i = choose|i: int| 0 <= i < before.len() && before[i] == p;
                if i < place {
                    assert(at[i] == p);
                } else {
                    assert(at[i + 1] == p);
                }
            }
        }
        at
    }
}

proof fn lemma_order_kept(
    sorted: Seq<Relation>,
    before: Seq<int>,
    r: Relation,
    place: int,
    n: int,
)
    requires
        before.len() == sorted.len(),
        0 <= place <= sorted.len(),
        forall|i: int| 0 <= i < before.len() ==> #[trigger] before[i] < n,
        forall|i: int, j: int|
            #![trigger before[i], before[j]]
            0 <= i < j < before.len() ==> stronger_or_earlier(
                sorted[i],
                before[i],
                sorted[j],
                before[j],
            ),
        forall|k: int|
            0 <= k < place ==> (#[trigger] sorted[k]).delta.magnitude() >= r.delta.magnitude(),
        forall|k: int|
            place <= k < sorted.len() ==> (#[trigger] sorted[k]).delta.magnitude()
                < r.delta.magnitude(),
    ensures
        ({
            let at = before.insert(place, n);
            let all = sorted.insert(place, r);
            forall|i: int, j: int|
                #![trigger at[i], at[j]]
                0 <= i < j < at.len() ==> stronger_or_earlier(all[i], at[i], all[j], at[j])
        }),
{
    let at = before.insert(place, n);
    let all = sorted.insert(place, r);
    assert forall|i: int, j: int|
        #![trigger at[i], at[j]]
        0 <= i < j < at.len() implies stronger_or_earlier(all[i], at[i], all[j], at[j]) by {
        let a = if i < place {
            i
        } else {
            i - 1
        };
        let b = if j < place {
            j
        } else {
            j - 1
        };
        if i != place {
            assert(at[i] == before[a] && all[i] == sorted[a]);
        }
        if j != place {
            assert(at[j] == before[b] && all[j] == sorted[b]);
        }
    }
}

/// The relationship `a`, at the place `p`, is stronger than `b`, at the place `q`,
/// or as strong and earlier.
pub open spec fn stronger_or_earlier(a: Relation, p: int, b: Relation, q: int) -> bool {
    a.delta.magnitude() > b.delta.magnitude() || (a.delta.magnitude() == b.delta.magnitude() && p
        < q)
}

proof fn lemma_put_place(sorted: Seq<Relation>, r: Relation) -> (at: int)
    requires
        falling(sorted),
    ensures
        0 <= at <= sorted.len(),
        put_in(sorted, r) == sorted.insert(at, r),
        forall|k: int|
            0 <= k < at ==> (#[trigger] sorted[k]).delta.magnitude() >= r.delta.magnitude(),
        forall|k: int|
            at <= k < sorted.len() ==> (#[trigger] sorted[k]).delta.magnitude()
                < r.delta.magnitude(),
    decreases sorted.len(),
{
    if sorted.len() == 0 || sorted.last().delta.magnitude() >= r.delta.magnitude() {
        assert(sorted.push(r) =~= sorted.insert(sorted.len() as int, r));
        assert forall|k: int| 0 <= k < sorted.len() implies (#[trigger] sorted[k]).delta.magnitude()
            >= r.delta.magnitude() by {
            assert(sorted[k].delta.magnitude() >= sorted[sorted.len() - 1].delta.magnitude());
        }
        sorted.len() as int
    } else {
        let shorter = sorted.drop_last();
        assert(falling(shorter)) by {
            assert forall|i: int, j: int| 0 <= i <= j < shorter.len() implies (
            #[trigger] shorter[i]).delta.magnitude() >= (#[trigger] shorter[j]).delta.magnitude() by {
                assert(shorter[i] == sorted[i] && shorter[j] == sorted[j]);
            }
        }
        let at = lemma_put_place(shorter, r);
        assert(shorter.insert(at, r).push(sorted.last()) =~= sorted.insert(at, r));
        assert forall|k: int| 0 <= k < at implies (#[trigger] sorted[k]).delta.magnitude()
            >= r.delta.magnitude() by {
            assert(shorter[k] == sorted[k]);
        }
        assert forall|k: int| at <= k < sorted.len() implies (#[trigger] sorted[k]).delta.magnitude()
            < r.delta.magnitude() by {
            if k < shorter.len() {
                assert(shorter[k] == sorted[k]);
            }
        }
        at
    }
}

/// The summary holds the strongest relationships, as many as are asked for or all
/// where there are fewer: from whom, of what kind, to whom and how strong, one on
/// each line, the strongest first.
pub proof fn law_summary_lists_the_strongest(
    list: Seq<Relation>,
    limit: nat,
    shown: Seq<Seq<char>>,
)
    ensures
        strongest(list, limit as int).len() == if list.len() <= limit {
            list.len()
        } else {
            limit
        },
        forall|i: int|
            0 <= i < strongest(list, limit as int).len() ==> #[trigger] strongest(
                list,
                limit as int,
            )[i] == by_strength(list)[i],
        summary(strongest(list, limit as int), shown) == joined(
            Seq::new(
                strongest(list, limit as int).len(),
                |i: int|
                    strongest(list, limit as int)[i].from@ + " -["@ + strongest(
                        list,
                        limit as int,
                    )[i].kind@ + "]-> "@ + strongest(list, limit as int)[i].to@ + " (delta "@
                        + shown[i] + ")"@,
            ),
            "\n"@,
        ),
{
    law_sorting_keeps_relations(list);
    let top = strongest(list, limit as int);
    assert(Seq::new(
        top.len(),
        |i: int| row_line(top[i].from@, top[i].kind@, top[i].to@, shown[i]),
    ) =~= Seq::new(
        top.len(),
        |i: int|
            top[i].from@ + " -["@ + top[i].kind@ + "]-> "@ + top[i].to@ + " (delta "@ + shown[i]
                + ")"@,
    ));
}

/// Updates are applied one after the other, each to what the one before it left.
pub proof fn law_updates_are_applied_in_turn<
    F: Fn(Calc) -> Single,
    N: Fn(&JsonNumber) -> Single,
>(
    f: F,
    narrow: N,
    updates: Seq<GraphUpdate>,
    steps: Seq<Seq<Relation>>,
    i: int,
)
    requires
        update_run(f, narrow, updates, steps),
        0 <= i < updates.len(),
    ensures
        steps.len() == updates.len() + 1,
        updated(f, narrow, steps[i], updates[i], steps[i + 1]),
        relations_unique(steps[i]) ==> relations_unique(steps[i + 1]),
{
    assert(updated(f, narrow, steps[i], updates[i], steps[i + 1]));
    if relations_unique(steps[i]) {
        if let Some(t) = told(updates[i]) {
            let d = choose|d: Single| #[trigger]
                narrowed(narrow, t.number, d) && merged(f, steps[i], t.key, d, steps[i + 1]);
            law_merge_keeps_unique(f, steps[i], t.key, d, steps[i + 1]);
        }
    }
}

} // verus!
