//! The memory of facts and culture: a store that finds records by keyword, and
//! what a store of vectors is asked.

use vstd::prelude::*;
use vstd::string::*;
use std::sync::Arc;
use crate::error::{ErrorKind, NekoError};
use crate::ident::GroupId;
use crate::json::share;
use crate::single::{Single, HALF, ONE};
use crate::table::{has_key, keys_unique, place_of, put_list, Table};
use crate::text::{
    contains, has_text, lemma_first_word_occurs, same, split_words, texts, words,
};
use crate::types::MemoryRecord;

verus! {

/// How `s` is written in lower case.
pub uninterp spec fn lowered(s: Seq<char>) -> Seq<char>;

/// A text in lower case.
///
/// Stands for `str::to_lowercase` of the standard library; the text is named,
/// and said to be empty for an empty text.
#[verifier::external_body]
fn to_lower(s: &str) -> (res: String)
    ensures
        res@ == lowered(s@),
        s@.len() == 0 ==> res@.len() == 0,
{
    s.to_lowercase()
}

/// A list of records by id.
pub type Records = Seq<(String, Arc<MemoryRecord>)>;

/// The records of `list` with `news` set on top, from the first to the last.
pub open spec fn upserted(list: Records, news: Seq<Arc<MemoryRecord>>) -> Records
    decreases news.len(),
{
    if news.len() == 0 {
        list
    } else {
        let before = upserted(list, news.drop_last());
        put_list(before, news.last().id, news.last())
    }
}

/// A word of the query occurs in the text, or the query has no words. Both are
/// in lower case.
pub open spec fn word_matches(text: Seq<char>, query: Seq<char>) -> bool {
    words(query).len() == 0 || exists|i: int|
        0 <= i < words(query).len() && has_text(text, #[trigger] words(query)[i])
}

/// The text and the query are equal, or one holds the other. Both are in lower
/// case.
pub open spec fn fully_matches(text: Seq<char>, query: Seq<char>) -> bool {
    text == query || has_text(text, query) || has_text(query, text)
}

/// The record belongs to the group and matches the query.
pub open spec fn found(r: MemoryRecord, group: Seq<char>, query: Seq<char>) -> bool {
    r.group_id@ == group && word_matches(lowered(r.text@), query)
}

/// The score of a record: one for a full match, and one half otherwise.
pub open spec fn score(r: MemoryRecord, query: Seq<char>) -> Single {
    if fully_matches(lowered(r.text@), query) {
        Single { bits: ONE }
    } else {
        Single { bits: HALF }
    }
}

/// The records that are found, with the score `wanted`, in the order of the list.
pub open spec fn hits(list: Records, group: Seq<char>, query: Seq<char>, wanted: Single) -> Seq<
    (Single, Arc<MemoryRecord>),
>
    decreases list.len(),
{
    if list.len() == 0 {
        Seq::empty()
    } else {
        let before = hits(list.drop_last(), group, query, wanted);
        let r = list.last().1;
        if found(*r, group, query) && score(*r, query) == wanted {
            before.push((wanted, r))
        } else {
            before
        }
    }
}

/// The records that are found, full matches first, each kind in the order of
/// the list.
pub open spec fn ranked(list: Records, group: Seq<char>, query: Seq<char>) -> Seq<
    (Single, Arc<MemoryRecord>),
> {
    hits(list, group, query, Single { bits: ONE }) + hits(
        list,
        group,
        query,
        Single { bits: HALF },
    )
}

/// The first `k` of `s`, or all of it where it is shorter.
pub open spec fn first<T>(s: Seq<T>, k: nat) -> Seq<T> {
    if s.len() <= k {
        s
    } else {
        s.take(k as int)
    }
}

/// Every record stands under its own id.
pub open spec fn under_ids(list: Records) -> bool {
    forall|i: int| 0 <= i < list.len() ==> (#[trigger] list[i]).0@ == list[i].1.id@
}

/// A store in memory. It computes no embeddings: similarity is that of
/// keywords.
pub struct InMemoryVectorStore {
    records: Table<Arc<MemoryRecord>>,
}

impl InMemoryVectorStore {
    /// The records by id, in the order in which the ids came.
    pub closed spec fn list(self) -> Records {
        self.records.list()
    }

    /// Every record stands under its id, and no id stands twice.
    pub open spec fn wf(self) -> bool {
        keys_unique(self.list()) && under_ids(self.list())
    }

    /// An empty store.
    pub fn new() -> (res: Self)
        ensures
            res.wf(),
            res.list().len() == 0,
    {
        InMemoryVectorStore { records: Table::new() }
    }

    /// Takes up records, each in place of an earlier one with its id.
    pub fn embed_and_upsert(&mut self, records: &Vec<Arc<MemoryRecord>>)
        requires
            old(self).wf(),
        ensures
            final(self).wf(),
            final(self).list() == upserted(old(self).list(), records@),
    {
        let mut i: usize = 0;
        while i < records.len()
            invariant
                0 <= i <= records@.len(),
                self.wf(),
                self.list() == upserted(old(self).list(), records@.take(i as int)),
            decreases records@.len() - i,
        {
            assert(records@.take(i + 1).drop_last() =~= records@.take(i as int));
            assert(records@.take(i + 1).last() == records@[i as int]);
            let r: &MemoryRecord = &records[i];
            let ghost before = self.list();
            self.records.put(r.id.clone(), share(&records[i]));
            assert forall|k: int| 0 <= k < self.list().len() implies (
            #[trigger] self.list()[k]).0@ == self.list()[k].1.id@ by {
                if k < before.len() {
                    assert(before[k].0@ == before[k].1.id@);
                }
            }
            i = i + 1;
        }
        assert(records@.take(i as int) =~= records@);
    }

    /// The records that match a query best, with their scores.
    pub fn search_with_score(&self, group_id: &GroupId, query_text: &str, top_k: usize) -> (res:
        Vec<(Single, Arc<MemoryRecord>)>)
        ensures
            res@ == first(ranked(self.list(), group_id@, lowered(query_text@)), top_k as nat),
            query_text@.len() == 0 ==> words(lowered(query_text@)).len() == 0,
    {
        let query: String = to_lower(query_text);
        let query_words: Vec<String> = split_words(query.as_str());
        let mut full: Vec<(Single, Arc<MemoryRecord>)> = Vec::new();
        let mut partial: Vec<(Single, Arc<MemoryRecord>)> = Vec::new();
        let ghost list = self.list();
        let mut i: usize = 0;
        while i < self.records.len()
            invariant
                0 <= i <= list.len(),
                list == self.list(),
                texts(query_words@) == words(query@),
                full@ == hits(list.take(i as int), group_id@, query@, Single { bits: ONE }),
                partial@ == hits(list.take(i as int), group_id@, query@, Single { bits: HALF }),
            decreases list.len() - i,
        {
            proof {
                assert(list.take(i + 1).drop_last() =~= list.take(i as int));
                assert(list.take(i + 1).last() == list[i as int]);
            }
            let shared: &Arc<MemoryRecord> = &self.records.at(i).1;
            let r: &MemoryRecord = shared;
            if same(r.group_id.as_str(), group_id.as_str()) {
                let text: String = to_lower(r.text.as_str());
                if any_word_in(&query_words, query.as_str(), text.as_str()) {
                    if same(text.as_str(), query.as_str()) || contains(
                        text.as_str(),
                        query.as_str(),
                    ) || contains(query.as_str(), text.as_str()) {
                        full.push((Single { bits: ONE }, share(shared)));
                    } else {
                        partial.push((Single { bits: HALF }, share(shared)));
                    }
                }
            }
            i = i + 1;
        }
        proof {
            assert(list.take(i as int) =~= list);
        }
        full.append(&mut partial);
        if full.len() > top_k {
            full.truncate(top_k);
            assert(full@ =~= ranked(list, group_id@, query@).take(top_k as int));
        }
        full
    }

    /// The records that match a query best.
    pub fn search(&self, group_id: &GroupId, query_text: &str, top_k: usize) -> (res: Vec<
        Arc<MemoryRecord>,
    >)
        ensures
            res@ == first(
                ranked(self.list(), group_id@, lowered(query_text@)),
                top_k as nat,
            ).map_values(|p: (Single, Arc<MemoryRecord>)| p.1),
    {
        let scored: Vec<(Single, Arc<MemoryRecord>)> = self.search_with_score(
            group_id,
            query_text,
            top_k,
        );
        let mut out: Vec<Arc<MemoryRecord>> = Vec::new();
        let mut i: usize = 0;
        while i < scored.len()
            invariant
                0 <= i <= scored@.len(),
                out@ == scored@.take(i as int).map_values(|p: (Single, Arc<MemoryRecord>)| p.1),
            decreases scored@.len() - i,
        {
            out.push(share(&scored[i].1));
            assert(out@ =~= scored@.take(i + 1).map_values(
                |p: (Single, Arc<MemoryRecord>)| p.1,
            ));
            i = i + 1;
        }
        assert(scored@.take(i as int) =~= scored@);
        out
    }
}

/// Whether a word of the query occurs in the text, or the query has no words.
fn any_word_in(query_words: &Vec<String>, query: &str, text: &str) -> (res: bool)
    requires
        texts(query_words@) == words(query@),
    ensures
        res == word_matches(text@, query@),
{
    assert(texts(query_words@).len() == query_words@.len());
    if query_words.len() == 0 {
        return true;
    }
    let mut i: usize = 0;
    while i < query_words.len()
        invariant
            0 <= i <= query_words@.len(),
            query_words@.len() == words(query@).len(),
            texts(query_words@) == words(query@),
            forall|k: int| 0 <= k < i ==> !has_text(text@, #[trigger] words(query@)[k]),
        decreases query_words@.len() - i,
    {
        assert(words(query@)[i as int] == query_words@[i as int]@);
        if contains(text, query_words[i].as_str()) {
            return true;
        }
        i = i + 1;
    }
    false
}

/// Every result of a search belongs to the group that was searched, and there
/// are no more than were asked for.
pub proof fn law_search_stays_in_group(
    list: Records,
    group: Seq<char>,
    query: Seq<char>,
    top_k: nat,
)
    ensures
        first(ranked(list, group, query), top_k).len() <= top_k,
        forall|i: int|
            0 <= i < first(ranked(list, group, query), top_k).len() ==> (#[trigger] first(
                ranked(list, group, query),
                top_k,
            )[i]).1.group_id@ == group,
{
    lemma_hits_found(list, group, query, Single { bits: ONE });
    lemma_hits_found(list, group, query, Single { bits: HALF });
    let all = ranked(list, group, query);
    let full = hits(list, group, query, Single { bits: ONE });
    let partial = hits(list, group, query, Single { bits: HALF });
    assert forall|i: int| 0 <= i < all.len() implies (#[trigger] all[i]).1.group_id@ == group by {
        if i < full.len() {
            assert(all[i] == full[i]);
        } else {
            assert(all[i] == partial[i - full.len()]);
        }
    }
}

/// The scores of a search never rise from one result to the next.
pub proof fn law_scores_fall(list: Records, group: Seq<char>, query: Seq<char>, i: int, j: int)
    requires
        0 <= i <= j < ranked(list, group, query).len(),
    ensures
        !ranked(list, group, query)[i].0.below(ranked(list, group, query)[j].0),
{
    lemma_hits_found(list, group, query, Single { bits: ONE });
    lemma_hits_found(list, group, query, Single { bits: HALF });
    let all = ranked(list, group, query);
    let full = hits(list, group, query, Single { bits: ONE });
    let partial = hits(list, group, query, Single { bits: HALF });
    if i < full.len() {
        assert(all[i] == full[i]);
    } else {
        assert(all[i] == partial[i - full.len()]);
    }
    if j < full.len() {
        assert(all[j] == full[j]);
    } else {
        assert(all[j] == partial[j - full.len()]);
    }
}

/// The result is that of a record that is found, with the score `wanted`.
pub open spec fn is_hit(
    h: (Single, Arc<MemoryRecord>),
    group: Seq<char>,
    query: Seq<char>,
    wanted: Single,
) -> bool {
    h.0 == wanted && found(*h.1, group, query) && score(*h.1, query) == wanted
}

proof fn lemma_hits_found(list: Records, group: Seq<char>, query: Seq<char>, wanted: Single)
    ensures
        forall|i: int|
            0 <= i < hits(list, group, query, wanted).len() ==> is_hit(
                #[trigger] hits(list, group, query, wanted)[i],
                group,
                query,
                wanted,
            ),
    decreases list.len(),
{
    if list.len() > 0 {
        lemma_hits_found(list.drop_last(), group, query, wanted);
        let before = hits(list.drop_last(), group, query, wanted);
        let all = hits(list, group, query, wanted);
        assert forall|i: int| 0 <= i < all.len() implies is_hit(
            #[trigger] all[i],
            group,
            query,
            wanted,
        ) by {
            if i < before.len() {
                assert(all[i] == before[i]);
            }
        }
    }
}

/// The record at position `at` of the list, where it is found with the score
/// `wanted`, is among the hits.
proof fn lemma_hit(list: Records, group: Seq<char>, query: Seq<char>, wanted: Single, at: int)
    requires
        0 <= at < list.len(),
        found(*list[at].1, group, query),
        score(*list[at].1, query) == wanted,
    ensures
        hits(list, group, query, wanted).contains((wanted, list[at].1)),
    decreases list.len(),
{
    let before = hits(list.drop_last(), group, query, wanted);
    let all = hits(list, group, query, wanted);
    if at == list.len() - 1 {
        assert(all == before.push((wanted, list[at].1)));
        assert(all[before.len() as int] == (wanted, list[at].1));
    } else {
        lemma_hit(list.drop_last(), group, query, wanted, at);
        let k = choose|k: int| 0 <= k < before.len() && before[k] == (wanted, list[at].1);
        assert(all[k] == before[k]);
    }
}

/// What was stored is found again: a search of its group for the very text of
/// a stored record has a full match at its head.
pub proof fn law_stored_text_is_found(list: Records, at: int, top_k: nat)
    requires
        0 <= at < list.len(),
        top_k >= 1,
    ensures
        ({
            let r = list[at].1;
            let res = first(ranked(list, r.group_id@, lowered(r.text@)), top_k);
            res.len() >= 1 && res[0].0 == (Single { bits: ONE })
        }),
{
    let group = list[at].1.group_id@;
    let q = lowered(list[at].1.text@);
    if words(q).len() > 0 {
        lemma_first_word_occurs(q);
        assert(has_text(q, words(q)[0]));
    }
    lemma_hit(list, group, q, Single { bits: ONE }, at);
    let full = hits(list, group, q, Single { bits: ONE });
    lemma_hits_found(list, group, q, Single { bits: ONE });
    assert(full.len() >= 1);
    assert(ranked(list, group, q)[0] == full[0]);
}

/// A query without words finds every record of the group.
pub proof fn law_empty_query_finds_group(
    list: Records,
    group: Seq<char>,
    query: Seq<char>,
    at: int,
)
    requires
        0 <= at < list.len(),
        list[at].1.group_id@ == group,
        words(query).len() == 0,
    ensures
        exists|i: int|
            0 <= i < ranked(list, group, query).len() && (#[trigger] ranked(
                list,
                group,
                query,
            )[i]).1 == list[at].1,
{
    let full = hits(list, group, query, Single { bits: ONE });
    let partial = hits(list, group, query, Single { bits: HALF });
    let all = ranked(list, group, query);
    if fully_matches(lowered(list[at].1.text@), query) {
        lemma_hit(list, group, query, Single { bits: ONE }, at);
        let k = choose|k: int|
            0 <= k < full.len() && full[k] == (Single { bits: ONE }, list[at].1);
        assert(all[k].1 == list[at].1);
    } else {
        lemma_hit(list, group, query, Single { bits: HALF }, at);
        let k = choose|k: int|
            0 <= k < partial.len() && partial[k] == (Single { bits: HALF }, list[at].1);
        assert(all[full.len() + k].1 == list[at].1);
    }
}

/// A record that is stored under the id of an earlier one takes its place.
pub proof fn law_upsert_overwrites(list: Records, old_one: Arc<MemoryRecord>, new_one: Arc<
    MemoryRecord,
>)
    requires
        keys_unique(list),
        new_one.id@ == old_one.id@,
    ensures
        ({
            let first = upserted(list, seq![old_one]);
            let second = upserted(list, seq![old_one, new_one]);
            let i = place_of(first, new_one.id@);
            &&& 0 <= i < first.len()
            &&& first[i].1 == old_one
            &&& second == first.update(i, (new_one.id, new_one))
        }),
{
    let one = seq![old_one];
    let two = seq![old_one, new_one];
    assert(one.drop_last() =~= Seq::<Arc<MemoryRecord>>::empty());
    assert(two.drop_last() =~= one);
    assert(upserted(list, one.drop_last()) == list);
    let after = upserted(list, one);
    assert(after == put_list(list, old_one.id, old_one));
    let k = old_one.id@;
    let at = if has_key(list, k) {
        place_of(list, k)
    } else {
        list.len() as int
    };
    assert(after[at] == (old_one.id, old_one));
    assert(has_key(after, k));
    assert forall|i: int| 0 <= i < after.len() && i != at implies (#[trigger] after[i]).0@ != k by {
        if has_key(list, k) {
            assert(list[at].0@ == k);
            assert(after[i] == list[i]);
            if i < at {
                assert(list[i].0@ != list[at].0@);
            } else {
                assert(list[at].0@ != list[i].0@);
            }
        } else {
            assert(after[i] == list[i]);
        }
    }
    assert(place_of(after, k) == at);
}

/// The texts of records, to be embedded.
pub fn texts_to_embed(records: &Vec<Arc<MemoryRecord>>) -> (res: Vec<String>)
    ensures
        res@ == records@.map_values(|r: Arc<MemoryRecord>| r.text),
{
    let mut out: Vec<String> = Vec::new();
    let mut i: usize = 0;
    while i < records.len()
        invariant
            0 <= i <= records@.len(),
            out@ == records@.take(i as int).map_values(|r: Arc<MemoryRecord>| r.text),
        decreases records@.len() - i,
    {
        let r: &MemoryRecord = &records[i];
        out.push(r.text.clone());
        assert(out@ =~= records@.take(i + 1).map_values(|r: Arc<MemoryRecord>| r.text));
        i = i + 1;
    }
    assert(records@.take(i as int) =~= records@);
    out
}

/// A record with its vector.
#[derive(Debug)]
pub struct Point {
    pub id: String,
    pub vector: Vec<Single>,
    pub record: Arc<MemoryRecord>,
}

/// The same numbers once more.
fn copy_vector(v: &Vec<Single>) -> (res: Vec<Single>)
    ensures
        res@ == v@,
{
    let mut copy: Vec<Single> = Vec::new();
    let mut i: usize = 0;
    while i < v.len()
        invariant
            0 <= i <= v@.len(),
            copy@ == v@.take(i as int),
        decreases v@.len() - i,
    {
        copy.push(v[i]);
        assert(v@.take(i + 1) =~= v@.take(i as int).push(v@[i as int]));
        i = i + 1;
    }
    assert(v@.take(i as int) =~= v@);
    copy
}

/// Pairs records with their vectors, as far as there are both.
pub fn points(records: &Vec<Arc<MemoryRecord>>, vectors: &Vec<Vec<Single>>) -> (res: Vec<Point>)
    ensures
        res@.len() == if records@.len() <= vectors@.len() {
            records@.len()
        } else {
            vectors@.len()
        },
        forall|i: int|
            0 <= i < res@.len() ==> (#[trigger] res@[i]).id@ == records@[i].id@ && res@[i].vector@
                == vectors@[i]@ && res@[i].record == records@[i],
{
    let mut out: Vec<Point> = Vec::new();
    let mut i: usize = 0;
    while i < records.len() && i < vectors.len()
        invariant
            0 <= i <= records@.len(),
            i <= vectors@.len(),
            out@.len() == i,
            forall|k: int|
                0 <= k < i ==> (#[trigger] out@[k]).id@ == records@[k].id@ && out@[k].vector@
                    == vectors@[k]@ && out@[k].record == records@[k],
        decreases records@.len() - i,
    {
        let r: &MemoryRecord = &records[i];
        out.push(
            Point {
                id: r.id.clone(),
                vector: copy_vector(&vectors[i]),
                record: share(&records[i]),
            },
        );
        i = i + 1;
    }
    out
}

/// The vector of a query: the first of those that came back.
pub fn query_vector(vectors: &Vec<Vec<Single>>) -> (res: Result<Vec<Single>, NekoError>)
    ensures
        match res {
            Ok(v) => vectors@.len() > 0 && v@ == vectors@[0]@,
            Err(e) => vectors@.len() == 0 && e.says(
                ErrorKind::Llm,
                "embedding returned empty vector"@,
            ),
        },
{
    if vectors.len() == 0 {
        return Err(NekoError::llm("embedding returned empty vector".to_string()));
    }
    Ok(copy_vector(&vectors[0]))
}

/// The results whose record could be read, in order.
pub open spec fn legible(scored: Seq<(Single, Option<Arc<MemoryRecord>>)>) -> Seq<
    (Single, Arc<MemoryRecord>),
>
    decreases scored.len(),
{
    if scored.len() == 0 {
        Seq::empty()
    } else {
        match scored.last().1 {
            Some(r) => legible(scored.drop_last()).push((scored.last().0, r)),
            None => legible(scored.drop_last()),
        }
    }
}

/// The results whose record could be read, in order.
pub fn readable(scored: &Vec<(Single, Option<Arc<MemoryRecord>>)>) -> (res: Vec<
    (Single, Arc<MemoryRecord>),
>)
    ensures
        res@ == legible(scored@),
{
    let mut out: Vec<(Single, Arc<MemoryRecord>)> = Vec::new();
    let mut i: usize = 0;
    while i < scored.len()
        invariant
            0 <= i <= scored@.len(),
            out@ == legible(scored@.take(i as int)),
        decreases scored@.len() - i,
    {
        assert(scored@.take(i + 1).drop_last() =~= scored@.take(i as int));
        assert(scored@.take(i + 1).last() == scored@[i as int]);
        if let Some(r) = &scored[i].1 {
            out.push((scored[i].0, share(r)));
        }
        i = i + 1;
    }
    assert(scored@.take(i as int) =~= scored@);
    out
}

/// A record of the group is found by every word of the query, wherever in the
/// query the word stands.
pub proof fn law_any_word_finds_record(
    list: Records,
    group: Seq<char>,
    query: Seq<char>,
    at: int,
    k: int,
)
    requires
        0 <= at < list.len(),
        list[at].1.group_id@ == group,
        0 <= k < words(query).len(),
        has_text(lowered(list[at].1.text@), words(query)[k]),
    ensures
        exists|i: int|
            0 <= i < ranked(list, group, query).len() && (#[trigger] ranked(
                list,
                group,
                query,
            )[i]).1 == list[at].1,
{
    let places = lemma_ranked_places(list, group, query);
    let i = choose|i: int| 0 <= i < places.len() && #[trigger] places[i] == at;
    assert(ranked(list, group, query)[i].1 == list[at].1);
}

/// The results `res` are the records at the places `at` of the list.
pub open spec fn taken_from(
    list: Records,
    at: Seq<int>,
    res: Seq<(Single, Arc<MemoryRecord>)>,
) -> bool {
    &&& at.len() == res.len()
    &&& forall|i: int|
        0 <= i < res.len() ==> 0 <= #[trigger] at[i] < list.len() && res[i].1 == list[at[i]].1
}

/// A result with the score `a` and the place `p` comes before one with the score
/// `b` and the place `q`.
pub open spec fn comes_before(a: Single, p: int, b: Single, q: int) -> bool {
    b.below(a) || (a == b && p < q)
}

/// Every record of the group in which some word of the query occurs is a result,
/// once, and no other record is; where the query has no words, every record of
/// the group is. What equals the query, holds it or is held by it scores one, the
/// rest one half; ones come before halves, and equal scores in the order in which
/// the records came.
pub proof fn law_search_finds_exactly_the_matches(
    list: Records,
    group: Seq<char>,
    query: Seq<char>,
) -> (at: Seq<int>)
    ensures
        taken_from(list, at, ranked(list, group, query)),
        forall|p: int|
            0 <= p < list.len() ==> ((exists|i: int| 0 <= i < at.len() && #[trigger] at[i] == p) <==> {
                &&& (#[trigger] list[p]).1.group_id@ == group
                &&& words(query).len() == 0 || exists|k: int|
                    0 <= k < words(query).len() && has_text(
                        lowered(list[p].1.text@),
                        #[trigger] words(query)[k],
                    )
            }),
        forall|i: int|
            0 <= i < at.len() ==> ({
                let text = lowered(list[#[trigger] at[i]].1.text@);
                ranked(list, group, query)[i].0.bits == if text == query || has_text(text, query)
                    || has_text(query, text) {
                    0x3f80_0000u32
                } else {
                    0x3f00_0000u32
                }
            }),
        forall|i: int, j: int|
            #![trigger at[i], at[j]]
            0 <= i < j < at.len() ==> comes_before(
                ranked(list, group, query)[i].0,
                at[i],
                ranked(list, group, query)[j].0,
                at[j],
            ),
{
    lemma_ranked_places(list, group, query)
}

proof fn lemma_ranked_places(list: Records, group: Seq<char>, query: Seq<char>) -> (at: Seq<int>)
    ensures
        taken_from(list, at, ranked(list, group, query)),
        forall|p: int|
            0 <= p < list.len() ==> ((exists|i: int| 0 <= i < at.len() && #[trigger] at[i] == p)
                <==> found(*(#[trigger] list[p]).1, group, query)),
        forall|i: int|
            0 <= i < at.len() ==> ranked(list, group, query)[i].0 == score(
                *list[#[trigger] at[i]].1,
                query,
            ),
        forall|i: int, j: int|
            #![trigger at[i], at[j]]
            0 <= i < j < at.len() ==> comes_before(
                ranked(list, group, query)[i].0,
                at[i],
                ranked(list, group, query)[j].0,
                at[j],
            ),
{
    let one = Single { bits: ONE };
    let half = Single { bits: HALF };
    let a = lemma_hit_places(list, group, query, one);
    let b = lemma_hit_places(list, group, query, half);
    let full = hits(list, group, query, one);
    let partial = hits(list, group, query, half);
    let all = ranked(list, group, query);
    let at = a + b;
    assert forall|i: int| 0 <= i < all.len() implies 0 <= #[trigger] at[i] < list.len() && all[i].1
        == list[at[i]].1 && all[i].0 == score(*list[at[i]].1, query) by {
        if i < full.len() {
            assert(at[i] == a[i]);
        } else {
            assert(at[i] == b[i - full.len()]);
        }
    }
    assert forall|p: int| 0 <= p < list.len() implies ((exists|i: int|
        0 <= i < at.len() && #[trigger] at[i] == p) <==> found(*(#[trigger] list[p]).1, group, query)) by {
        if found(*list[p].1, group, query) {
            if score(*list[p].1, query) == one {
                let i = choose|i: int| 0 <= i < a.len() && #[trigger] a[i] == p;
                assert(at[i] == p);
            } else {
                let i = choose|i: int| 0 <= i < b.len() && #[trigger] b[i] == p;
                assert(at[i + a.len()] == p);
            }
        }
        if exists|i: int| 0 <= i < at.len() && #[trigger] at[i] == p {
            let i = choose|i: int| 0 <= i < at.len() && #[trigger] at[i] == p;
            if i < a.len() {
                assert(a[i] == p);
            } else {
                assert(b[i - a.len()] == p);
            }
        }
    }
    assert forall|i: int, j: int|
        #![trigger at[i], at[j]]
        0 <= i < j < at.len() implies comes_before(all[i].0, at[i], all[j].0, at[j]) by {
        if j < a.len() {
            assert(at[i] == a[i] && at[j] == a[j]);
        } else if i < a.len() {
            assert(at[i] == a[i] && at[j] == b[j - a.len()]);
        } else {
            assert(at[i] == b[i - a.len()] && at[j] == b[j - a.len()]);
        }
    }
    at
}

proof fn lemma_hit_places(
    list: Records,
    group: Seq<char>,
    query: Seq<char>,
    wanted: Single,
) -> (at: Seq<int>)
    ensures
        at.len() == hits(list, group, query, wanted).len(),
        forall|i: int|
            0 <= i < at.len() ==> {
                &&& 0 <= #[trigger] at[i] < list.len()
                &&& hits(list, group, query, wanted)[i] == (wanted, list[at[i]].1)
                &&& found(*list[at[i]].1, group, query)
                &&& score(*list[at[i]].1, query) == wanted
            },
        forall|i: int, j: int| 0 <= i < j < at.len() ==> #[trigger] at[i] < #[trigger] at[j],
        forall|p: int|
            0 <= p < list.len() && found(*(#[trigger] list[p]).1, group, query) && score(
                *list[p].1,
                query,
            ) == wanted ==> exists|i: int| 0 <= i < at.len() && #[trigger] at[i] == p,
    decreases list.len(),
{
    if list.len() == 0 {
        Seq::empty()
    } else {
        let n = list.len() - 1;
        let shorter = list.drop_last();
        let before = lemma_hit_places(shorter, group, query, wanted);
        let more = hits(list, group, query, wanted).len() > before.len();
        let at = if more {
            before.push(n)
        } else {
            before
        };
        assert forall|i: int| 0 <= i < at.len() implies {
            &&& 0 <= #[trigger] at[i] < list.len()
            &&& hits(list, group, query, wanted)[i] == (wanted, list[at[i]].1)
            &&& found(*list[at[i]].1, group, query)
            &&& score(*list[at[i]].1, query) == wanted
        } by {
            if i < before.len() {
                assert(at[i] == before[i]);
                assert(shorter[before[i]] == list[before[i]]);
            }
        }
        assert forall|i: int, j: int| 0 <= i < j < at.len() implies #[trigger] at[i]
            < #[trigger] at[j] by {
            assert(at[i] == before[i]);
            if j < before.len() {
                assert(at[j] == before[j]);
            }
        }
        assert forall|p: int|
            0 <= p < list.len() && found(*(#[trigger] list[p]).1, group, query) && score(
                *list[p].1,
                query,
            ) == wanted implies exists|i: int| 0 <= i < at.len() && #[trigger] at[i] == p by {
            if p < n {
                assert(shorter[p] == list[p]);
                let i = choose|i: int| 0 <= i < before.len() && #[trigger] before[i] == p;
                assert(at[i] == p);
            } else {
                assert(at[before.len() as int] == p);
            }
        }
        at
    }
}

/// Of the results, the best are given: as many as were asked for, or all where
/// there are fewer, in their order.
pub proof fn law_best_are_given<T>(s: Seq<T>, k: nat)
    ensures
        first(s, k).len() <= k,
        first(s, k).len() == s.len() || first(s, k).len() == k,
        forall|i: int| 0 <= i < first(s, k).len() ==> #[trigger] first(s, k)[i] == s[i],
        first(s, k).len() <= s.len(),
{
}

/// The record stands in the list.
pub open spec fn stands(list: Records, r: Arc<MemoryRecord>) -> bool {
    exists|p: int| 0 <= p < list.len() && (#[trigger] list[p]).1 == r
}

/// What is taken up stands in the store afterwards, unless a later record has
/// the same id; what stood there stays, unless its id is taken; nothing else is
/// there, and no id stands twice.
pub proof fn law_upsert_keeps_records(list: Records, news: Seq<Arc<MemoryRecord>>)
    requires
        keys_unique(list),
        under_ids(list),
    ensures
        keys_unique(upserted(list, news)),
        under_ids(upserted(list, news)),
        forall|i: int|
            0 <= i < news.len() && (forall|j: int|
                i < j < news.len() ==> (#[trigger] news[j]).id@ != news[i].id@) ==> stands(
                upserted(list, news),
                #[trigger] news[i],
            ),
        forall|r: Arc<MemoryRecord>| #[trigger]
            stands(list, r) && (forall|j: int|
                0 <= j < news.len() ==> (#[trigger] news[j]).id@ != r.id@) ==> stands(
                upserted(list, news),
                r,
            ),
        forall|r: Arc<MemoryRecord>| #[trigger]
            stands(upserted(list, news), r) ==> stands(list, r) || news.contains(r),
    decreases news.len(),
{
    if news.len() > 0 {
        let fewer = news.drop_last();
        let last = news.last();
        law_upsert_keeps_records(list, fewer);
        let before = upserted(list, fewer);
        let after = upserted(list, news);
        lemma_put_keeps(before, last, after);
        assert forall|i: int|
            0 <= i < news.len() && (forall|j: int|
                i < j < news.len() ==> (#[trigger] news[j]).id@ != news[i].id@) implies stands(
            after,
            #[trigger] news[i],
        ) by {
            if i < news.len() - 1 {
                assert(news[news.len() - 1].id@ != news[i].id@);
                assert(fewer[i] == news[i]);
                assert forall|j: int| i < j < fewer.len() implies (#[trigger] fewer[j]).id@
                    != fewer[i].id@ by {
                    assert(fewer[j] == news[j]);
                }
                assert(stands(before, fewer[i]));
            }
        }
        assert forall|r: Arc<MemoryRecord>| #[trigger]
            stands(list, r) && (forall|j: int|
                0 <= j < news.len() ==> (#[trigger] news[j]).id@ != r.id@) implies stands(after, r) by {
            assert(news[news.len() - 1].id@ != r.id@);
            assert forall|j: int| 0 <= j < fewer.len() implies (#[trigger] fewer[j]).id@ != r.id@ by {
                assert(fewer[j] == news[j]);
            }
            assert(stands(before, r));
        }
        assert forall|r: Arc<MemoryRecord>| #[trigger] stands(after, r) implies stands(list, r)
            || news.contains(r) by {
            if r == last {
                assert(news[news.len() - 1] == r);
            } else {
                assert(stands(before, r));
                if fewer.contains(r) {
                    let i = choose|i: int| 0 <= i < fewer.len() && fewer[i] == r;
                    assert(news[i] == r);
                }
            }
        }
    }
}

proof fn lemma_put_keeps(before: Records, r: Arc<MemoryRecord>, after: Records)
    requires
        after == put_list(before, r.id, r),
        keys_unique(before),
        under_ids(before),
    ensures
        keys_unique(after),
        under_ids(after),
        stands(after, r),
        forall|x: Arc<MemoryRecord>| #[trigger]
            stands(before, x) && x.id@ != r.id@ ==> stands(after, x),
        forall|x: Arc<MemoryRecord>| #[trigger] stands(after, x) && x != r ==> stands(before, x),
{
    let k = r.id@;
    let at = if has_key(before, k) {
        place_of(before, k)
    } else {
        before.len() as int
    };
    assert(has_key(before, k) ==> before[at].0@ == k);
    assert(after[at] == (r.id, r));
    assert(forall|p: int| 0 <= p < after.len() && p != at ==> (#[trigger] after[p]) == before[p]);
    assert forall|p: int| 0 <= p < after.len() && p != at implies (#[trigger] after[p]).0@ != k by {
        if has_key(before, k) {
            if p < at {
                assert(before[p].0@ != before[at].0@);
            } else {
                assert(before[at].0@ != before[p].0@);
            }
        } else {
            assert(before[p].0@ != k);
        }
    }
    assert forall|p: int, q: int| 0 <= p < q < after.len() implies (#[trigger] after[p]).0@ != (
    #[trigger] after[q]).0@ by {
        if p != at && q != at {
            assert(before[p].0@ != before[q].0@);
        }
    }
    assert forall|p: int| 0 <= p < after.len() implies (#[trigger] after[p]).0@ == after[p].1.id@ by {
        if p != at {
            assert(before[p].0@ == before[p].1.id@);
        }
    }
    assert(stands(after, r)) by {
        assert(after[at].1 == r);
    }
    assert forall|x: Arc<MemoryRecord>| #[trigger]
        stands(before, x) && x.id@ != r.id@ implies stands(after, x) by {
        let p = choose|p: int| 0 <= p < before.len() && (#[trigger] before[p]).1 == x;
        assert(before[p].0@ == before[p].1.id@);
        assert(p != at);
        assert(after[p].1 == x);
    }
    assert forall|x: Arc<MemoryRecord>| #[trigger] stands(after, x) && x != r implies stands(
        before,
        x,
    ) by {
        let p = choose|p: int| 0 <= p < after.len() && (#[trigger] after[p]).1 == x;
        assert(before[p].1 == x);
    }
}

/// What comes back from a store of vectors keeps its scores and its order; a
/// result is left out exactly where its record could not be read.
pub proof fn law_legible_results_stay(
    scored: Seq<(Single, Option<Arc<MemoryRecord>>)>,
) -> (at: Seq<int>)
    ensures
        at.len() == legible(scored).len(),
        forall|i: int|
            0 <= i < at.len() ==> 0 <= #[trigger] at[i] < scored.len() && scored[at[i]] == (
                legible(scored)[i].0,
                Some(legible(scored)[i].1),
            ),
        forall|i: int, j: int| 0 <= i < j < at.len() ==> #[trigger] at[i] < #[trigger] at[j],
        forall|p: int|
            0 <= p < scored.len() && (#[trigger] scored[p]).1 is Some ==> exists|i: int|
                0 <= i < at.len() && #[trigger] at[i] == p,
    decreases scored.len(),
{
    if scored.len() == 0 {
        Seq::empty()
    } else {
        let n = scored.len() - 1;
        let shorter = scored.drop_last();
        let before = law_legible_results_stay(shorter);
        let at = if scored.last().1 is Some {
            before.push(n)
        } else {
            before
        };
        assert forall|i: int| 0 <= i < at.len() implies 0 <= #[trigger] at[i] < scored.len()
            && scored[at[i]] == (legible(scored)[i].0, Some(legible(scored)[i].1)) by {
            if i < before.len() {
                assert(at[i] == before[i]);
                assert(shorter[before[i]] == scored[before[i]]);
            }
        }
        assert forall|i: int, j: int| 0 <= i < j < at.len() implies #[trigger] at[i]
            < #[trigger] at[j] by {
            assert(at[i] == before[i]);
            if j < before.len() {
                assert(at[j] == before[j]);
            }
        }
        assert forall|p: int| 0 <= p < scored.len() && (#[trigger] scored[p]).1 is Some implies exists|
            i: int,
        |
            0 <= i < at.len() && #[trigger] at[i] == p by {
            if p < n {
                assert(shorter[p] == scored[p]);
                let i = choose|i: int| 0 <= i < before.len() && #[trigger] before[i] == p;
                assert(at[i] == p);
            } else {
                assert(at[before.len() as int] == p);
            }
        }
        at
    }
}

} // verus!
