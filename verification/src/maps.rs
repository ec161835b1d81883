//! The concurrent maps that the layers keep their state in.
//!
//! Each wrapper takes the map exclusively where it changes it, so that what the
//! contents are afterwards follows from what they were before.

use vstd::prelude::*;
use dashmap::DashMap;
use crate::clock::Timestamp;
use crate::types::{AffectiveState, ChatMessage};

verus! {

/// The concurrent map of `dashmap`; what a map holds is named below.
#[verifier::external_type_specification]
#[verifier::external_body]
#[verifier::reject_recursive_types(K)]
#[verifier::reject_recursive_types(V)]
#[verifier::reject_recursive_types(S)]
pub struct ExDashMap<K, V, S>(DashMap<K, V, S>);

/// States by group and user.
pub type StateMap = DashMap<(String, String), AffectiveState>;

/// Recent messages by group.
pub type WindowMap = DashMap<String, Vec<ChatMessage>>;

/// Points in time by group.
pub type TimeMap = DashMap<String, Timestamp>;

/// What a map of states holds, by group and user.
pub uninterp spec fn state_entries(m: StateMap) -> Map<(Seq<char>, Seq<char>), AffectiveState>;

/// What a map of messages holds, by group.
pub uninterp spec fn window_entries(m: WindowMap) -> Map<Seq<char>, Seq<ChatMessage>>;

/// What a map of points in time holds, by group.
pub uninterp spec fn time_entries(m: TimeMap) -> Map<Seq<char>, Timestamp>;

/// An empty map of states.
///
/// Stands for `DashMap::new`.
#[verifier::external_body]
pub(crate) fn states_new() -> (res: StateMap)
    ensures
        forall|k: (Seq<char>, Seq<char>)| !#[trigger] state_entries(res).contains_key(k),
{
    DashMap::new()
}

/// The state under a key.
///
/// Stands for `DashMap::get`, the value copied out.
#[verifier::external_body]
pub(crate) fn states_get(m: &StateMap, key: &(String, String)) -> (res: Option<AffectiveState>)
    ensures
        match res {
            Some(v) => state_entries(*m).contains_pair((key.0@, key.1@), v),
            None => !state_entries(*m).contains_key((key.0@, key.1@)),
        },
{
    m.get(key).map(|entry| *entry.value())
}

/// Sets the state under a key.
///
/// Stands for `DashMap::insert`.
#[verifier::external_body]
pub(crate) fn states_put(m: &mut StateMap, key: (String, String), value: AffectiveState)
    ensures
        state_entries(*final(m)) == state_entries(*old(m)).insert((key.0@, key.1@), value),
{
    m.insert(key, value);
}

/// Every entry of a map of states, each once, in no particular order.
///
/// Stands for `DashMap::iter`, the entries copied out.
#[verifier::external_body]
pub(crate) fn states_list(m: &StateMap) -> (res: Vec<(String, String, AffectiveState)>)
    ensures
        forall|i: int|
            0 <= i < res@.len() ==> state_entries(*m).contains_pair(
                ((#[trigger] res@[i]).0@, res@[i].1@),
                res@[i].2,
            ),
        forall|k: (Seq<char>, Seq<char>)| #[trigger]
            state_entries(*m).contains_key(k) ==> exists|i: int|
                0 <= i < res@.len() && ((#[trigger] res@[i]).0@, res@[i].1@) == k,
        forall|i: int, j: int|
            0 <= i < j < res@.len() ==> ((#[trigger] res@[i]).0@, res@[i].1@) != ((
            #[trigger] res@[j]).0@, res@[j].1@),
{
    m.iter().map(|e| (e.key().0.clone(), e.key().1.clone(), *e.value())).collect()
}

/// An empty map of messages.
///
/// Stands for `DashMap::new`.
#[verifier::external_body]
pub(crate) fn windows_new() -> (res: WindowMap)
    ensures
        forall|k: Seq<char>| !#[trigger] window_entries(res).contains_key(k),
{
    DashMap::new()
}

/// Takes the messages under a key out of the map.
///
/// Stands for `DashMap::remove`.
#[verifier::external_body]
pub(crate) fn windows_take(m: &mut WindowMap, key: &String) -> (res: Option<Vec<ChatMessage>>)
    ensures
        window_entries(*final(m)) == window_entries(*old(m)).remove(key@),
        match res {
            Some(v) => window_entries(*old(m)).contains_pair(key@, v@),
            None => !window_entries(*old(m)).contains_key(key@),
        },
{
    m.remove(key).map(|entry| entry.1)
}

/// Sets the messages under a key.
///
/// Stands for `DashMap::insert`.
#[verifier::external_body]
pub(crate) fn windows_put(m: &mut WindowMap, key: String, value: Vec<ChatMessage>)
    ensures
        window_entries(*final(m)) == window_entries(*old(m)).insert(key@, value@),
{
    m.insert(key, value);
}

/// An empty map of points in time.
///
/// Stands for `DashMap::new`.
#[verifier::external_body]
pub(crate) fn times_new() -> (res: TimeMap)
    ensures
        forall|k: Seq<char>| !#[trigger] time_entries(res).contains_key(k),
{
    DashMap::new()
}

/// The point in time under a key.
///
/// Stands for `DashMap::get`, the value copied out.
#[verifier::external_body]
pub(crate) fn times_get(m: &TimeMap, key: &String) -> (res: Option<Timestamp>)
    ensures
        match res {
            Some(v) => time_entries(*m).contains_pair(key@, v),
            None => !time_entries(*m).contains_key(key@),
        },
{
    m.get(key).map(|entry| *entry.value())
}

/// Sets the point in time under a key.
///
/// Stands for `DashMap::insert`.
#[verifier::external_body]
pub(crate) fn times_put(m: &mut TimeMap, key: String, value: Timestamp)
    ensures
        time_entries(*final(m)) == time_entries(*old(m)).insert(key@, value),
{
    m.insert(key, value);
}

} // verus!
