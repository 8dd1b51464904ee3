//! The concurrent tables of `dashmap` that the client keeps its counters, exclusions and
//! names in. A table is changed through `&mut` here, so that what it holds can be named.

use dashmap::{DashMap, DashSet};
use vstd::prelude::*;

use crate::protocol::WorkerInfo;

verus! {

/// `dashmap::DashMap`, a hash map that is changed through shared references.
#[verifier::external_type_specification]
#[verifier::external_body]
#[verifier::reject_recursive_types(K)]
#[verifier::reject_recursive_types(V)]
#[verifier::reject_recursive_types(S)]
pub struct ExDashMap<K, V, S>(dashmap::DashMap<K, V, S>);

/// `dashmap::DashSet`, a hash set that is changed through shared references.
#[verifier::external_type_specification]
#[verifier::external_body]
#[verifier::reject_recursive_types(K)]
#[verifier::reject_recursive_types(S)]
pub struct ExDashSet<K, S>(dashmap::DashSet<K, S>);

/// The texts of keys.
pub open spec fn texts(keys: Seq<String>) -> Seq<Seq<char>> {
    keys.map_values(|k: String| k@)
}

/// The number that a map of counters holds for each partition.
pub uninterp spec fn counts(m: DashMap<i32, i32>) -> Map<i32, i32>;

/// `DashMap::new`: a map without entries.
#[verifier::external_body]
fn counts_new() -> (r: DashMap<i32, i32>)
    ensures
        counts(r).dom() == Set::<i32>::empty(),
{
    DashMap::new()
}

/// `DashMap::get`: the value of a key, if it has one.
#[verifier::external_body]
fn counts_get(m: &DashMap<i32, i32>, id: i32) -> (r: Option<i32>)
    ensures
        match r {
            Some(n) => counts(*m).dom().contains(id) && n == counts(*m)[id],
            None => !counts(*m).dom().contains(id),
        },
{
    m.get(&id).map(|n| *n.value())
}

/// `DashMap::insert`: sets the value of a key, in place of one that it had.
#[verifier::external_body]
fn counts_insert(m: &mut DashMap<i32, i32>, id: i32, n: i32)
    ensures
        counts(*final(m)) == counts(*old(m)).insert(id, n),
{
    m.insert(id, n);
}

/// A counter for each partition, from 0 on.
pub struct BatchCounters {
    pub map: DashMap<i32, i32>,
}

/// The count of a partition so far.
pub open spec fn count_of(counters: Map<i32, i32>, id: i32) -> i32 {
    if counters.dom().contains(id) {
        counters[id]
    } else {
        0
    }
}

impl View for BatchCounters {
    type V = Map<i32, i32>;

    open spec fn view(&self) -> Map<i32, i32> {
        counts(self.map)
    }
}

impl BatchCounters {
    /// No partition was counted yet.
    pub fn new() -> (r: Self)
        ensures
            r@ == Map::<i32, i32>::empty(),
    {
        let r: BatchCounters = BatchCounters { map: counts_new() };
        assert(r@ =~= Map::<i32, i32>::empty());
        r
    }

    /// The count of a partition, which then goes on by one and wraps around.
    pub fn count(&mut self, id: i32) -> (r: i32)
        ensures
            r == count_of(old(self)@, id),
            final(self)@ == old(self)@.insert(id, r.wrapping_add(1)),
    {
        let n: i32 = match counts_get(&self.map, id) {
            Some(n) => n,
            None => 0,
        };
        counts_insert(&mut self.map, id, n.wrapping_add(1));
        n
    }
}

/// The time that a map holds for each worker.
pub uninterp spec fn times(m: DashMap<String, u64>) -> Map<Seq<char>, u64>;

/// `DashMap::new`: a map without entries.
#[verifier::external_body]
fn times_new() -> (r: DashMap<String, u64>)
    ensures
        times(r).dom() == Set::<Seq<char>>::empty(),
{
    DashMap::new()
}

/// `DashMap::get`: the value of a key, if it has one.
#[verifier::external_body]
fn times_get(m: &DashMap<String, u64>, worker: &str) -> (r: Option<u64>)
    ensures
        match r {
            Some(at) => times(*m).dom().contains(worker@) && at == times(*m)[worker@],
            None => !times(*m).dom().contains(worker@),
        },
{
    m.get(worker).map(|at| *at.value())
}

/// `DashMap::contains_key`: whether a key has a value.
#[verifier::external_body]
fn times_contains(m: &DashMap<String, u64>, worker: &str) -> (r: bool)
    ensures
        r == times(*m).dom().contains(worker@),
{
    m.contains_key(worker)
}

/// `DashMap::insert`: sets the value of a key, in place of one that it had.
#[verifier::external_body]
fn times_insert(m: &mut DashMap<String, u64>, worker: String, at: u64)
    ensures
        times(*final(m)) == times(*old(m)).insert(worker@, at),
{
    m.insert(worker, at);
}

/// `DashMap::remove`: takes the entry of a key out, if there is one.
#[verifier::external_body]
fn times_remove(m: &mut DashMap<String, u64>, worker: &str)
    ensures
        times(*final(m)) == times(*old(m)).remove(worker@),
{
    m.remove(worker);
}

/// When workers were excluded, by a clock of the caller.
pub struct WorkerTimes {
    pub map: DashMap<String, u64>,
}

impl View for WorkerTimes {
    type V = Map<Seq<char>, u64>;

    open spec fn view(&self) -> Map<Seq<char>, u64> {
        times(self.map)
    }
}

impl WorkerTimes {
    /// No worker is excluded.
    pub fn new() -> (r: Self)
        ensures
            r@ == Map::<Seq<char>, u64>::empty(),
    {
        let r: WorkerTimes = WorkerTimes { map: times_new() };
        assert(r@ =~= Map::<Seq<char>, u64>::empty());
        r
    }

    /// When a worker was excluded.
    pub fn get(&self, worker: &str) -> (r: Option<u64>)
        ensures
            match r {
                Some(at) => self@.dom().contains(worker@) && at == self@[worker@],
                None => !self@.dom().contains(worker@),
            },
    {
        times_get(&self.map, worker)
    }

    /// Whether a worker is excluded.
    pub fn contains_key(&self, worker: &str) -> (r: bool)
        ensures
            r == self@.dom().contains(worker@),
    {
        times_contains(&self.map, worker)
    }

    /// Excludes a worker from a time on.
    pub fn insert(&mut self, worker: String, at: u64)
        ensures
            final(self)@ == old(self)@.insert(worker@, at),
    {
        times_insert(&mut self.map, worker, at)
    }

    /// Excludes a worker no longer.
    pub fn remove(&mut self, worker: &str)
        ensures
            final(self)@ == old(self)@.remove(worker@),
    {
        times_remove(&mut self.map, worker)
    }
}

/// The names in a set.
pub uninterp spec fn names(s: DashSet<String>) -> Set<Seq<char>>;

/// `DashSet::new`: a set without elements.
#[verifier::external_body]
fn names_new() -> (r: DashSet<String>)
    ensures
        names(r) == Set::<Seq<char>>::empty(),
{
    DashSet::new()
}

/// `DashSet::insert`: puts an element into the set.
#[verifier::external_body]
fn names_insert(s: &mut DashSet<String>, name: String)
    ensures
        names(*final(s)) == names(*old(s)).insert(name@),
{
    s.insert(name);
}

/// `DashSet::contains`: whether the set has an element.
#[verifier::external_body]
fn names_contains(s: &DashSet<String>, name: &str) -> (r: bool)
    ensures
        r == names(*s).contains(name@),
{
    s.contains(name)
}

/// A set of names.
pub struct NameSet {
    pub set: DashSet<String>,
}

impl View for NameSet {
    type V = Set<Seq<char>>;

    open spec fn view(&self) -> Set<Seq<char>> {
        names(self.set)
    }
}

impl NameSet {
    /// No name.
    pub fn new() -> (r: Self)
        ensures
            r@ == Set::<Seq<char>>::empty(),
    {
        NameSet { set: names_new() }
    }

    /// Adds a name.
    pub fn insert(&mut self, name: String)
        ensures
            final(self)@ == old(self)@.insert(name@),
    {
        names_insert(&mut self.set, name)
    }

    /// Whether a name is in the set.
    pub fn contains(&self, name: &str) -> (r: bool)
        ensures
            r == self@.contains(name@),
    {
        names_contains(&self.set, name)
    }
}

/// The workers that a map holds by their ids.
pub uninterp spec fn workers(m: DashMap<String, WorkerInfo>) -> Map<Seq<char>, WorkerInfo>;

/// `DashMap::new`: a map without entries.
#[verifier::external_body]
fn workers_new() -> (r: DashMap<String, WorkerInfo>)
    ensures
        workers(r).dom() == Set::<Seq<char>>::empty(),
{
    DashMap::new()
}

/// `DashMap::contains_key`: whether a key has a value.
#[verifier::external_body]
fn workers_contains(m: &DashMap<String, WorkerInfo>, id: &str) -> (r: bool)
    ensures
        r == workers(*m).dom().contains(id@),
{
    m.contains_key(id)
}

/// Workers by their ids.
pub struct WorkerTable {
    pub map: DashMap<String, WorkerInfo>,
}

impl View for WorkerTable {
    type V = Map<Seq<char>, WorkerInfo>;

    open spec fn view(&self) -> Map<Seq<char>, WorkerInfo> {
        workers(self.map)
    }
}

impl WorkerTable {
    /// No worker.
    pub fn new() -> (r: Self)
        ensures
            r@ == Map::<Seq<char>, WorkerInfo>::empty(),
    {
        let r: WorkerTable = WorkerTable { map: workers_new() };
        assert(r@ =~= Map::<Seq<char>, WorkerInfo>::empty());
        r
    }

    /// Whether there is a worker of that id.
    pub fn contains_key(&self, id: &str) -> (r: bool)
        ensures
            r == self@.dom().contains(id@),
    {
        workers_contains(&self.map, id)
    }
}

} // verus!
