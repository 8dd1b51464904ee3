//! Partition locations in lists and tables, and their form in messages.

use std::collections::HashMap;

use dashmap::DashMap;
use vstd::prelude::*;
use vstd::string::*;

use crate::protocol;
use crate::protocol::transport;
use crate::protocol::transport::{PbPartitionLocation, PbStorageInfo};
use crate::protocol::{LocationModel, PartitionLocation, PartitionMode, StorageInfo};
use crate::string_map;

verus! {

broadcast use vstd::std_specs::hash::group_hash_axioms;

/// The location that a message form describes.
pub open spec fn located(pb: transport::PbLocationModel) -> LocationModel
    decreases pb,
{
    LocationModel {
        id: pb.id,
        epoch: pb.epoch,
        host: pb.host,
        rpc_port: pb.rpc_port,
        push_port: pb.push_port,
        fetch_port: pb.fetch_port,
        replicate_port: pb.replicate_port,
        mode: protocol::mode_of(pb.mode),
        peer: match pb.peer {
            Some(p) => Some(Box::new(located(*p))),
            None => None,
        },
        storage_info: pb.storage_info,
    }
}

/// The message form of a location.
pub open spec fn described(loc: LocationModel) -> transport::PbLocationModel
    decreases loc,
{
    transport::PbLocationModel {
        mode: protocol::mode_code(loc.mode) as i32,
        id: loc.id,
        epoch: loc.epoch,
        host: loc.host,
        rpc_port: loc.rpc_port,
        push_port: loc.push_port,
        fetch_port: loc.fetch_port,
        replicate_port: loc.replicate_port,
        peer: match loc.peer {
            Some(p) => Some(Box::new(described(*p))),
            None => None,
        },
        storage_info: loc.storage_info,
        map_id_bitmap: Seq::<u8>::empty(),
    }
}

/// A location survives the way into a message and back.
pub proof fn law_location_round_trip(loc: LocationModel)
    ensures
        located(described(loc)) == loc,
    decreases loc,
{
    match loc.peer {
        Some(p) => {
            law_location_round_trip(*p);
        },
        None => {},
    }
}

/// Convert protobuf partition location to our type.
pub fn convert_partition_location(pb: &PbPartitionLocation) -> (r: PartitionLocation)
    ensures
        r.model() == located(pb.model()),
        r.push_port == pb.push_port,
        r.fetch_port == pb.fetch_port,
    decreases pb,
{
    let mut location: PartitionLocation = PartitionLocation::new(
        pb.id,
        pb.epoch,
        pb.host.clone(),
        pb.rpc_port,
        pb.push_port,
        pb.fetch_port,
        pb.replicate_port,
    );
    location.mode = PartitionMode::from(pb.mode);
    location.storage_info = match &pb.storage_info {
        Some(storage) => {
            let chunk_offsets: Vec<i64> = storage.chunk_offsets.clone();
            assert(chunk_offsets@ =~= storage.chunk_offsets@);
            Some(
                StorageInfo {
                    storage_type: storage.storage_type,
                    mount_point: storage.mount_point.clone(),
                    final_result: storage.final_result,
                    file_path: storage.file_path.clone(),
                    available_storage_types: storage.available_storage_types,
                    file_size: storage.file_size,
                    chunk_offsets,
                },
            )
        },
        None => None,
    };
    location.peer = match &pb.peer {
        Some(peer) => Some(Box::new(convert_partition_location(&**peer))),
        None => None,
    };
    proof {
        reveal_with_fuel(PartitionLocation::model, 2);
        reveal_with_fuel(PbPartitionLocation::model, 2);
        reveal_with_fuel(located, 2);
    }
    location
}

/// Convert our partition location to protobuf.
pub fn convert_to_pb_location(loc: &PartitionLocation) -> (r: PbPartitionLocation)
    ensures
        r.model() == described(loc.model()),
    decreases loc,
{
    let storage_info: Option<PbStorageInfo> = match &loc.storage_info {
        Some(s) => {
            let chunk_offsets: Vec<i64> = s.chunk_offsets.clone();
            assert(chunk_offsets@ =~= s.chunk_offsets@);
            Some(
                PbStorageInfo {
                    storage_type: s.storage_type,
                    mount_point: s.mount_point.clone(),
                    final_result: s.final_result,
                    file_path: s.file_path.clone(),
                    available_storage_types: s.available_storage_types,
                    file_size: s.file_size,
                    chunk_offsets,
                },
            )
        },
        None => None,
    };
    let peer: Option<Box<PbPartitionLocation>> = match &loc.peer {
        Some(p) => Some(Box::new(convert_to_pb_location(&**p))),
        None => None,
    };
    let map_id_bitmap: Vec<u8> = Vec::new();
    proof {
        assert(map_id_bitmap@ =~= Seq::<u8>::empty());
        reveal_with_fuel(PartitionLocation::model, 2);
        reveal_with_fuel(PbPartitionLocation::model, 2);
        reveal_with_fuel(described, 2);
    }
    PbPartitionLocation {
        mode: loc.mode.code(),
        id: loc.id,
        epoch: loc.epoch,
        host: loc.host.clone(),
        rpc_port: loc.rpc_port,
        push_port: loc.push_port,
        fetch_port: loc.fetch_port,
        replicate_port: loc.replicate_port,
        peer,
        storage_info,
        map_id_bitmap,
    }
}

/// What a list of locations says.
pub open spec fn models(s: Seq<PartitionLocation>) -> Seq<LocationModel> {
    Seq::new(s.len(), |i: int| s[i].model())
}

/// What a list of message forms says.
pub open spec fn pb_models(s: Seq<PbPartitionLocation>) -> Seq<transport::PbLocationModel> {
    Seq::new(s.len(), |i: int| s[i].model())
}

/// The locations that a list of message forms describes.
pub open spec fn all_located(s: Seq<PbPartitionLocation>) -> Seq<LocationModel> {
    Seq::new(s.len(), |i: int| located(s[i].model()))
}

/// What a table of locations says.
pub open spec fn table(m: Map<i32, Vec<PartitionLocation>>) -> Map<i32, Seq<LocationModel>> {
    Map::new(|id: i32| m.dom().contains(id), |id: i32| models(m[id]@))
}

/// The locations of one partition; none where the table does not hold it.
pub open spec fn held(m: Map<i32, Seq<LocationModel>>, id: i32) -> Seq<LocationModel> {
    if m.dom().contains(id) {
        m[id]
    } else {
        Seq::<LocationModel>::empty()
    }
}

/// A copy of a list.
pub fn clone_locations(v: &Vec<PartitionLocation>) -> (r: Vec<PartitionLocation>)
    ensures
        models(r@) == models(v@),
{
    let n: usize = v.len();
    let mut out: Vec<PartitionLocation> = Vec::new();
    let mut i: usize = 0;
    while i < n
        invariant
            n == v@.len(),
            i <= n,
            out@.len() == i,
            forall|j: int| 0 <= j < i ==> (#[trigger] out@[j]).model() == v@[j].model(),
        decreases n - i,
    {
        out.push(v[i].clone());
        i += 1;
    }
    assert(models(out@) =~= models(v@));
    out
}

/// The locations that a list of message forms describes.
pub fn convert_all(v: &Vec<PbPartitionLocation>) -> (r: Vec<PartitionLocation>)
    ensures
        models(r@) == all_located(v@),
{
    let n: usize = v.len();
    let mut out: Vec<PartitionLocation> = Vec::new();
    let mut i: usize = 0;
    while i < n
        invariant
            n == v@.len(),
            i <= n,
            out@.len() == i,
            forall|j: int| 0 <= j < i ==> (#[trigger] out@[j]).model() == located(v@[j].model()),
        decreases n - i,
    {
        out.push(convert_partition_location(&v[i]));
        i += 1;
    }
    assert(models(out@) =~= all_located(v@));
    out
}

/// Adds a location behind those of its partition.
pub fn add_location(
    m: &mut HashMap<i32, Vec<PartitionLocation>>,
    id: i32,
    location: PartitionLocation,
)
    ensures
        table(final(m)@) == table(old(m)@).insert(
            id,
            held(table(old(m)@), id).push(location.model()),
        ),
{
    let mut list: Vec<PartitionLocation> = match m.remove(&id) {
        Some(v) => v,
        None => Vec::new(),
    };
    let ghost before = list@;
    list.push(location);
    let ghost after = list@;
    m.insert(id, list);
    proof {
        assert(models(before) =~= held(table(old(m)@), id));
        assert(models(after) =~= models(before).push(location.model()));
        assert(table(m@) =~= table(old(m)@).insert(
            id,
            held(table(old(m)@), id).push(location.model()),
        ));
    }
}

/// The keys of a map, in some order.
pub fn keys_of<V>(m: &HashMap<i32, V>) -> (r: Vec<i32>)
    ensures
        r@.no_duplicates(),
        r@.to_set() == m@.dom(),
{
    let mut out: Vec<i32> = Vec::new();
    for k in it: m.keys()
        invariant
            out@ == it.seq().unref().take(it.index() as int),
            it.seq().unref().to_set() == m@.dom(),
            it.seq().no_duplicates(),
            it.seq().unref().take(it.seq().len() as int) =~= it.seq().unref(),
    {
        out.push(*k);
        assert(out@ =~= it.seq().unref().take(it.index() + 1));
    }
    out
}

/// The lists that a map holds for the partitions.
pub uninterp spec fn lists(m: DashMap<i32, Vec<PartitionLocation>>) -> Map<
    i32,
    Vec<PartitionLocation>,
>;

/// `DashMap::new`: a map without entries.
#[verifier::external_body]
fn lists_new() -> (r: DashMap<i32, Vec<PartitionLocation>>)
    ensures
        lists(r).dom() == Set::<i32>::empty(),
{
    DashMap::new()
}

/// `DashMap::get`: the value of a key, if it has one; here a copy of it.
#[verifier::external_body]
fn lists_get(m: &DashMap<i32, Vec<PartitionLocation>>, id: i32) -> (r: Option<Vec<PartitionLocation>>)
    ensures
        match r {
            Some(v) => lists(*m).dom().contains(id) && models(v@) == models(lists(*m)[id]@),
            None => !lists(*m).dom().contains(id),
        },
{
    m.get(&id).map(|list| clone_locations(list.value()))
}

/// `DashMap::insert`: sets the value of a key, in place of one that it had.
#[verifier::external_body]
fn lists_insert(m: &mut DashMap<i32, Vec<PartitionLocation>>, id: i32, list: Vec<PartitionLocation>)
    ensures
        lists(*final(m)) == lists(*old(m)).insert(id, list),
{
    m.insert(id, list);
}

/// `DashMap::remove`: takes the entry of a key out and gives its value, if there is one.
#[verifier::external_body]
fn lists_remove(m: &mut DashMap<i32, Vec<PartitionLocation>>, id: i32) -> (r: Option<
    Vec<PartitionLocation>,
>)
    ensures
        lists(*final(m)) == lists(*old(m)).remove(id),
        match r {
            Some(v) => lists(*old(m)).dom().contains(id) && v == lists(*old(m))[id],
            None => !lists(*old(m)).dom().contains(id),
        },
{
    m.remove(&id).map(|(_, list)| list)
}

/// `DashMap::iter`: walks over the entries, each once, in an order that is not described;
/// here their keys.
#[verifier::external_body]
fn lists_keys(m: &DashMap<i32, Vec<PartitionLocation>>) -> (r: Vec<i32>)
    ensures
        r@.no_duplicates(),
        r@.to_set() == lists(*m).dom(),
{
    m.iter().map(|entry| *entry.key()).collect()
}

/// The locations of the partitions of a shuffle.
pub struct LocationTable {
    pub map: DashMap<i32, Vec<PartitionLocation>>,
}

impl View for LocationTable {
    type V = Map<i32, Vec<PartitionLocation>>;

    open spec fn view(&self) -> Map<i32, Vec<PartitionLocation>> {
        lists(self.map)
    }
}

impl LocationTable {
    /// No partition has a location.
    pub fn new() -> (r: Self)
        ensures
            r@ == Map::<i32, Vec<PartitionLocation>>::empty(),
    {
        let r: LocationTable = LocationTable { map: lists_new() };
        assert(r@ =~= Map::<i32, Vec<PartitionLocation>>::empty());
        r
    }

    /// The locations of a partition, if it is known.
    pub fn get(&self, id: i32) -> (r: Option<Vec<PartitionLocation>>)
        ensures
            match r {
                Some(v) => self@.dom().contains(id) && models(v@) == models(self@[id]@),
                None => !self@.dom().contains(id),
            },
    {
        lists_get(&self.map, id)
    }

    /// The partitions, in some order.
    pub fn keys(&self) -> (r: Vec<i32>)
        ensures
            r@.no_duplicates(),
            r@.to_set() == self@.dom(),
    {
        lists_keys(&self.map)
    }

    /// Adds a location behind those of its partition.
    pub fn add_location(&mut self, id: i32, location: PartitionLocation)
        ensures
            table(final(self)@) == table(old(self)@).insert(
                id,
                held(table(old(self)@), id).push(location.model()),
            ),
    {
        let mut list: Vec<PartitionLocation> = match lists_remove(&mut self.map, id) {
            Some(v) => v,
            None => Vec::new(),
        };
        let ghost before = list@;
        list.push(location);
        let ghost after = list@;
        lists_insert(&mut self.map, id, list);
        proof {
            assert(models(before) =~= held(table(old(self)@), id));
            assert(models(after) =~= models(before).push(location.model()));
            assert(table(self@) =~= table(old(self)@).insert(
                id,
                held(table(old(self)@), id).push(location.model()),
            ));
        }
    }

    /// A table with the entries of a map.
    pub fn from_map(m: HashMap<i32, Vec<PartitionLocation>>) -> (r: Self)
        ensures
            r@ == m@,
    {
        let ghost all = m@;
        let mut rest: HashMap<i32, Vec<PartitionLocation>> = m;
        let ids: Vec<i32> = keys_of(&rest);
        let n: usize = ids.len();
        let mut r: LocationTable = LocationTable::new();
        let mut i: usize = 0;
        assert(r@ =~= all.restrict(ids@.take(0).to_set()));
        assert(rest@ =~= all.remove_keys(ids@.take(0).to_set()));
        while i < n
            invariant
                n == ids@.len(),
                i <= n,
                ids@.no_duplicates(),
                ids@.to_set() == all.dom(),
                r@ == all.restrict(ids@.take(i as int).to_set()),
                rest@ == all.remove_keys(ids@.take(i as int).to_set()),
            decreases n - i,
        {
            let id: i32 = ids[i];
            proof {
                assert(ids@.to_set().contains(id));
                lemma_taken(ids@, i as int);
                assert(rest@.dom().contains(id));
            }
            match rest.remove(&id) {
                Some(list) => {
                    lists_insert(&mut r.map, id, list);
                },
                None => {},
            }
            proof {
                assert(r@ =~= all.restrict(ids@.take(i + 1).to_set()));
                assert(rest@ =~= all.remove_keys(ids@.take(i + 1).to_set()));
            }
            i += 1;
        }
        assert(ids@.take(n as int) =~= ids@);
        assert(r@ =~= all);
        r
    }

    /// A copy of the table.
    pub fn to_map(&self) -> (r: HashMap<i32, Vec<PartitionLocation>>)
        ensures
            table(r@) == table(self@),
    {
        let ids: Vec<i32> = self.keys();
        let n: usize = ids.len();
        let mut out: HashMap<i32, Vec<PartitionLocation>> = HashMap::new();
        let mut i: usize = 0;
        assert(ids@.take(0).to_set() =~= Set::<i32>::empty());
        while i < n
            invariant
                n == ids@.len(),
                i <= n,
                ids@.no_duplicates(),
                ids@.to_set() == self@.dom(),
                out@.dom() == ids@.take(i as int).to_set(),
                forall|id: i32| #[trigger]
                    out@.dom().contains(id) ==> self@.dom().contains(id) && models(out@[id]@)
                        == models(self@[id]@),
            decreases n - i,
        {
            let id: i32 = ids[i];
            proof {
                assert(ids@.to_set().contains(id));
                lemma_taken(ids@, i as int);
            }
            match self.get(id) {
                Some(list) => {
                    out.insert(id, list);
                },
                None => {},
            }
            assert(out@.dom() =~= ids@.take(i + 1).to_set());
            i += 1;
        }
        assert(ids@.take(n as int) =~= ids@);
        assert(table(out@) =~= table(self@));
        out
    }
}

/// One more element of a list without duplicates is one more element of its set.
proof fn lemma_taken(ids: Seq<i32>, i: int)
    requires
        0 <= i < ids.len(),
        ids.no_duplicates(),
    ensures
        ids.take(i + 1).to_set() == ids.take(i).to_set().insert(ids[i]),
        !ids.take(i).to_set().contains(ids[i]),
{
    let shorter = ids.take(i);
    let longer = ids.take(i + 1);
    assert forall|x: i32| #[trigger]
        longer.to_set().contains(x) == shorter.to_set().insert(ids[i]).contains(x) by {
        if shorter.contains(x) {
            let j = choose|j: int| 0 <= j < shorter.len() && shorter[j] == x;
            assert(longer[j] == x);
        }
        if longer.contains(x) && x != ids[i] {
            let j = choose|j: int| 0 <= j < longer.len() && longer[j] == x;
            assert(shorter[j] == x);
        }
        assert(longer[i] == ids[i]);
    }
    assert(longer.to_set() =~= shorter.to_set().insert(ids[i]));
    if ids.take(i).contains(ids[i]) {
        let j = choose|j: int| 0 <= j < i && ids.take(i)[j] == ids[i];
        assert(ids[j] == ids[i]);
    }
}

/// The items of one worker, by the role of the partitions that they belong to.
pub struct WorkerGroup<T> {
    pub host: String,
    pub port: i32,
    pub primary: Vec<T>,
    pub replica: Vec<T>,
}

/// Items grouped by worker.
pub struct WorkerGroups<T> {
    pub groups: Vec<WorkerGroup<T>>,
}

/// Whether group `i` belongs to the worker.
pub open spec fn group_at<T>(
    groups: Seq<WorkerGroup<T>>,
    i: int,
    host: Seq<char>,
    port: i32,
) -> bool {
    0 <= i < groups.len() && groups[i].host@ == host && groups[i].port == port
}

impl<T> WorkerGroups<T> {
    /// No worker has two groups.
    pub open spec fn wf(&self) -> bool {
        forall|i: int, j: int|
            #![trigger self.groups@[i], self.groups@[j]]
            0 <= i < j < self.groups@.len() ==> !(self.groups@[i].host@ == self.groups@[j].host@
                && self.groups@[i].port == self.groups@[j].port)
    }

    /// Whether the worker has a group.
    pub open spec fn knows(&self, host: Seq<char>, port: i32) -> bool {
        exists|i: int| group_at(self.groups@, i, host, port)
    }

    /// The items of the worker.
    pub open spec fn items(&self, host: Seq<char>, port: i32, primary: bool) -> Seq<T> {
        if self.knows(host, port) {
            let i = choose|i: int| group_at(self.groups@, i, host, port);
            if primary {
                self.groups@[i].primary@
            } else {
                self.groups@[i].replica@
            }
        } else {
            Seq::<T>::empty()
        }
    }

    /// A group holds the items of its worker.
    pub proof fn lemma_group(&self, i: int)
        requires
            self.wf(),
            0 <= i < self.groups@.len(),
        ensures
            self.knows(self.groups@[i].host@, self.groups@[i].port),
            self.items(self.groups@[i].host@, self.groups@[i].port, true)
                == self.groups@[i].primary@,
            self.items(self.groups@[i].host@, self.groups@[i].port, false)
                == self.groups@[i].replica@,
    {
        let g = self.groups@[i];
        assert(group_at(self.groups@, i, g.host@, g.port));
        let j = choose|j: int| group_at(self.groups@, j, g.host@, g.port);
        assert(group_at(self.groups@, j, g.host@, g.port));
        assert(self.groups@[i].port == self.groups@[j].port);
    }

    /// No groups.
    pub fn new() -> (r: Self)
        ensures
            r.wf(),
            forall|h: Seq<char>, p: i32| !r.knows(h, p),
    {
        WorkerGroups { groups: Vec::new() }
    }

    /// Adds an item to the group of the worker.
    pub fn add_item(&mut self, host: &str, port: i32, primary: bool, item: T)
        requires
            old(self).wf(),
        ensures
            final(self).wf(),
            forall|h: Seq<char>, p: i32|
                final(self).knows(h, p) == (old(self).knows(h, p) || (h == host@ && p == port)),
            forall|h: Seq<char>, p: i32, b: bool|
                #![trigger final(self).items(h, p, b)]
                final(self).items(h, p, b) == if h == host@ && p == port && b == primary {
                    old(self).items(h, p, b).push(item)
                } else {
                    old(self).items(h, p, b)
                },
    {
        let n: usize = self.groups.len();
        let mut i: usize = 0;
        while i < n && !(self.groups[i].port == port && string_map::same_text(
            self.groups[i].host.as_str(),
            host,
        ))
            invariant
                *self == *old(self),
                n == self.groups@.len(),
                i <= n,
                forall|j: int| 0 <= j < i ==> !group_at(self.groups@, j, host@, port),
            decreases n - i,
        {
            i += 1;
        }
        if i == n {
            self.groups.push(
                WorkerGroup {
                    host: host.to_owned(),
                    port,
                    primary: Vec::new(),
                    replica: Vec::new(),
                },
            );
        }
        let ghost mid = *self;
        let ghost start = *old(self);
        proof {
            assert(mid.wf()) by {
                if i == n {
                    assert forall|a: int, b: int| 0 <= a < b < mid.groups@.len() implies !(
                    mid.groups@[a].host@ == mid.groups@[b].host@ && mid.groups@[a].port
                        == mid.groups@[b].port) by {
                        if b == n {
                            assert(!group_at(start.groups@, a, host@, port));
                        } else {
                            assert(start.groups@[a] == mid.groups@[a]);
                            assert(start.groups@[b] == mid.groups@[b]);
                        }
                    }
                }
            }
            assert(group_at(mid.groups@, i as int, host@, port));
            assert forall|h: Seq<char>, p: i32|
                #![trigger mid.knows(h, p)]
                mid.knows(h, p) == (start.knows(h, p) || (h == host@ && p == port)) by {
                if start.knows(h, p) {
                    let j = choose|j: int| group_at(start.groups@, j, h, p);
                    assert(group_at(mid.groups@, j, h, p));
                }
                if mid.knows(h, p) {
                    let j = choose|j: int| group_at(mid.groups@, j, h, p);
                    if j < n {
                        assert(group_at(start.groups@, j, h, p));
                    }
                }
            }
            assert forall|h: Seq<char>, p: i32, b: bool|
                #![trigger mid.items(h, p, b)]
                mid.items(h, p, b) =~= start.items(h, p, b) by {
                if start.knows(h, p) {
                    let j = choose|j: int| group_at(start.groups@, j, h, p);
                    assert(mid.groups@[j] == start.groups@[j]);
                    start.lemma_group(j);
                    mid.lemma_group(j);
                } else if mid.knows(h, p) {
                    mid.lemma_group(i as int);
                }
            }
        }
        if primary {
            self.groups[i].primary.push(item);
        } else {
            self.groups[i].replica.push(item);
        }
        proof {
            let end = *self;
            assert(end.groups@.len() == mid.groups@.len());
            assert forall|j: int| 0 <= j < end.groups@.len() implies (#[trigger] end.groups@[j]).host@
                == mid.groups@[j].host@ && end.groups@[j].port == mid.groups@[j].port by {}
            assert forall|h: Seq<char>, p: i32, j: int|
                #![trigger group_at(end.groups@, j, h, p)]
                #![trigger group_at(mid.groups@, j, h, p)]
                group_at(end.groups@, j, h, p) == group_at(mid.groups@, j, h, p) by {}
            assert(end.wf()) by {
                assert forall|a: int, b: int| 0 <= a < b < end.groups@.len() implies !(
                end.groups@[a].host@ == end.groups@[b].host@ && end.groups@[a].port
                    == end.groups@[b].port) by {
                    assert(mid.groups@[a].host@ == end.groups@[a].host@);
                    assert(mid.groups@[b].host@ == end.groups@[b].host@);
                }
            }
            assert forall|h: Seq<char>, p: i32|
                #![trigger end.knows(h, p)]
                end.knows(h, p) == mid.knows(h, p) by {
                if mid.knows(h, p) {
                    let j = choose|j: int| group_at(mid.groups@, j, h, p);
                    assert(group_at(end.groups@, j, h, p));
                }
                if end.knows(h, p) {
                    let j = choose|j: int| group_at(end.groups@, j, h, p);
                    assert(group_at(mid.groups@, j, h, p));
                }
            }
            assert forall|h: Seq<char>, p: i32, b: bool|
                #![trigger end.items(h, p, b)]
                end.items(h, p, b) == if h == host@ && p == port && b == primary {
                    start.items(h, p, b).push(item)
                } else {
                    start.items(h, p, b)
                } by {
                assert(mid.items(h, p, b) == start.items(h, p, b));
                if mid.knows(h, p) {
                    assert(end.knows(h, p));
                    let j = choose|j: int| group_at(mid.groups@, j, h, p);
                    mid.lemma_group(j);
                    assert(group_at(end.groups@, j, h, p));
                    end.lemma_group(j);
                    if h == host@ && p == port {
                        assert(j == i) by {
                            if j != i {
                                assert(mid.groups@[j].port == mid.groups@[i as int].port);
                            }
                        }
                    }
                }
            }
        }
    }
}

} // verus!
