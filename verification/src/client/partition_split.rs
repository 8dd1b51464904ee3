//! Partition split handling.
//!
//! - SOFT_SPLIT: Worker signals that partition is getting large, client should request new location
//! - HARD_SPLIT: Worker forces split, client must wait for new location before continuing
//!
//! The split mechanism is triggered by Worker responses during push operations.

use std::collections::HashMap;

use vstd::prelude::*;
use vstd::string::*;

use crate::client::locations;
use crate::error;
use crate::error::{CelebornError, Result};
use crate::protocol::{LocationModel, PartitionLocation};
use crate::string_map;
use crate::string_map::StringMap;
use crate::text;

verus! {

broadcast use vstd::std_specs::hash::group_hash_axioms;

/// Status codes for split operations (matching Java StatusCode enum).
#[derive(Debug, Clone, Copy, PartialEq, Eq, Structural)]
pub enum SplitStatus {
    /// Soft split - partition is getting large, request new location asynchronously
    SoftSplit,
    /// Hard split - partition must be split, wait for new location
    HardSplit,
}

/// The number of a split status.
pub open spec fn split_code(s: SplitStatus) -> int {
    match s {
        SplitStatus::HardSplit => 21,
        SplitStatus::SoftSplit => 22,
    }
}

/// The split status with a number.
pub open spec fn split_of(value: u8) -> Option<SplitStatus> {
    if value == 21 {
        Some(SplitStatus::HardSplit)
    } else if value == 22 {
        Some(SplitStatus::SoftSplit)
    } else {
        None
    }
}

/// A split status is the one with its number.
pub proof fn law_split_status_round_trip(s: SplitStatus)
    ensures
        split_of(split_code(s) as u8) == Some(s),
{
}

impl SplitStatus {
    /// The number of the status.
    pub fn code(&self) -> (r: u8)
        ensures
            r == split_code(*self),
    {
        match self {
            SplitStatus::SoftSplit => 22,
            SplitStatus::HardSplit => 21,
        }
    }
}

impl TryFrom<u8> for SplitStatus {
    type Error = CelebornError;

    fn try_from(value: u8) -> (r: Result<Self>)
        ensures
            match split_of(value) {
                Some(s) => r == Ok::<SplitStatus, CelebornError>(s),
                None => r matches Err(CelebornError::Protocol(m)) && m@ == "Unknown split status: "@
                    + text::nat_text(value as nat),
            },
    {
        match value {
            21 => Ok(SplitStatus::HardSplit),
            22 => Ok(SplitStatus::SoftSplit),
            _ => {
                let mut m: String = "Unknown split status: ".to_owned();
                text::append_u64(&mut m, value as u64);
                Err(CelebornError::Protocol(m))
            },
        }
    }
}

impl vstd::std_specs::convert::TryFromSpecImpl<u8> for SplitStatus {
    open spec fn obeys_try_from_spec() -> bool {
        false
    }

    open spec fn try_from_spec(value: u8) -> Result<Self> {
        arbitrary()
    }
}

/// The text of a split range.
pub open spec fn range_text(partition_id: i32, split_start: i32, split_end: i32) -> Seq<char> {
    text::int_text(partition_id as int) + seq!['_'] + text::int_text(split_start as int) + seq!['_']
        + text::int_text(split_end as int)
}

/// `{partition_id}_{split_start}_{split_end}`.
fn format_range(partition_id: i32, split_start: i32, split_end: i32) -> (r: String)
    ensures
        r@ == range_text(partition_id, split_start, split_end),
{
    proof {
        reveal_strlit("_");
    }
    let mut out: String = String::new();
    text::append_i64(&mut out, partition_id as i64);
    out.append("_");
    text::append_i64(&mut out, split_start as i64);
    out.append("_");
    text::append_i64(&mut out, split_end as i64);
    assert(out@ =~= range_text(partition_id, split_start, split_end));
    out
}

/// Split range information for a partition.
/// Format: "{partition_id}_{split_start}_{split_end}"
#[derive(Debug, Clone, Copy, PartialEq, Eq, Hash, Structural)]
pub struct SplitRange {
    /// Partition ID
    pub partition_id: i32,
    /// Split start index
    pub split_start: i32,
    /// Split end index
    pub split_end: i32,
}

impl SplitRange {
    /// Create a new split range.
    pub fn new(partition_id: i32, split_start: i32, split_end: i32) -> (r: Self)
        ensures
            r == (SplitRange { partition_id, split_start, split_end }),
    {
        SplitRange { partition_id, split_start, split_end }
    }

    /// Create a split range from a partition location.
    pub fn from_location(loc: &PartitionLocationWithSplit) -> (r: Self)
        ensures
            r == (SplitRange {
                partition_id: loc.location.id,
                split_start: loc.split_start,
                split_end: loc.split_end,
            }),
    {
        SplitRange {
            partition_id: loc.location.id,
            split_start: loc.split_start,
            split_end: loc.split_end,
        }
    }

    /// Get the string representation (used as map key).
    pub fn to_string(&self) -> (r: String)
        ensures
            r@ == range_text(self.partition_id, self.split_start, self.split_end),
    {
        format_range(self.partition_id, self.split_start, self.split_end)
    }
}

/// Extended partition location with split information.
#[derive(Debug)]
pub struct PartitionLocationWithSplit {
    /// Base partition location
    pub location: PartitionLocation,
    /// Split start index
    pub split_start: i32,
    /// Split end index
    pub split_end: i32,
    /// Parent location (for split partitions)
    pub parent: Option<Box<PartitionLocationWithSplit>>,
}

/// What a `PartitionLocationWithSplit` says.
pub struct SplitModel {
    pub location: LocationModel,
    pub split_start: i32,
    pub split_end: i32,
    pub parent: Option<Box<SplitModel>>,
}

impl PartitionLocationWithSplit {
    /// What the location says.
    pub open spec fn model(&self) -> SplitModel
        decreases self,
    {
        SplitModel {
            location: self.location.model(),
            split_start: self.split_start,
            split_end: self.split_end,
            parent: match self.parent {
                Some(p) => Some(Box::new(p.model())),
                None => None,
            },
        }
    }

    /// Create a new partition location with split info.
    pub fn new(location: PartitionLocation) -> (r: Self)
        ensures
            r == (PartitionLocationWithSplit {
                location,
                split_start: (-1int) as i32,
                split_end: (-1int) as i32,
                parent: None,
            }),
    {
        PartitionLocationWithSplit { location, split_start: -1, split_end: -1, parent: None }
    }

    /// Create with explicit split range.
    pub fn with_split_range(location: PartitionLocation, split_start: i32, split_end: i32) -> (r: Self)
        ensures
            r == (PartitionLocationWithSplit { location, split_start, split_end, parent: None }),
    {
        PartitionLocationWithSplit { location, split_start, split_end, parent: None }
    }

    /// Get the split range string.
    pub fn get_split_range(&self) -> (r: String)
        ensures
            r@ == range_text(self.location.id, self.split_start, self.split_end),
    {
        format_range(self.location.id, self.split_start, self.split_end)
    }

    /// Set the split range.
    pub fn set_split_range(&mut self, split_start: i32, split_end: i32)
        ensures
            *final(self) == (PartitionLocationWithSplit { split_start, split_end, ..*old(self) }),
    {
        self.split_start = split_start;
        self.split_end = split_end;
    }
}

impl Clone for PartitionLocationWithSplit {
    fn clone(&self) -> (r: Self)
        ensures
            r.model() == self.model(),
        decreases self,
    {
        let parent: Option<Box<PartitionLocationWithSplit>> = match &self.parent {
            Some(p) => Some(Box::new((&**p).clone())),
            None => None,
        };
        PartitionLocationWithSplit {
            location: self.location.clone(),
            split_start: self.split_start,
            split_end: self.split_end,
            parent,
        }
    }
}

/// Request to change partition location (due to split or failure).
pub struct ChangePartitionRequest {
    /// Shuffle ID
    pub shuffle_id: i32,
    /// Partition ID
    pub partition_id: i32,
    /// Current epoch
    pub epoch: i32,
    /// Old partition location
    pub old_partition: Option<PartitionLocationWithSplit>,
    /// Cause of the change request
    pub cause: Option<SplitStatus>,
    /// Number by which the caller finds whom to answer
    pub reply_to: u64,
}

/// The split range that a request is about: that of the old location, else the number of
/// the partition.
pub open spec fn request_range(r: ChangePartitionRequest) -> Seq<char> {
    match r.old_partition {
        Some(p) => range_text(p.location.id, p.split_start, p.split_end),
        None => text::int_text(r.partition_id as int),
    }
}

/// Entry for a single partition's location management.
pub struct PartitionLocationEntry {
    /// Current epoch
    pub current_epoch: i32,
    /// All locations for this partition (epoch -> location)
    pub locations: HashMap<i32, PartitionLocationWithSplit>,
    /// Child locations (for split partitions)
    pub children: Vec<PartitionLocationWithSplit>,
}

/// What a `PartitionLocationEntry` says.
#[verifier::ext_equal]
pub struct EntryModel {
    pub current_epoch: i32,
    pub locations: Map<i32, SplitModel>,
    pub children: Seq<SplitModel>,
}

/// An entry without a location.
pub open spec fn empty_entry() -> EntryModel {
    EntryModel {
        current_epoch: 0,
        locations: Map::<i32, SplitModel>::empty(),
        children: Seq::<SplitModel>::empty(),
    }
}

/// The location of an epoch.
pub open spec fn at_epoch(e: EntryModel, epoch: i32) -> Option<SplitModel> {
    if e.locations.dom().contains(epoch) {
        Some(e.locations[epoch])
    } else {
        None
    }
}

/// An entry after a location was added. The current epoch never goes back.
pub open spec fn with_epoch(e: EntryModel, loc: SplitModel) -> EntryModel {
    EntryModel {
        current_epoch: if loc.location.epoch > e.current_epoch {
            loc.location.epoch
        } else {
            e.current_epoch
        },
        locations: e.locations.insert(loc.location.epoch, loc),
        ..e
    }
}

/// A location that is added with at least the current epoch becomes the latest one; one with
/// an epoch below it does not replace the latest. The current epoch never goes back.
pub proof fn law_latest_epoch_wins(e: EntryModel, loc: SplitModel)
    ensures
        with_epoch(e, loc).current_epoch >= e.current_epoch,
        with_epoch(e, loc).current_epoch >= loc.location.epoch,
        loc.location.epoch >= e.current_epoch ==> at_epoch(
            with_epoch(e, loc),
            with_epoch(e, loc).current_epoch,
        ) == Some(loc),
        loc.location.epoch < e.current_epoch ==> at_epoch(
            with_epoch(e, loc),
            with_epoch(e, loc).current_epoch,
        ) == at_epoch(e, e.current_epoch),
{
}

/// What a map of locations says.
pub open spec fn epoch_models(m: Map<i32, PartitionLocationWithSplit>) -> Map<i32, SplitModel> {
    Map::new(|k: i32| m.dom().contains(k), |k: i32| m[k].model())
}

impl PartitionLocationEntry {
    /// What the entry says.
    pub open spec fn model(&self) -> EntryModel {
        EntryModel {
            current_epoch: self.current_epoch,
            locations: epoch_models(self.locations@),
            children: Seq::new(self.children@.len(), |i: int| self.children@[i].model()),
        }
    }

    /// An entry without a location.
    pub fn new() -> (r: Self)
        ensures
            r.model() == empty_entry(),
    {
        let r: PartitionLocationEntry = PartitionLocationEntry {
            current_epoch: 0,
            locations: HashMap::new(),
            children: Vec::new(),
        };
        assert(r.model() =~= empty_entry());
        r
    }

    /// Get the latest partition location.
    pub fn get_latest(&self) -> (r: Option<PartitionLocationWithSplit>)
        ensures
            optional(r) == at_epoch(self.model(), self.current_epoch),
    {
        self.get_by_epoch(self.current_epoch)
    }

    /// Get location for a specific epoch.
    pub fn get_by_epoch(&self, epoch: i32) -> (r: Option<PartitionLocationWithSplit>)
        ensures
            optional(r) == at_epoch(self.model(), epoch),
    {
        match self.locations.get(&epoch) {
            Some(l) => Some(l.clone()),
            None => None,
        }
    }

    /// Add a new location.
    pub fn add_location(&mut self, location: PartitionLocationWithSplit)
        ensures
            final(self).model() == with_epoch(old(self).model(), location.model()),
    {
        let epoch: i32 = location.location.epoch;
        let ghost m = location.model();
        self.locations.insert(epoch, location);
        if epoch > self.current_epoch {
            self.current_epoch = epoch;
        }
        proof {
            assert(self.model().locations =~= old(self).model().locations.insert(epoch, m));
            assert(self.model() =~= with_epoch(old(self).model(), m));
        }
    }

    /// Check if a newer partition exists.
    pub fn has_newer_partition(&self, epoch: i32) -> (r: bool)
        ensures
            r == (self.current_epoch > epoch),
    {
        self.current_epoch > epoch
    }

    /// Add a child location (for split partitions).
    pub fn add_child(&mut self, child: PartitionLocationWithSplit)
        ensures
            final(self).model() == (EntryModel {
                children: old(self).model().children.push(child.model()),
                ..old(self).model()
            }),
    {
        self.children.push(child);
        assert(self.model().children =~= old(self).model().children.push(child.model()));
    }

    /// Get a child location: the first one.
    pub fn get_random_child(&self) -> (r: Option<PartitionLocationWithSplit>)
        ensures
            optional(r) == if self.children@.len() == 0 {
                None::<SplitModel>
            } else {
                Some(self.children@[0].model())
            },
    {
        if self.children.len() == 0 {
            None
        } else {
            Some(self.children[0].clone())
        }
    }
}

/// What an optional location says.
pub open spec fn optional(l: Option<PartitionLocationWithSplit>) -> Option<SplitModel> {
    match l {
        Some(p) => Some(p.model()),
        None => None,
    }
}

/// The requests of one split range that are handled together.
pub struct PendingBatch {
    pub split_range: String,
    pub requests: Vec<ChangePartitionRequest>,
}

/// What is asked for a new location: the request with the highest epoch.
pub struct Allocation {
    pub shuffle_id: i32,
    pub partition_id: i32,
    pub epoch: i32,
    pub old_partition: Option<PartitionLocationWithSplit>,
}

/// The answer to a request.
pub struct ChangeReply {
    pub reply_to: u64,
    pub outcome: Result<PartitionLocationWithSplit>,
}

/// Where the request with the highest epoch stands; the last of them where several have it.
pub open spec fn newest(s: Seq<ChangePartitionRequest>) -> int
    decreases s.len(),
{
    if s.len() <= 1 {
        0
    } else {
        let i = newest(s.drop_last());
        if s.last().epoch >= s[i].epoch {
            s.len() - 1
        } else {
            i
        }
    }
}

proof fn lemma_newest(s: Seq<ChangePartitionRequest>)
    requires
        s.len() > 0,
    ensures
        0 <= newest(s) < s.len(),
    decreases s.len(),
{
    if s.len() > 1 {
        lemma_newest(s.drop_last());
    }
}

/// No request has a higher epoch than the one that is chosen.
pub proof fn law_newest_has_highest_epoch(s: Seq<ChangePartitionRequest>, k: int)
    requires
        0 <= k < s.len(),
    ensures
        0 <= newest(s) < s.len(),
        s[k].epoch <= s[newest(s)].epoch,
    decreases s.len(),
{
    lemma_newest(s);
    if s.len() > 1 {
        lemma_newest(s.drop_last());
        if k < s.len() - 1 {
            law_newest_has_highest_epoch(s.drop_last(), k);
        }
    }
}

/// How a split is handled.
pub enum SplitTurn {
    /// A newer location is known already
    Known(Option<PartitionLocationWithSplit>),
    /// Hand the request in; the push goes on with the location that it has
    Request(ChangePartitionRequest),
    /// Hand the request in, and wait for the new location
    RequestAndWait(ChangePartitionRequest),
}

/// Manages partition locations and handles split operations.
pub struct PartitionLocationManager {
    /// Shuffle ID -> (Partition ID -> PartitionLocationManager entry)
    pub partition_locations: HashMap<i32, HashMap<i32, PartitionLocationEntry>>,
    /// Pending change partition requests
    /// shuffleId -> (splitRange -> set of requests)
    pub pending_requests: HashMap<i32, StringMap<Vec<ChangePartitionRequest>>>,
    /// Partitions currently being processed
    pub in_batch_partitions: HashMap<i32, StringMap<()>>,
    /// Whether batch handling is enabled
    pub batch_handle_enabled: bool,
    /// Batch handle interval in milliseconds
    pub batch_handle_interval_ms: u64,
}

/// What a `PartitionLocationManager` says.
#[verifier::ext_equal]
pub struct ManagerModel {
    pub locations: Map<i32, Map<i32, EntryModel>>,
    pub pending: Map<i32, Map<Seq<char>, Vec<ChangePartitionRequest>>>,
    pub in_batch: Map<i32, Set<Seq<char>>>,
}

/// What a map of entries says.
pub open spec fn entry_models(m: Map<i32, PartitionLocationEntry>) -> Map<i32, EntryModel> {
    Map::new(|k: i32| m.dom().contains(k), |k: i32| m[k].model())
}

/// The entries of a shuffle; none where it is unknown.
pub open spec fn partitions(m: ManagerModel, shuffle_id: i32) -> Map<i32, EntryModel> {
    if m.locations.dom().contains(shuffle_id) {
        m.locations[shuffle_id]
    } else {
        Map::<i32, EntryModel>::empty()
    }
}

/// The entry of a partition; an empty one where it is unknown.
pub open spec fn entry_of(m: ManagerModel, shuffle_id: i32, partition_id: i32) -> EntryModel {
    if partitions(m, shuffle_id).dom().contains(partition_id) {
        partitions(m, shuffle_id)[partition_id]
    } else {
        empty_entry()
    }
}

/// The latest location of a partition.
pub open spec fn latest(m: ManagerModel, shuffle_id: i32, partition_id: i32) -> Option<SplitModel> {
    let e = entry_of(m, shuffle_id, partition_id);
    at_epoch(e, e.current_epoch)
}

/// Whether a location newer than `epoch` is known.
pub open spec fn is_newer(m: ManagerModel, shuffle_id: i32, partition_id: i32, epoch: i32) -> bool {
    partitions(m, shuffle_id).dom().contains(partition_id) && partitions(
        m,
        shuffle_id,
    )[partition_id].current_epoch > epoch
}

/// A shuffle is known after its registration, with what was known of it before.
pub open spec fn with_shuffle(m: ManagerModel, shuffle_id: i32) -> ManagerModel {
    ManagerModel {
        locations: if m.locations.dom().contains(shuffle_id) {
            m.locations
        } else {
            m.locations.insert(shuffle_id, Map::<i32, EntryModel>::empty())
        },
        pending: if m.pending.dom().contains(shuffle_id) {
            m.pending
        } else {
            m.pending.insert(shuffle_id, Map::<Seq<char>, Vec<ChangePartitionRequest>>::empty())
        },
        in_batch: if m.in_batch.dom().contains(shuffle_id) {
            m.in_batch
        } else {
            m.in_batch.insert(shuffle_id, Set::<Seq<char>>::empty())
        },
    }
}

/// Nothing is known of a shuffle after its removal.
pub open spec fn without_shuffle(m: ManagerModel, shuffle_id: i32) -> ManagerModel {
    ManagerModel {
        locations: m.locations.remove(shuffle_id),
        pending: m.pending.remove(shuffle_id),
        in_batch: m.in_batch.remove(shuffle_id),
    }
}

/// The manager after a location was added or updated.
pub open spec fn with_split_location(m: ManagerModel, shuffle_id: i32, loc: SplitModel) -> ManagerModel {
    ManagerModel {
        locations: m.locations.insert(
            shuffle_id,
            partitions(m, shuffle_id).insert(
                loc.location.id,
                with_epoch(entry_of(m, shuffle_id, loc.location.id), loc),
            ),
        ),
        ..m
    }
}

/// A location that was added is found under its epoch; the locations of the other
/// partitions stay.
pub proof fn law_added_location_is_known(m: ManagerModel, shuffle_id: i32, loc: SplitModel)
    ensures
        at_epoch(
            entry_of(with_split_location(m, shuffle_id, loc), shuffle_id, loc.location.id),
            loc.location.epoch,
        ) == Some(loc),
        forall|s: i32, p: i32|
            s != shuffle_id || p != loc.location.id ==> #[trigger] entry_of(
                with_split_location(m, shuffle_id, loc),
                s,
                p,
            ) == entry_of(m, s, p),
{
}

/// A new location answers every split that is reported with an older epoch: a newer location is
/// known from then on, and it is the new one unless a later one is known already.
pub proof fn law_new_location_answers_older_epochs(
    m: ManagerModel,
    shuffle_id: i32,
    loc: SplitModel,
    epoch: i32,
)
    requires
        epoch < loc.location.epoch,
    ensures
        is_newer(with_split_location(m, shuffle_id, loc), shuffle_id, loc.location.id, epoch),
        entry_of(m, shuffle_id, loc.location.id).current_epoch <= loc.location.epoch ==> latest(
            with_split_location(m, shuffle_id, loc),
            shuffle_id,
            loc.location.id,
        ) == Some(loc),
{
}

/// No location of a shuffle is known after its removal.
pub proof fn law_removed_shuffle_is_unknown(m: ManagerModel, shuffle_id: i32, partition_id: i32)
    ensures
        latest(without_shuffle(m, shuffle_id), shuffle_id, partition_id) is None,
        !is_newer(without_shuffle(m, shuffle_id), shuffle_id, partition_id, i32::MIN),
{
}

/// The pending requests of a shuffle.
pub open spec fn pending_of(m: ManagerModel, shuffle_id: i32) -> Map<
    Seq<char>,
    Vec<ChangePartitionRequest>,
> {
    if m.pending.dom().contains(shuffle_id) {
        m.pending[shuffle_id]
    } else {
        Map::<Seq<char>, Vec<ChangePartitionRequest>>::empty()
    }
}

/// The split ranges of a shuffle that are being handled.
pub open spec fn in_batch_of(m: ManagerModel, shuffle_id: i32) -> Set<Seq<char>> {
    if m.in_batch.dom().contains(shuffle_id) {
        m.in_batch[shuffle_id]
    } else {
        Set::<Seq<char>>::empty()
    }
}

/// The split ranges of a shuffle that are pending and not being handled.
pub open spec fn ready(m: ManagerModel, shuffle_id: i32) -> Set<Seq<char>> {
    pending_of(m, shuffle_id).dom().difference(in_batch_of(m, shuffle_id))
}

/// Whether the batches hold the pending requests of each of the split ranges once.
pub open spec fn batches_of(
    batches: Seq<PendingBatch>,
    pending: Map<Seq<char>, Vec<ChangePartitionRequest>>,
    ranges: Set<Seq<char>>,
) -> bool {
    &&& forall|i: int|
        0 <= i < batches.len() ==> ranges.contains((#[trigger] batches[i]).split_range@)
            && batches[i].requests == pending[batches[i].split_range@]
    &&& forall|i: int, j: int|
        #![trigger batches[i], batches[j]]
        0 <= i < j < batches.len() ==> batches[i].split_range@ != batches[j].split_range@
    &&& forall|k: Seq<char>| #[trigger]
        ranges.contains(k) ==> exists|i: int|
            0 <= i < batches.len() && (#[trigger] batches[i]).split_range@ == k
}

/// The manager after the ready requests of a shuffle were taken for handling.
pub open spec fn batches_taken(m: ManagerModel, shuffle_id: i32) -> ManagerModel {
    if m.pending.dom().contains(shuffle_id) {
        ManagerModel {
            pending: m.pending.insert(
                shuffle_id,
                m.pending[shuffle_id].remove_keys(ready(m, shuffle_id)),
            ),
            in_batch: m.in_batch.insert(
                shuffle_id,
                in_batch_of(m, shuffle_id).union(ready(m, shuffle_id)),
            ),
            ..m
        }
    } else {
        m
    }
}

/// The manager after a request was added to the pending ones.
pub open spec fn request_added(m: ManagerModel, r: ChangePartitionRequest, list: Vec<
    ChangePartitionRequest,
>) -> ManagerModel {
    ManagerModel {
        pending: m.pending.insert(
            r.shuffle_id,
            pending_of(m, r.shuffle_id).insert(request_range(r), list),
        ),
        ..m
    }
}

/// The manager after a batch was handled.
pub open spec fn batch_finished(m: ManagerModel, shuffle_id: i32, range: Seq<char>) -> ManagerModel {
    if m.in_batch.dom().contains(shuffle_id) {
        ManagerModel {
            in_batch: m.in_batch.insert(shuffle_id, m.in_batch[shuffle_id].remove(range)),
            ..m
        }
    } else {
        m
    }
}

/// Whether an answer tells a request what came of the allocation.
pub open spec fn tells(
    reply: ChangeReply,
    request: ChangePartitionRequest,
    outcome: Result<PartitionLocationWithSplit>,
) -> bool {
    &&& reply.reply_to == request.reply_to
    &&& match outcome {
        Ok(loc) => reply.outcome matches Ok(l) && l.model() == loc.model(),
        Err(e) => reply.outcome matches Err(CelebornError::Internal(m)) && m@
            == "Failed to allocate new partition location: "@ + error::error_text(e),
    }
}

/// A split range is not handled twice at a time: none is ready right after the ready ones
/// were taken. What is not taken stays pending.
pub proof fn law_range_is_handled_once(m: ManagerModel, shuffle_id: i32, range: Seq<char>)
    ensures
        !ready(batches_taken(m, shuffle_id), shuffle_id).contains(range),
        pending_of(m, shuffle_id).dom().contains(range) ==> (ready(m, shuffle_id).contains(range)
            || pending_of(batches_taken(m, shuffle_id), shuffle_id).dom().contains(range)),
{
}

/// Requests that came in while their split range was handled are ready once that has ended.
pub proof fn law_finished_range_is_ready_again(m: ManagerModel, shuffle_id: i32, range: Seq<char>)
    ensures
        ready(batch_finished(m, shuffle_id, range), shuffle_id).contains(range) == pending_of(
            m,
            shuffle_id,
        ).dom().contains(range),
        forall|other: Seq<char>|
            other != range ==> #[trigger] ready(
                batch_finished(m, shuffle_id, range),
                shuffle_id,
            ).contains(other) == ready(m, shuffle_id).contains(other),
{
}

impl PartitionLocationManager {
    /// No split range occurs twice in a shuffle.
    pub open spec fn wf(&self) -> bool {
        &&& forall|id: i32| #[trigger]
            self.pending_requests@.dom().contains(id) ==> self.pending_requests@[id].wf()
        &&& forall|id: i32| #[trigger]
            self.in_batch_partitions@.dom().contains(id) ==> self.in_batch_partitions@[id].wf()
    }

    /// What the manager says.
    pub open spec fn model(&self) -> ManagerModel {
        ManagerModel {
            locations: Map::new(
                |id: i32| self.partition_locations@.dom().contains(id),
                |id: i32| entry_models(self.partition_locations@[id]@),
            ),
            pending: Map::new(
                |id: i32| self.pending_requests@.dom().contains(id),
                |id: i32| self.pending_requests@[id]@,
            ),
            in_batch: Map::new(
                |id: i32| self.in_batch_partitions@.dom().contains(id),
                |id: i32| self.in_batch_partitions@[id]@.dom(),
            ),
        }
    }

    /// Whether the settings are those of `other`.
    pub open spec fn same_settings(&self, other: &PartitionLocationManager) -> bool {
        self.batch_handle_enabled == other.batch_handle_enabled && self.batch_handle_interval_ms
            == other.batch_handle_interval_ms
    }

    /// Create a new partition location manager.
    pub fn new(batch_handle_enabled: bool, batch_handle_interval_ms: u64) -> (r: Self)
        ensures
            r.wf(),
            r.model() == (ManagerModel {
                locations: Map::empty(),
                pending: Map::empty(),
                in_batch: Map::empty(),
            }),
            r.batch_handle_enabled == batch_handle_enabled,
            r.batch_handle_interval_ms == batch_handle_interval_ms,
    {
        let r: PartitionLocationManager = PartitionLocationManager {
            partition_locations: HashMap::new(),
            pending_requests: HashMap::new(),
            in_batch_partitions: HashMap::new(),
            batch_handle_enabled,
            batch_handle_interval_ms,
        };
        assert(r.model() =~= (ManagerModel {
            locations: Map::empty(),
            pending: Map::empty(),
            in_batch: Map::empty(),
        }));
        r
    }

    /// Register a shuffle.
    pub fn register_shuffle(&mut self, shuffle_id: i32)
        requires
            old(self).wf(),
        ensures
            final(self).wf(),
            final(self).same_settings(old(self)),
            final(self).model() == with_shuffle(old(self).model(), shuffle_id),
    {
        let ghost start = self.model();
        if !self.partition_locations.contains_key(&shuffle_id) {
            let fresh: HashMap<i32, PartitionLocationEntry> = HashMap::new();
            assert(entry_models(fresh@) =~= Map::<i32, EntryModel>::empty());
            self.partition_locations.insert(shuffle_id, fresh);
        }
        assert(self.model().locations =~= with_shuffle(start, shuffle_id).locations);
        if !self.pending_requests.contains_key(&shuffle_id) {
            self.pending_requests.insert(shuffle_id, StringMap::new());
        }
        assert(self.model().pending =~= with_shuffle(start, shuffle_id).pending);
        if !self.in_batch_partitions.contains_key(&shuffle_id) {
            let fresh: StringMap<()> = StringMap::new();
            assert(fresh@.dom() =~= Set::<Seq<char>>::empty());
            self.in_batch_partitions.insert(shuffle_id, fresh);
        }
        assert(self.model().in_batch =~= with_shuffle(start, shuffle_id).in_batch);
    }

    /// Unregister a shuffle.
    pub fn unregister_shuffle(&mut self, shuffle_id: i32)
        requires
            old(self).wf(),
        ensures
            final(self).wf(),
            final(self).same_settings(old(self)),
            final(self).model() == without_shuffle(old(self).model(), shuffle_id),
    {
        self.partition_locations.remove(&shuffle_id);
        self.pending_requests.remove(&shuffle_id);
        self.in_batch_partitions.remove(&shuffle_id);
        assert(self.model() =~= without_shuffle(old(self).model(), shuffle_id));
    }

    /// Add or update a partition location.
    pub fn update_partition_location(&mut self, shuffle_id: i32, location: PartitionLocationWithSplit)
        requires
            old(self).wf(),
        ensures
            final(self).wf(),
            final(self).same_settings(old(self)),
            final(self).model() == with_split_location(
                old(self).model(),
                shuffle_id,
                location.model(),
            ),
    {
        let ghost start = self.model();
        let ghost loc = location.model();
        let partition_id: i32 = location.location.id;
        let mut entries: HashMap<i32, PartitionLocationEntry> = match self.partition_locations.remove(
            &shuffle_id,
        ) {
            Some(m) => m,
            None => HashMap::new(),
        };
        let ghost before = entries@;
        assert(entry_models(before) =~= partitions(start, shuffle_id));
        let mut entry: PartitionLocationEntry = match entries.remove(&partition_id) {
            Some(e) => e,
            None => PartitionLocationEntry::new(),
        };
        assert(entry.model() == entry_of(start, shuffle_id, partition_id));
        entry.add_location(location);
        let ghost stored = entry.model();
        entries.insert(partition_id, entry);
        assert(entry_models(entries@) =~= entry_models(before).insert(partition_id, stored));
        let ghost all = entry_models(entries@);
        self.partition_locations.insert(shuffle_id, entries);
        assert(self.model().locations =~= start.locations.insert(shuffle_id, all));
        assert(self.model() =~= with_split_location(start, shuffle_id, loc));
    }

    /// Get the latest partition location.
    pub fn get_latest_location(&self, shuffle_id: i32, partition_id: i32) -> (r: Option<
        PartitionLocationWithSplit,
    >)
        ensures
            optional(r) == latest(self.model(), shuffle_id, partition_id),
    {
        match self.partition_locations.get(&shuffle_id) {
            Some(m) => match m.get(&partition_id) {
                Some(e) => e.get_latest(),
                None => None,
            },
            None => None,
        }
    }

    /// Get partition location by epoch.
    pub fn get_location_by_epoch(&self, shuffle_id: i32, partition_id: i32, epoch: i32) -> (r: Option<
        PartitionLocationWithSplit,
    >)
        ensures
            optional(r) == at_epoch(entry_of(self.model(), shuffle_id, partition_id), epoch),
    {
        match self.partition_locations.get(&shuffle_id) {
            Some(m) => match m.get(&partition_id) {
                Some(e) => e.get_by_epoch(epoch),
                None => None,
            },
            None => None,
        }
    }

    /// Check if a newer partition location exists.
    pub fn has_newer_partition(&self, shuffle_id: i32, partition_id: i32, epoch: i32) -> (r: bool)
        ensures
            r == is_newer(self.model(), shuffle_id, partition_id, epoch),
    {
        match self.partition_locations.get(&shuffle_id) {
            Some(m) => match m.get(&partition_id) {
                Some(e) => e.has_newer_partition(epoch),
                None => false,
            },
            None => false,
        }
    }

    /// How a split is handled: by the location that is known already, or by asking for one.
    pub open spec fn handles(
        &self,
        shuffle_id: i32,
        partition_id: i32,
        epoch: i32,
        old_location: Option<PartitionLocationWithSplit>,
        split_status: SplitStatus,
        reply_to: u64,
        r: SplitTurn,
    ) -> bool {
        if is_newer(self.model(), shuffle_id, partition_id, epoch) {
            r matches SplitTurn::Known(l) && optional(l) == latest(
                self.model(),
                shuffle_id,
                partition_id,
            )
        } else {
            let request = ChangePartitionRequest {
                shuffle_id,
                partition_id,
                epoch,
                old_partition: old_location,
                cause: Some(split_status),
                reply_to,
            };
            match split_status {
                SplitStatus::SoftSplit => r == SplitTurn::Request(request),
                SplitStatus::HardSplit => r == SplitTurn::RequestAndWait(request),
            }
        }
    }

    /// Handle a split response from worker.
    ///
    /// This is called when a push operation receives a SOFT_SPLIT or HARD_SPLIT response.
    pub fn handle_split(
        &self,
        shuffle_id: i32,
        partition_id: i32,
        epoch: i32,
        old_location: Option<PartitionLocationWithSplit>,
        split_status: SplitStatus,
        reply_to: u64,
    ) -> (r: SplitTurn)
        ensures
            self.handles(shuffle_id, partition_id, epoch, old_location, split_status, reply_to, r),
    {
        if self.has_newer_partition(shuffle_id, partition_id, epoch) {
            return SplitTurn::Known(self.get_latest_location(shuffle_id, partition_id));
        }
        let request: ChangePartitionRequest = ChangePartitionRequest {
            shuffle_id,
            partition_id,
            epoch,
            old_partition: old_location,
            cause: Some(split_status),
            reply_to,
        };
        match split_status {
            SplitStatus::SoftSplit => SplitTurn::Request(request),
            SplitStatus::HardSplit => SplitTurn::RequestAndWait(request),
        }
    }

    /// Takes the pending requests of a shuffle for handling, split range by split range,
    /// but for those ranges that are being handled already.
    ///
    /// This should be called periodically when batch handling is enabled,
    /// or immediately when batch handling is disabled.
    pub fn process_pending_requests(&mut self, shuffle_id: i32) -> (r: Vec<PendingBatch>)
        requires
            old(self).wf(),
        ensures
            final(self).wf(),
            final(self).same_settings(old(self)),
            final(self).model() == batches_taken(old(self).model(), shuffle_id),
            batches_of(
                r@,
                pending_of(old(self).model(), shuffle_id),
                ready(old(self).model(), shuffle_id),
            ),
    {
        let ghost start = self.model();
        match self.pending_requests.remove(&shuffle_id) {
            Some(requests) => {
                let mut in_batch: StringMap<()> = match self.in_batch_partitions.remove(&shuffle_id) {
                    Some(b) => b,
                    None => StringMap::new(),
                };
                let ghost pending0 = requests@;
                let ghost busy = in_batch@.dom();
                proof {
                    assert(pending0 == pending_of(start, shuffle_id));
                    assert(busy =~= in_batch_of(start, shuffle_id));
                }
                let ghost all = requests;
                let ghost n = requests.entries@.len() as int;
                let mut requests: StringMap<Vec<ChangePartitionRequest>> = requests;
                let mut kept: StringMap<Vec<ChangePartitionRequest>> = StringMap::new();
                let mut out: Vec<PendingBatch> = Vec::new();
                while requests.entries.len() > 0
                    invariant
                        all.wf(),
                        all@ == pending0,
                        n == all.entries@.len(),
                        requests.entries@.len() <= n,
                        requests.entries@ == all.entries@.take(requests.entries@.len() as int),
                        kept.wf(),
                        in_batch.wf(),
                        forall|k: Seq<char>| #[trigger]
                            kept@.dom().contains(k) == (busy.contains(k) && handled(
                                all.entries@,
                                requests.entries@.len() as int,
                                k,
                            )),
                        forall|k: Seq<char>| #[trigger]
                            kept@.dom().contains(k) ==> kept@[k] == pending0[k],
                        forall|k: Seq<char>| #[trigger]
                            in_batch@.dom().contains(k) == (busy.contains(k) || handled(
                                all.entries@,
                                requests.entries@.len() as int,
                                k,
                            )),
                        forall|i: int|
                            0 <= i < out@.len() ==> !busy.contains((#[trigger] out@[i]).split_range@)
                                && handled(
                                all.entries@,
                                requests.entries@.len() as int,
                                out@[i].split_range@,
                            ) && out@[i].requests == pending0[out@[i].split_range@],
                        forall|i: int, j: int|
                            #![trigger out@[i], out@[j]]
                            0 <= i < j < out@.len() ==> out@[i].split_range@ != out@[j].split_range@,
                        forall|k: Seq<char>| #[trigger]
                            handled(all.entries@, requests.entries@.len() as int, k) && !busy.contains(
                                k,
                            ) ==> exists|i: int|
                                0 <= i < out@.len() && (#[trigger] out@[i]).split_range@ == k,
                    decreases requests.entries@.len(),
                {
                    let ghost at = requests.entries@.len() - 1;
                    let last: Option<(String, Vec<ChangePartitionRequest>)> = requests.entries.pop();
                    match last {
                        Some((key, list)) => {
                            let ghost k0 = key@;
                            let ghost in0 = in_batch@;
                            let ghost kept0 = kept@;
                            let ghost out0 = out@;
                            proof {
                                all.lemma_entry(at);
                                assert(all.entries@[at].0@ == k0);
                                lemma_handled(all.entries@, at, k0);
                                assert forall|i: int| at + 1 <= i < n implies (
                                #[trigger] all.entries@[i]).0@ != k0 by {
                                    assert(all.entries@[at].0@ == k0);
                                }
                                assert(!handled(all.entries@, at + 1, k0));
                            }
                            if in_batch.contains_key(key.as_str()) {
                                assert(busy.contains(k0));
                                kept.insert(key, list);
                            } else {
                                in_batch.insert(key.clone(), ());
                                out.push(PendingBatch { split_range: key, requests: list });
                                proof {
                                    assert(out@[out0.len() as int].split_range@ == k0);
                                    assert forall|k: Seq<char>| #[trigger]
                                        handled(all.entries@, at, k) && !busy.contains(k) implies exists|
                                        i: int,
                                    |
                                        0 <= i < out@.len() && (#[trigger] out@[i]).split_range@ == k by {
                                        if k != k0 {
                                            assert(handled(all.entries@, at + 1, k));
                                            let i = choose|i: int|
                                                0 <= i < out0.len() && (
                                                #[trigger] out0[i]).split_range@ == k;
                                            assert(out@[i] == out0[i]);
                                        }
                                    }
                                }
                            }
                        },
                        None => {},
                    }
                }
                proof {
                    assert forall|k: Seq<char>| #[trigger]
                        handled(all.entries@, 0, k) == pending0.dom().contains(k) by {
                        if handled(all.entries@, 0, k) {
                            let i = choose|i: int|
                                0 <= i < n && (#[trigger] all.entries@[i]).0@ == k;
                            all.lemma_entry(i);
                        }
                        if pending0.dom().contains(k) {
                            let i = string_map::index_of_key(all.entries@, k);
                            assert(string_map::key_at(all.entries@, i, k));
                            assert(all.entries@[i].0@ == k);
                        }
                    }
                    assert(kept@ =~= pending0.remove_keys(ready(start, shuffle_id)));
                    assert(in_batch@.dom() =~= busy.union(ready(start, shuffle_id)));
                    assert forall|k: Seq<char>| #[trigger]
                        ready(start, shuffle_id).contains(k) implies exists|i: int|
                        0 <= i < out@.len() && (#[trigger] out@[i]).split_range@ == k by {
                        assert(handled(all.entries@, 0, k));
                    }
                    assert(batches_of(out@, pending0, ready(start, shuffle_id)));
                }
                let ghost kept1 = kept@;
                let ghost in1 = in_batch@.dom();
                self.pending_requests.insert(shuffle_id, kept);
                self.in_batch_partitions.insert(shuffle_id, in_batch);
                proof {
                    assert(self.model().pending =~= start.pending.insert(shuffle_id, kept1));
                    assert(self.model().in_batch =~= start.in_batch.insert(shuffle_id, in1));
                    assert(self.model().locations =~= start.locations);
                    assert(self.model() =~= batches_taken(start, shuffle_id));
                }
                out
            },
            None => {
                assert(self.model() =~= start);
                Vec::new()
            },
        }
    }

    /// The location that is to be allocated for a batch of requests.
    pub open spec fn allocates(batch: &PendingBatch, r: Option<Allocation>) -> bool {
        if batch.requests@.len() == 0 {
            r is None
        } else {
            let q = batch.requests@[newest(batch.requests@)];
            &&& r matches Some(a)
            &&& a.shuffle_id == q.shuffle_id
            &&& a.partition_id == q.partition_id
            &&& a.epoch == q.epoch
            &&& optional(a.old_partition) == optional(q.old_partition)
        }
    }

    /// What is to be allocated for a batch; nothing for one without requests.
    pub fn allocation(batch: &PendingBatch) -> (r: Option<Allocation>)
        ensures
            Self::allocates(batch, r),
    {
        let requests: &Vec<ChangePartitionRequest> = &batch.requests;
        let n: usize = requests.len();
        if n == 0 {
            return None;
        }
        let mut best: usize = 0;
        let mut i: usize = 1;
        assert(requests@.take(1).len() == 1);
        while i < n
            invariant
                n == requests@.len(),
                1 <= i <= n,
                best < i,
                best == newest(requests@.take(i as int)),
            decreases n - i,
        {
            proof {
                let t = requests@.take(i + 1);
                assert(t.drop_last() =~= requests@.take(i as int));
                assert(t.last() == requests@[i as int]);
                assert(t[best as int] == requests@[best as int]);
            }
            if requests[i].epoch >= requests[best].epoch {
                best = i;
            }
            i += 1;
        }
        assert(requests@.take(n as int) =~= requests@);
        let q: &ChangePartitionRequest = &requests[best];
        let old_partition: Option<PartitionLocationWithSplit> = match &q.old_partition {
            Some(p) => Some(p.clone()),
            None => None,
        };
        Some(
            Allocation {
                shuffle_id: q.shuffle_id,
                partition_id: q.partition_id,
                epoch: q.epoch,
                old_partition,
            },
        )
    }

    /// What is left, and who is told what, once a location was allocated.
    pub open spec fn settles(
        &self,
        after: &PartitionLocationManager,
        shuffle_id: i32,
        batch: &PendingBatch,
        outcome: Result<PartitionLocationWithSplit>,
        r: Vec<ChangeReply>,
    ) -> bool {
        &&& after.model() == batch_finished(
            match outcome {
                Ok(loc) => with_split_location(self.model(), shuffle_id, loc.model()),
                Err(e) => self.model(),
            },
            shuffle_id,
            batch.split_range@,
        )
        &&& r@.len() == batch.requests@.len()
        &&& forall|i: int|
            0 <= i < r@.len() ==> tells(#[trigger] r@[i], batch.requests@[i], outcome)
    }

    /// Takes the outcome of an allocation in: the new location is recorded, every request of
    /// the batch is answered, and the split range can be handled again.
    pub fn allocated(
        &mut self,
        shuffle_id: i32,
        batch: &PendingBatch,
        outcome: Result<PartitionLocationWithSplit>,
    ) -> (r: Vec<ChangeReply>)
        requires
            old(self).wf(),
        ensures
            final(self).wf(),
            final(self).same_settings(old(self)),
            old(self).settles(final(self), shuffle_id, batch, outcome, r),
    {
        match &outcome {
            Ok(new_location) => {
                self.update_partition_location(shuffle_id, new_location.clone());
            },
            Err(_) => {},
        }
        let requests: &Vec<ChangePartitionRequest> = &batch.requests;
        let n: usize = requests.len();
        let mut out: Vec<ChangeReply> = Vec::new();
        let mut i: usize = 0;
        while i < n
            invariant
                n == requests@.len(),
                i <= n,
                out@.len() == i,
                requests@ == batch.requests@,
                forall|j: int| 0 <= j < i ==> tells(#[trigger] out@[j], requests@[j], outcome),
            decreases n - i,
        {
            let told: Result<PartitionLocationWithSplit> = match &outcome {
                Ok(l) => Ok(l.clone()),
                Err(e) => {
                    let why: String = e.to_string();
                    Err(
                        CelebornError::Internal(
                            text::join("Failed to allocate new partition location: ", why.as_str()),
                        ),
                    )
                },
            };
            out.push(ChangeReply { reply_to: requests[i].reply_to, outcome: told });
            i += 1;
        }
        let ghost mid = self.model();
        match self.in_batch_partitions.remove(&shuffle_id) {
            Some(b) => {
                let mut b: StringMap<()> = b;
                let ghost before = b@.dom();
                b.remove(batch.split_range.as_str());
                let ghost after = b@.dom();
                self.in_batch_partitions.insert(shuffle_id, b);
                proof {
                    assert(after =~= before.remove(batch.split_range@));
                    assert(self.model().in_batch =~= mid.in_batch.insert(shuffle_id, after));
                    assert(self.model().locations =~= mid.locations);
                    assert(self.model().pending =~= mid.pending);
                }
            },
            None => {
                assert(self.model() =~= mid);
            },
        }
        out
    }

    /// What is left once a request waits.
    pub open spec fn queues(
        &self,
        after: &PartitionLocationManager,
        request: ChangePartitionRequest,
    ) -> bool {
        exists|list: Vec<ChangePartitionRequest>|
            #![trigger request_added(self.model(), request, list)]
            {
                let pending = pending_of(self.model(), request.shuffle_id);
                &&& after.model() == request_added(self.model(), request, list)
                &&& list@ == (if pending.dom().contains(request_range(request)) {
                    pending[request_range(request)]@
                } else {
                    Seq::<ChangePartitionRequest>::empty()
                }).push(request)
            }
    }

    /// Add a change partition request to pending queue.
    pub fn add_pending_request(&mut self, request: ChangePartitionRequest)
        requires
            old(self).wf(),
        ensures
            final(self).wf(),
            final(self).same_settings(old(self)),
            old(self).queues(final(self), request),
    {
        let ghost start = self.model();
        let ghost q = request;
        let shuffle_id: i32 = request.shuffle_id;
        let split_range: String = match &request.old_partition {
            Some(p) => p.get_split_range(),
            None => {
                let mut t: String = String::new();
                text::append_i64(&mut t, request.partition_id as i64);
                assert(t@ =~= text::int_text(request.partition_id as int));
                t
            },
        };
        let mut requests: StringMap<Vec<ChangePartitionRequest>> = match self.pending_requests.remove(
            &shuffle_id,
        ) {
            Some(m) => m,
            None => StringMap::new(),
        };
        let ghost pending = requests@;
        assert(pending =~= pending_of(start, shuffle_id));
        let mut list: Vec<ChangePartitionRequest> = match requests.remove(split_range.as_str()) {
            Some(l) => l,
            None => Vec::new(),
        };
        list.push(request);
        let ghost stored = list;
        let ghost range = split_range@;
        requests.insert(split_range, list);
        assert(requests@ =~= pending.insert(range, stored));
        let ghost all = requests@;
        self.pending_requests.insert(shuffle_id, requests);
        proof {
            assert(self.model().pending =~= start.pending.insert(shuffle_id, all));
            assert(self.model().locations =~= start.locations);
            assert(self.model().in_batch =~= start.in_batch);
            assert(self.model() =~= request_added(start, q, stored));
        }
    }

    /// The latest location of each partition of a shuffle.
    pub open spec fn lists(
        &self,
        shuffle_id: i32,
        r: HashMap<i32, PartitionLocationWithSplit>,
    ) -> bool {
        epoch_models(r@) == Map::new(
            |id: i32| latest(self.model(), shuffle_id, id) is Some,
            |id: i32| latest(self.model(), shuffle_id, id)->0,
        )
    }

    /// Get all partition locations for a shuffle: the latest one of each partition.
    pub fn get_all_locations(&self, shuffle_id: i32) -> (r: HashMap<i32, PartitionLocationWithSplit>)
        ensures
            self.lists(shuffle_id, r),
    {
        let ghost m = self.model();
        let mut out: HashMap<i32, PartitionLocationWithSplit> = HashMap::new();
        match self.partition_locations.get(&shuffle_id) {
            Some(entries) => {
                let ids: Vec<i32> = locations::keys_of(entries);
                let n: usize = ids.len();
                let mut i: usize = 0;
                assert(entry_models(entries@) == partitions(m, shuffle_id));
                while i < n
                    invariant
                        n == ids@.len(),
                        i <= n,
                        ids@.to_set() == entries@.dom(),
                        entry_models(entries@) == partitions(m, shuffle_id),
                        forall|id: i32| #[trigger]
                            out@.dom().contains(id) == ((exists|j: int| 0 <= j < i && ids@[j] == id)
                                && latest(m, shuffle_id, id) is Some),
                        forall|id: i32| #[trigger]
                            out@.dom().contains(id) ==> Some(out@[id].model()) == latest(
                                m,
                                shuffle_id,
                                id,
                            ),
                    decreases n - i,
                {
                    let id: i32 = ids[i];
                    let ghost out0 = out@;
                    assert(ids@.to_set().contains(id));
                    match entries.get(&id) {
                        Some(e) => {
                            assert(e.model() == entry_of(m, shuffle_id, id));
                            match e.get_latest() {
                                Some(loc) => {
                                    out.insert(id, loc);
                                },
                                None => {},
                            }
                        },
                        None => {},
                    }
                    proof {
                        assert forall|x: i32| #[trigger]
                            out@.dom().contains(x) == ((exists|j: int| 0 <= j < i + 1 && ids@[j] == x)
                                && latest(m, shuffle_id, x) is Some) by {
                            assert(out0.dom().contains(x) == ((exists|j: int|
                                0 <= j < i && ids@[j] == x) && latest(m, shuffle_id, x) is Some));
                            if x == id {
                                assert(ids@[i as int] == x);
                            }
                        }
                    }
                    i += 1;
                }
                proof {
                    assert forall|id: i32| #[trigger]
                        out@.dom().contains(id) == (latest(m, shuffle_id, id) is Some) by {
                        if latest(m, shuffle_id, id) is Some {
                            assert(entries@.dom().contains(id));
                            assert(ids@.to_set().contains(id));
                            let j = choose|j: int| 0 <= j < n && ids@[j] == id;
                            assert(ids@[j] == id);
                        }
                    }
                }
            },
            None => {},
        }
        assert(epoch_models(out@) =~= Map::new(
            |id: i32| latest(m, shuffle_id, id) is Some,
            |id: i32| latest(m, shuffle_id, id)->0,
        ));
        out
    }
}

/// Whether the key is that of an entry from `from` on.
spec fn handled<V>(entries: Seq<(String, V)>, from: int, key: Seq<char>) -> bool {
    exists|i: int| from <= i < entries.len() && (#[trigger] entries[i]).0@ == key
}

proof fn lemma_handled<V>(entries: Seq<(String, V)>, from: int, key: Seq<char>)
    requires
        0 <= from < entries.len(),
        entries[from].0@ == key,
    ensures
        forall|k: Seq<char>| #[trigger]
            handled(entries, from, k) == (k == key || handled(entries, from + 1, k)),
{
    assert forall|k: Seq<char>| #[trigger]
        handled(entries, from, k) == (k == key || handled(entries, from + 1, k)) by {
        if handled(entries, from, k) {
            let i = choose|i: int| from <= i < entries.len() && (#[trigger] entries[i]).0@ == k;
            if i > from {
                assert(entries[i].0@ == k);
            }
        }
    }
}

/// What a push response with some status leads to, where `request` is the change request that
/// it may give rise to. A newer location that is known already is returned for a hard split,
/// none for a soft one.
pub open spec fn answers_push(
    r: Result<SplitTurn>,
    m: ManagerModel,
    request: ChangePartitionRequest,
    response_status: u8,
) -> bool {
    match split_of(response_status) {
        None => r matches Err(CelebornError::Protocol(t)) && t@ == "Unknown split status: "@
            + text::nat_text(response_status as nat),
        Some(status) => {
            &&& r matches Ok(turn)
            &&& if is_newer(m, request.shuffle_id, request.partition_id, request.epoch) {
                turn matches SplitTurn::Known(l) && optional(l) == match status {
                    SplitStatus::SoftSplit => None,
                    SplitStatus::HardSplit => latest(m, request.shuffle_id, request.partition_id),
                }
            } else {
                match status {
                    SplitStatus::SoftSplit => turn == SplitTurn::Request(request),
                    SplitStatus::HardSplit => turn == SplitTurn::RequestAndWait(request),
                }
            }
        },
    }
}

impl PartitionLocationManager {
    /// Handle a push response that indicates split is needed.
    ///
    /// A newer location that is known already is returned for a hard split, none for a soft one.
    pub fn handle_push_response(
        &self,
        shuffle_id: i32,
        partition_id: i32,
        epoch: i32,
        response_status: u8,
        current_location: Option<PartitionLocationWithSplit>,
        reply_to: u64,
    ) -> (r: Result<SplitTurn>)
        ensures
            answers_push(
                r,
                self.model(),
                ChangePartitionRequest {
                    shuffle_id,
                    partition_id,
                    epoch,
                    old_partition: current_location,
                    cause: split_of(response_status),
                    reply_to,
                },
                response_status,
            ),
    {
        match SplitStatus::try_from(response_status) {
            Ok(split_status) => {
                let turn: SplitTurn = self.handle_split(
                    shuffle_id,
                    partition_id,
                    epoch,
                    current_location,
                    split_status,
                    reply_to,
                );
                match (split_status, turn) {
                    (SplitStatus::SoftSplit, SplitTurn::Known(_)) => Ok(SplitTurn::Known(None)),
                    (_, turn) => Ok(turn),
                }
            },
            Err(e) => Err(e),
        }
    }
}

/// Split handler that integrates with the push flow.
pub struct SplitHandler {
    /// Partition location manager
    pub location_manager: PartitionLocationManager,
    /// Maximum number of split retries
    pub max_split_retries: i32,
}

impl SplitHandler {
    /// Create a new split handler.
    pub fn new(location_manager: PartitionLocationManager, max_split_retries: i32) -> (r: Self)
        ensures
            r == (SplitHandler { location_manager, max_split_retries }),
    {
        SplitHandler { location_manager, max_split_retries }
    }

    /// Handle a push response that indicates split is needed.
    ///
    /// A newer location that is known already is returned for a hard split, none for a soft one.
    pub fn handle_push_response(
        &self,
        shuffle_id: i32,
        partition_id: i32,
        epoch: i32,
        response_status: u8,
        current_location: Option<PartitionLocationWithSplit>,
        reply_to: u64,
    ) -> (r: Result<SplitTurn>)
        ensures
            answers_push(
                r,
                self.location_manager.model(),
                ChangePartitionRequest {
                    shuffle_id,
                    partition_id,
                    epoch,
                    old_partition: current_location,
                    cause: split_of(response_status),
                    reply_to,
                },
                response_status,
            ),
    {
        self.location_manager.handle_push_response(
            shuffle_id,
            partition_id,
            epoch,
            response_status,
            current_location,
            reply_to,
        )
    }

    /// Check if a response indicates split is needed.
    pub fn is_split_response(response_status: u8) -> (r: bool)
        ensures
            r == (split_of(response_status) is Some),
    {
        response_status == SplitStatus::SoftSplit.code() || response_status
            == SplitStatus::HardSplit.code()
    }

    /// Get the partition location manager.
    pub fn location_manager(&self) -> (r: &PartitionLocationManager)
        ensures
            *r == self.location_manager,
    {
        &self.location_manager
    }
}

} // verus!
