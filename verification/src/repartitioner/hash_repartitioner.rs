//! Hash-based repartitioner: buffers the data of each partition until there is enough of
//! it to push, and sorts rows by partition. The push itself is left to the caller.

use dashmap::DashMap;
use vstd::prelude::*;

use crate::wire;

verus! {

/// The data that a map holds for each partition.
pub uninterp spec fn partition_data(m: DashMap<i32, Vec<u8>>) -> Map<i32, Seq<u8>>;

/// `DashMap::new`: a map without entries.
#[verifier::external_body]
fn map_new() -> (r: DashMap<i32, Vec<u8>>)
    ensures
        partition_data(r).dom() == Set::<i32>::empty(),
{
    DashMap::new()
}

/// `DashMap::insert`: sets the value of a key, in place of one that it had.
#[verifier::external_body]
fn map_insert(m: &mut DashMap<i32, Vec<u8>>, id: i32, data: Vec<u8>)
    ensures
        partition_data(*final(m)) == partition_data(*old(m)).insert(id, data@),
{
    m.insert(id, data);
}

/// `DashMap::remove`: takes the entry of a key out and gives its value, if there is one.
#[verifier::external_body]
fn map_remove(m: &mut DashMap<i32, Vec<u8>>, id: i32) -> (r: Option<Vec<u8>>)
    ensures
        partition_data(*final(m)) == partition_data(*old(m)).remove(id),
        match r {
            Some(v) => partition_data(*old(m)).dom().contains(id) && v@ == partition_data(*old(m))[id],
            None => !partition_data(*old(m)).dom().contains(id),
        },
{
    m.remove(&id).map(|(_, v)| v)
}

/// `DashMap::iter`: walks over the entries, each once, in an order that is not described;
/// here their keys.
#[verifier::external_body]
fn map_keys(m: &DashMap<i32, Vec<u8>>) -> (r: Vec<i32>)
    ensures
        r@.no_duplicates(),
        r@.to_set() == partition_data(*m).dom(),
{
    m.iter().map(|r| *r.key()).collect()
}

/// Configuration for the repartitioner.
#[derive(Debug, Clone, Copy)]
pub struct RepartitionerConfig {
    /// Shuffle ID
    pub shuffle_id: i32,
    /// Map ID (task partition)
    pub map_id: i32,
    /// Attempt ID
    pub attempt_id: i32,
    /// Number of mappers
    pub num_mappers: i32,
    /// Number of output partitions
    pub num_partitions: usize,
    /// Batch size for processing
    pub batch_size: usize,
    /// Buffer size threshold for pushing to Celeborn (default: 4MB)
    pub push_buffer_size: usize,
}

impl Default for RepartitionerConfig {
    fn default() -> (r: Self)
        ensures
            r == (RepartitionerConfig {
                shuffle_id: 0,
                map_id: 0,
                attempt_id: 0,
                num_mappers: 1,
                num_partitions: 1,
                batch_size: 4096,
                push_buffer_size: 4194304,
            }),
    {
        RepartitionerConfig {
            shuffle_id: 0,
            map_id: 0,
            attempt_id: 0,
            num_mappers: 1,
            num_partitions: 1,
            batch_size: 4096,
            push_buffer_size: 4 * 1024 * 1024,
        }
    }
}

/// Scratch space for computing partition indices.
///
/// This is used to avoid repeated allocations during partitioning.
pub struct ScratchSpace {
    /// Buffer for hash values
    pub hashes_buf: Vec<u32>,
    /// Partition IDs for each row
    pub partition_ids: Vec<u32>,
    /// Row indices sorted by partition
    pub partition_row_indices: Vec<u32>,
    /// Start index for each partition in partition_row_indices
    pub partition_starts: Vec<u32>,
}

/// `n` zeros.
pub open spec fn zeros(n: nat) -> Seq<u32> {
    Seq::new(n, |i: int| 0u32)
}

/// A list made `n` long, with zeros behind its elements or without its last ones.
pub open spec fn resized(s: Seq<u32>, n: nat) -> Seq<u32> {
    Seq::new(
        n,
        |i: int|
            if i < s.len() {
                s[i]
            } else {
                0u32
            },
    )
}

/// Makes a list `n` long.
fn resize_list(v: &mut Vec<u32>, n: usize)
    ensures
        final(v)@ == resized(old(v)@, n as nat),
{
    while v.len() > n
        invariant
            v@.len() >= n || v@ == old(v)@,
            v@.len() <= old(v)@.len(),
            forall|i: int| 0 <= i < v@.len() ==> v@[i] == old(v)@[i],
        decreases v@.len(),
    {
        v.pop();
    }
    while v.len() < n
        invariant
            v@.len() <= n,
            v@.len() >= old(v)@.len() || v@.len() == n,
            forall|i: int|
                0 <= i < v@.len() ==> v@[i] == (if i < old(v)@.len() {
                    old(v)@[i]
                } else {
                    0u32
                }),
        decreases n - v@.len(),
    {
        v.push(0);
    }
    assert(v@ =~= resized(old(v)@, n as nat));
}

impl Default for ScratchSpace {
    fn default() -> (r: Self)
        ensures
            r.hashes_buf@.len() == 0,
            r.partition_ids@.len() == 0,
            r.partition_row_indices@.len() == 0,
            r.partition_starts@.len() == 0,
    {
        ScratchSpace {
            hashes_buf: Vec::new(),
            partition_ids: Vec::new(),
            partition_row_indices: Vec::new(),
            partition_starts: Vec::new(),
        }
    }
}

/// A list of zeros.
fn zero_list(n: usize) -> (r: Vec<u32>)
    ensures
        r@ == zeros(n as nat),
{
    let mut v: Vec<u32> = Vec::new();
    resize_list(&mut v, n);
    assert(v@ =~= zeros(n as nat));
    v
}

impl ScratchSpace {
    /// Create a new scratch space with the given capacity.
    pub fn new(batch_size: usize, num_partitions: usize) -> (r: Self)
        requires
            num_partitions < usize::MAX,
        ensures
            r.hashes_buf@ == zeros(batch_size as nat),
            r.partition_ids@ == zeros(batch_size as nat),
            r.partition_row_indices@ == zeros(batch_size as nat),
            r.partition_starts@ == zeros((num_partitions + 1) as nat),
    {
        ScratchSpace {
            hashes_buf: zero_list(batch_size),
            partition_ids: zero_list(batch_size),
            partition_row_indices: zero_list(batch_size),
            partition_starts: zero_list(num_partitions + 1),
        }
    }

    /// Resize the scratch space for a new batch size. It only grows.
    pub fn resize(&mut self, batch_size: usize, num_partitions: usize)
        requires
            num_partitions < usize::MAX,
        ensures
            if old(self).hashes_buf@.len() < batch_size {
                &&& final(self).hashes_buf@ == resized(old(self).hashes_buf@, batch_size as nat)
                &&& final(self).partition_ids@ == resized(old(self).partition_ids@, batch_size as nat)
                &&& final(self).partition_row_indices@ == resized(
                    old(self).partition_row_indices@,
                    batch_size as nat,
                )
            } else {
                &&& final(self).hashes_buf == old(self).hashes_buf
                &&& final(self).partition_ids == old(self).partition_ids
                &&& final(self).partition_row_indices == old(self).partition_row_indices
            },
            if old(self).partition_starts@.len() < num_partitions + 1 {
                final(self).partition_starts@ == resized(
                    old(self).partition_starts@,
                    (num_partitions + 1) as nat,
                )
            } else {
                final(self).partition_starts == old(self).partition_starts
            },
    {
        if self.hashes_buf.len() < batch_size {
            resize_list(&mut self.hashes_buf, batch_size);
            resize_list(&mut self.partition_ids, batch_size);
            resize_list(&mut self.partition_row_indices, batch_size);
        }
        if self.partition_starts.len() < num_partitions + 1 {
            resize_list(&mut self.partition_starts, num_partitions + 1);
        }
    }
}

/// How often `p` occurs.
pub open spec fn count(s: Seq<u32>, p: int) -> nat
    decreases s.len(),
{
    if s.len() == 0 {
        0
    } else if s.last() == p {
        count(s.drop_last(), p) + 1
    } else {
        count(s.drop_last(), p)
    }
}

/// How many numbers are less than `p`.
pub open spec fn below(s: Seq<u32>, p: int) -> nat
    decreases s.len(),
{
    if s.len() == 0 {
        0
    } else if s.last() < p {
        below(s.drop_last(), p) + 1
    } else {
        below(s.drop_last(), p)
    }
}

/// Where a row stands when the rows are sorted by partition: behind the rows of smaller
/// partitions and behind the earlier rows of its own.
pub open spec fn position(ids: Seq<u32>, row: int) -> int {
    below(ids, ids[row] as int) + count(ids.take(row), ids[row] as int) as int
}

proof fn lemma_count(ids: Seq<u32>, p: int)
    ensures
        below(ids, p + 1) == below(ids, p) + count(ids, p),
        below(ids, p) <= ids.len(),
        count(ids, p) <= ids.len(),
    decreases ids.len(),
{
    if ids.len() > 0 {
        lemma_count(ids.drop_last(), p);
    }
}

proof fn lemma_below_monotone(ids: Seq<u32>, p: int, q: int)
    requires
        p <= q,
    ensures
        below(ids, p) <= below(ids, q),
    decreases ids.len(),
{
    if ids.len() > 0 {
        lemma_below_monotone(ids.drop_last(), p, q);
    }
}

proof fn lemma_count_prefix(ids: Seq<u32>, i: int, j: int, p: int)
    requires
        0 <= i <= j <= ids.len(),
    ensures
        count(ids.take(i), p) <= count(ids.take(j), p),
    decreases j,
{
    if i < j {
        lemma_count_prefix(ids, i, j - 1, p);
        assert(ids.take(j).drop_last() =~= ids.take(j - 1));
    }
}

/// Rows come in the order of their partitions, and rows of one partition in their own
/// order; no two rows have the same place, and no place lies outside.
pub proof fn law_rows_are_sorted(ids: Seq<u32>, a: int, b: int)
    requires
        0 <= a < ids.len(),
        0 <= b < ids.len(),
        a != b,
    ensures
        0 <= position(ids, a) < ids.len(),
        position(ids, a) != position(ids, b),
        position(ids, a) < position(ids, b) <==> (ids[a] < ids[b] || (ids[a] == ids[b] && a < b)),
{
    lemma_position(ids, a);
    lemma_position(ids, b);
    if ids[a] < ids[b] || (ids[a] == ids[b] && a < b) {
        lemma_order(ids, a, b);
    } else {
        lemma_order(ids, b, a);
    }
}

proof fn lemma_position(ids: Seq<u32>, a: int)
    requires
        0 <= a < ids.len(),
    ensures
        below(ids, ids[a] as int) <= position(ids, a) < below(ids, ids[a] + 1),
        0 <= position(ids, a) < ids.len(),
{
    let p = ids[a] as int;
    lemma_count(ids, p);
    lemma_count(ids, p + 1);
    assert(ids.take(a + 1).drop_last() =~= ids.take(a));
    assert(ids.take(a + 1).last() == ids[a]);
    lemma_count_prefix(ids, a + 1, ids.len() as int, p);
    assert(ids.take(ids.len() as int) =~= ids);
}

proof fn lemma_order(ids: Seq<u32>, a: int, b: int)
    requires
        0 <= a < ids.len(),
        0 <= b < ids.len(),
        ids[a] < ids[b] || (ids[a] == ids[b] && a < b),
    ensures
        position(ids, a) < position(ids, b),
{
    lemma_position(ids, a);
    lemma_position(ids, b);
    if ids[a] < ids[b] {
        lemma_below_monotone(ids, ids[a] + 1, ids[b] as int);
    } else {
        let p = ids[a] as int;
        assert(ids.take(a + 1).drop_last() =~= ids.take(a));
        assert(ids.take(a + 1).last() == ids[a]);
        lemma_count_prefix(ids, a + 1, b, p);
    }
}

/// Where the rows of each partition stand once they were sorted.
pub open spec fn rows_sorted(
    scratch: ScratchSpace,
    scratch_after: ScratchSpace,
    num_output_partitions: usize,
    num_rows: usize,
) -> bool {
    &&& ({
        let ids = scratch.partition_ids@.take(num_rows as int);
        &&& scratch_after.partition_starts@.len() == num_output_partitions + 1
        &&& forall|p: int|
            0 <= p <= num_output_partitions ==> #[trigger] scratch_after.partition_starts@[p]
                == below(ids, p)
        &&& scratch_after.partition_row_indices@.len() == num_rows
        &&& forall|row: int|
            0 <= row < num_rows ==> #[trigger] scratch_after.partition_row_indices@[position(
                ids,
                row,
            )] == row
    })
    &&& scratch_after.partition_ids == scratch.partition_ids
    &&& scratch_after.hashes_buf == scratch.hashes_buf
}

/// Map partition IDs to partition starts and row indices.
///
/// This function takes an array of partition IDs and produces:
/// 1. `partition_starts` - Start index for each partition in the sorted row indices
/// 2. `partition_row_indices` - Row indices sorted by partition
///
/// This is useful for efficiently grouping rows by partition before pushing to Celeborn.
pub fn map_partition_ids_to_starts_and_indices(
    scratch: &mut ScratchSpace,
    num_output_partitions: usize,
    num_rows: usize,
)
    requires
        num_rows <= old(scratch).partition_ids@.len(),
        num_rows <= u32::MAX,
        num_output_partitions < usize::MAX,
        forall|i: int|
            0 <= i < num_rows ==> #[trigger] old(scratch).partition_ids@[i] <= num_output_partitions,
    ensures
        rows_sorted(*old(scratch), *final(scratch), num_output_partitions, num_rows),
{
    let ghost ids = scratch.partition_ids@.take(num_rows as int);
    let n: usize = num_output_partitions + 1;
    let mut counters: Vec<u32> = zero_list(n);
    let mut i: usize = 0;
    assert(ids.take(0) =~= Seq::<u32>::empty());
    while i < num_rows
        invariant
            *scratch == *old(scratch),
            n == num_output_partitions + 1,
            ids == scratch.partition_ids@.take(num_rows as int),
            num_rows <= scratch.partition_ids@.len(),
            num_rows <= u32::MAX,
            forall|k: int|
                0 <= k < num_rows ==> #[trigger] scratch.partition_ids@[k] <= num_output_partitions,
            i <= num_rows,
            counters@.len() == n,
            forall|p: int| 0 <= p < n ==> #[trigger] counters@[p] == count(ids.take(i as int), p),
        decreases num_rows - i,
    {
        let id: usize = scratch.partition_ids[i] as usize;
        proof {
            let t = ids.take(i + 1);
            assert(t.drop_last() =~= ids.take(i as int));
            assert(t.last() == ids[i as int]);
            lemma_count(ids.take(i as int), id as int);
        }
        counters[id] = counters[id] + 1;
        i += 1;
    }
    assert(ids.take(num_rows as int) =~= ids);
    let mut accum: u32 = 0;
    let mut p: usize = 0;
    proof {
        lemma_nothing_below(ids);
    }
    while p < n
        invariant
            ids.len() == num_rows,
            num_rows <= u32::MAX,
            p <= n,
            counters@.len() == n,
            accum == below(ids, p as int),
            forall|q: int| 0 <= q < p ==> #[trigger] counters@[q] == below(ids, q + 1),
            forall|q: int| p <= q < n ==> #[trigger] counters@[q] == count(ids, q),
        decreases n - p,
    {
        proof {
            lemma_count(ids, p as int);
            lemma_count(ids, p + 1);
        }
        let v: u32 = counters[p] + accum;
        counters[p] = v;
        accum = v;
        p += 1;
    }
    let mut indices: Vec<u32> = zero_list(num_rows);
    let mut row: usize = num_rows;
    proof {
        assert forall|q: int| 0 <= q < n implies #[trigger] counters@[q] == below(ids, q) + count(
            ids.take(num_rows as int),
            q,
        ) by {
            lemma_count(ids, q);
        }
    }
    while row > 0
        invariant
            *scratch == *old(scratch),
            n == num_output_partitions + 1,
            ids == scratch.partition_ids@.take(num_rows as int),
            ids.len() == num_rows,
            num_rows <= scratch.partition_ids@.len(),
            num_rows <= u32::MAX,
            forall|k: int|
                0 <= k < num_rows ==> #[trigger] scratch.partition_ids@[k] <= num_output_partitions,
            row <= num_rows,
            counters@.len() == n,
            forall|q: int|
                0 <= q < n ==> #[trigger] counters@[q] == below(ids, q) + count(
                    ids.take(row as int),
                    q,
                ),
            indices@.len() == num_rows,
            forall|r: int| row <= r < num_rows ==> #[trigger] indices@[position(ids, r)] == r,
        decreases row,
    {
        let ghost above = row as int;
        row -= 1;
        let id: usize = scratch.partition_ids[row] as usize;
        proof {
            let t = ids.take(above);
            assert(t.drop_last() =~= ids.take(row as int));
            assert(t.last() == ids[row as int]);
            assert(ids[row as int] == id);
            lemma_position(ids, row as int);
        }
        let end: u32 = counters[id] - 1;
        counters[id] = end;
        let ghost before = indices@;
        indices[end as usize] = row as u32;
        proof {
            assert(end == position(ids, row as int));
            assert forall|r: int| row <= r < num_rows implies #[trigger] indices@[position(ids, r)]
                == r by {
                if r > row {
                    law_rows_are_sorted(ids, row as int, r);
                    lemma_position(ids, r);
                    assert(before[position(ids, r)] == r);
                }
            }
        }
    }
    proof {
        assert forall|q: int| 0 <= q < n implies #[trigger] counters@[q] == below(ids, q) by {
            assert(ids.take(0) =~= Seq::<u32>::empty());
        }
    }
    scratch.partition_starts = counters;
    scratch.partition_row_indices = indices;
}

proof fn lemma_nothing_below(ids: Seq<u32>)
    ensures
        below(ids, 0) == 0,
    decreases ids.len(),
{
    if ids.len() > 0 {
        lemma_nothing_below(ids.drop_last());
    }
}

/// Compute partition ID using positive modulo (same as Spark).
///
/// This ensures the result is always non-negative, matching Spark's behavior.
pub fn pmod(hash: u32, n: usize) -> (r: usize)
    requires
        0 < n <= i32::MAX,
    ensures
        r == wire::signed32(hash as nat) as int % n as int,
        r < n,
{
    let h: i64 = wire::to_signed32(hash) as i64;
    let m: i64 = n as i64;
    if h >= 0 {
        (h % m) as usize
    } else {
        let k: i64 = (-h) % m;
        proof {
            let a = -h as int;
            let q = a / m as int;
            vstd::arithmetic::div_mod::lemma_fundamental_div_mod(a, m as int);
            if k == 0 {
                assert(h == m * (-q)) by (nonlinear_arith)
                    requires
                        -h == m * q + k,
                        k == 0,
                ;
                vstd::arithmetic::div_mod::lemma_fundamental_div_mod_converse(
                    h as int,
                    m as int,
                    -q,
                    0,
                );
            } else {
                assert(h == m * (-q - 1) + (m - k)) by (nonlinear_arith)
                    requires
                        -h == m * q + k,
                ;
                vstd::arithmetic::div_mod::lemma_fundamental_div_mod_converse(
                    h as int,
                    m as int,
                    -q - 1,
                    m - k,
                );
            }
        }
        if k == 0 {
            0
        } else {
            (m - k) as usize
        }
    }
}

/// Hash-based shuffle repartitioner.
///
/// This repartitioner:
/// 1. Accepts pre-computed partition IDs for each row
/// 2. Buffers data for each partition
/// 3. Pushes to Celeborn when buffer exceeds threshold
pub struct HashRepartitioner {
    /// Configuration
    config: RepartitionerConfig,
    /// Partition buffers for accumulating data before push
    partition_buffers: DashMap<i32, Vec<u8>>,
    /// Total bytes pushed
    bytes_pushed: usize,
}

/// The data of a partition; none where nothing is buffered.
pub open spec fn data_of(m: Map<i32, Seq<u8>>, id: i32) -> Seq<u8> {
    if m.dom().contains(id) {
        m[id]
    } else {
        Seq::<u8>::empty()
    }
}

/// The effect of buffering data for a partition: when there is enough of it the data of the
/// partition is handed out, else it waits.
pub open spec fn inserted(
    before: Map<i32, Seq<u8>>,
    after: Map<i32, Seq<u8>>,
    limit: usize,
    id: i32,
    data: Seq<u8>,
    r: Option<(i32, Vec<u8>)>,
) -> bool {
    let all = data_of(before, id) + data;
    if all.len() >= limit {
        &&& r matches Some(p)
        &&& p.0 == id
        &&& p.1@ == all
        &&& after == before.remove(id)
    } else {
        r is None && after == before.insert(id, all)
    }
}

/// No byte is lost on the way to its partition, none is doubled, and their order stays: for
/// every partition, what was buffered and then what came is what is handed out and then what
/// stays buffered.
pub proof fn law_buffered_bytes_are_kept(
    before: Map<i32, Seq<u8>>,
    after: Map<i32, Seq<u8>>,
    limit: usize,
    id: i32,
    data: Seq<u8>,
    r: Option<(i32, Vec<u8>)>,
    partition: i32,
)
    requires
        inserted(before, after, limit, id, data, r),
    ensures
        ({
            let came = if partition == id {
                data
            } else {
                Seq::<u8>::empty()
            };
            let handed_out = match r {
                Some(p) if p.0 == partition => p.1@,
                _ => Seq::<u8>::empty(),
            };
            data_of(before, partition) + came == handed_out + data_of(after, partition)
        }),
{
    let all = data_of(before, id) + data;
    if partition == id {
        assert(all + Seq::<u8>::empty() =~= all);
        assert(Seq::<u8>::empty() + all =~= all);
    } else {
        let kept = data_of(before, partition);
        assert(data_of(after, partition) == kept);
        assert(kept + Seq::<u8>::empty() =~= Seq::<u8>::empty() + kept);
    }
}

impl HashRepartitioner {
    /// What is buffered.
    pub closed spec fn buffered(&self) -> Map<i32, Seq<u8>> {
        partition_data(self.partition_buffers)
    }

    pub closed spec fn settings(&self) -> RepartitionerConfig {
        self.config
    }

    pub closed spec fn total(&self) -> usize {
        self.bytes_pushed
    }

    /// No buffer at rest holds enough to be pushed.
    pub open spec fn wf(&self) -> bool {
        forall|id: i32| #[trigger]
            self.buffered().dom().contains(id) ==> self.buffered()[id].len()
                < self.settings().push_buffer_size
    }

    /// Create a new hash repartitioner.
    pub fn new(config: RepartitionerConfig) -> (r: Self)
        ensures
            r.wf(),
            r.buffered() == Map::<i32, Seq<u8>>::empty(),
            r.settings() == config,
            r.total() == 0,
    {
        let r: HashRepartitioner = HashRepartitioner {
            config,
            partition_buffers: map_new(),
            bytes_pushed: 0,
        };
        assert(r.buffered() =~= Map::<i32, Seq<u8>>::empty());
        r
    }

    /// What becomes of the data of a batch of rows.
    pub open spec fn takes_in(
        &self,
        after: &HashRepartitioner,
        partition_ids: &[u32],
        data: &[u8],
        r: Option<(i32, Vec<u8>)>,
    ) -> bool {
        &&& after.settings() == self.settings()
        &&& after.total() == self.total()
        &&& if partition_ids@.len() == 0 || data@.len() == 0 {
            r is None && after.buffered() == self.buffered()
        } else {
            inserted(
                self.buffered(),
                after.buffered(),
                self.settings().push_buffer_size,
                wire::signed32(partition_ids@[0] as nat),
                data@,
                r,
            )
        }
    }

    /// Buffers data for the partition that the first id names. Gives the data of the
    /// partition when there is enough of it to push.
    pub fn insert_batch(&mut self, partition_ids: &[u32], data: &[u8]) -> (r: Option<(i32, Vec<u8>)>)
        requires
            old(self).wf(),
        ensures
            final(self).wf(),
            old(self).takes_in(final(self), partition_ids, data, r),
    {
        if partition_ids.len() == 0 || data.len() == 0 {
            return None;
        }
        let ghost start = self.buffered();
        let id: i32 = wire::to_signed32(partition_ids[0]);
        let mut buffer: Vec<u8> = match map_remove(&mut self.partition_buffers, id) {
            Some(v) => v,
            None => Vec::new(),
        };
        buffer.extend_from_slice(data);
        assert(buffer@ =~= data_of(start, id) + data@);
        if buffer.len() >= self.config.push_buffer_size {
            return Some((id, buffer));
        }
        let ghost all = buffer@;
        map_insert(&mut self.partition_buffers, id, buffer);
        assert(self.buffered() =~= start.insert(id, all));
        None
    }

    /// The partitions that are to be flushed.
    pub fn flush_all(&self) -> (r: Vec<i32>)
        ensures
            r@.no_duplicates(),
            r@.to_set() == self.buffered().dom(),
    {
        map_keys(&self.partition_buffers)
    }

    /// What is handed out of a partition.
    pub open spec fn gives_out(
        &self,
        after: &HashRepartitioner,
        partition_id: i32,
        r: Option<Vec<u8>>,
    ) -> bool {
        &&& after.settings() == self.settings()
        &&& after.total() == self.total()
        &&& after.buffered() == self.buffered().remove(partition_id)
        &&& if data_of(self.buffered(), partition_id).len() > 0 {
            r matches Some(v) && v@ == self.buffered()[partition_id]
        } else {
            r is None
        }
    }

    /// Takes the data of a partition out for the push; nothing where none is buffered.
    pub fn take_partition(&mut self, partition_id: i32) -> (r: Option<Vec<u8>>)
        requires
            old(self).wf(),
        ensures
            final(self).wf(),
            old(self).gives_out(final(self), partition_id, r),
    {
        let taken: Option<Vec<u8>> = map_remove(&mut self.partition_buffers, partition_id);
        proof {
            assert(self.buffered() == old(self).buffered().remove(partition_id));
            assert forall|id: i32| #[trigger] self.buffered().dom().contains(id) implies self.buffered()[id].len()
                < self.settings().push_buffer_size by {
                assert(old(self).buffered().dom().contains(id));
            }
        }
        match taken {
            Some(buffer) => {
                if buffer.len() == 0 {
                    None
                } else {
                    Some(buffer)
                }
            },
            None => None,
        }
    }

    /// Counts data that was pushed.
    pub fn data_pushed(&mut self, len: usize)
        requires
            old(self).total() + len <= usize::MAX,
        ensures
            final(self).total() == old(self).total() + len,
            final(self).buffered() == old(self).buffered(),
            final(self).settings() == old(self).settings(),
    {
        self.bytes_pushed = self.bytes_pushed + len;
    }

    /// Get total bytes pushed to Celeborn.
    pub fn bytes_pushed(&self) -> (r: usize)
        ensures
            r == self.total(),
    {
        self.bytes_pushed
    }

    /// Get the configuration.
    pub fn config(&self) -> (r: RepartitionerConfig)
        ensures
            r == self.settings(),
    {
        self.config
    }

    /// Get the number of output partitions.
    pub fn num_partitions(&self) -> (r: usize)
        ensures
            r == self.settings().num_partitions,
    {
        self.config.num_partitions
    }

    /// Get the shuffle ID.
    pub fn shuffle_id(&self) -> (r: i32)
        ensures
            r == self.settings().shuffle_id,
    {
        self.config.shuffle_id
    }

    /// Get the map ID.
    pub fn map_id(&self) -> (r: i32)
        ensures
            r == self.settings().map_id,
    {
        self.config.map_id
    }
}

} // verus!
