//! Rows on their way to their partitions, and the clients that take them.

use std::sync::Arc;

use vstd::prelude::*;

use crate::client::executor_shuffle_client::ExecutorShuffleClient;
use crate::config::CompressionCodec;
use crate::error::Result;
use crate::repartitioner::client_manager;
use crate::repartitioner::hash_repartitioner;
use crate::repartitioner::hash_repartitioner::{HashRepartitioner, ScratchSpace};

verus! {

/// The rows of a partition stand together: from the place where its rows start up to the place
/// where those of the next one do, and there are as many as there are rows of it.
pub proof fn law_rows_of_a_partition_stand_together(ids: Seq<u32>, row: int, p: int)
    requires
        0 <= row < ids.len(),
        ids[row] == p,
    ensures
        hash_repartitioner::below(ids, p) <= hash_repartitioner::position(ids, row)
            < hash_repartitioner::below(ids, p + 1),
{
    lemma_below_next(ids, p);
    lemma_count_grows(ids, row);
}

/// A partition starts behind all rows of the partitions before it.
pub proof fn law_partition_starts_behind_the_others(ids: Seq<u32>, p: int)
    ensures
        hash_repartitioner::below(ids, p) == ids.filter(|id: u32| id < p).len(),
        hash_repartitioner::below(ids, p + 1) - hash_repartitioner::below(ids, p) == ids.filter(
            |id: u32| id == p,
        ).len(),
        p <= 0 ==> hash_repartitioner::below(ids, p) == 0,
        (forall|i: int| 0 <= i < ids.len() ==> (#[trigger] ids[i]) < p)
            ==> hash_repartitioner::below(ids, p) == ids.len(),
    decreases ids.len(),
{
    reveal(Seq::filter);
    if ids.len() > 0 {
        let init = ids.drop_last();
        law_partition_starts_behind_the_others(init, p);
        assert(ids.last() == ids[ids.len() - 1]);
        if forall|i: int| 0 <= i < ids.len() ==> (#[trigger] ids[i]) < p {
            assert forall|i: int| 0 <= i < init.len() implies (#[trigger] init[i]) < p by {
                assert(init[i] == ids[i]);
            }
        }
    }
}

proof fn lemma_below_next(ids: Seq<u32>, p: int)
    ensures
        hash_repartitioner::below(ids, p + 1) == hash_repartitioner::below(ids, p)
            + hash_repartitioner::count(ids, p),
    decreases ids.len(),
{
    if ids.len() > 0 {
        lemma_below_next(ids.drop_last(), p);
    }
}

proof fn lemma_count_grows(ids: Seq<u32>, row: int)
    requires
        0 <= row < ids.len(),
    ensures
        hash_repartitioner::count(ids.take(row), ids[row] as int) < hash_repartitioner::count(
            ids,
            ids[row] as int,
        ),
    decreases ids.len(),
{
    let p = ids[row] as int;
    let init = ids.drop_last();
    if row == ids.len() - 1 {
        assert(ids.take(row) =~= init);
    } else {
        assert(init[row] == ids[row]);
        lemma_count_grows(init, row);
        assert(init.take(row) =~= ids.take(row));
    }
}

/// Data is handed out once there is a buffer full of it, all of it together and for its
/// partition; until then it is kept behind what was there. No other partition is touched.
pub proof fn law_full_buffer_is_handed_out(
    before: Map<i32, Seq<u8>>,
    after: Map<i32, Seq<u8>>,
    limit: usize,
    id: i32,
    data: Seq<u8>,
    r: Option<(i32, Vec<u8>)>,
)
    requires
        hash_repartitioner::inserted(before, after, limit, id, data, r),
    ensures
        ({
            let was = if before.dom().contains(id) {
                before[id]
            } else {
                Seq::<u8>::empty()
            };
            &&& r is Some <==> was.len() + data.len() >= limit
            &&& r matches Some(h) ==> h.0 == id && h.1@ == was + data && !after.dom().contains(id)
            &&& r is None ==> after.dom().contains(id) && after[id] == was + data
            &&& forall|other: i32|
                other != id ==> #[trigger] after.dom().contains(other) == before.dom().contains(
                    other,
                ) && (before.dom().contains(other) ==> after[other] == before[other])
        }),
{
}

/// A list that is made longer keeps what it has and is filled with zeros.
pub proof fn law_resized_list_keeps_its_numbers(s: Seq<u32>, n: nat)
    ensures
        hash_repartitioner::resized(s, n).len() == n,
        forall|i: int|
            0 <= i < n && i < s.len() ==> #[trigger] hash_repartitioner::resized(s, n)[i] == s[i],
        forall|i: int|
            s.len() <= i < n ==> #[trigger] hash_repartitioner::resized(s, n)[i] == 0,
        hash_repartitioner::zeros(n) == hash_repartitioner::resized(Seq::<u32>::empty(), n),
{
    assert(hash_repartitioner::zeros(n) =~= hash_repartitioner::resized(Seq::<u32>::empty(), n));
}

/// A new client is that of its application: it has the name, the masters and the codec that it
/// is asked for with, the manager at the host and the port, and nothing else yet. An application
/// that has a client keeps it.
pub proof fn law_new_client_is_as_asked_for(
    r: Result<Arc<ExecutorShuffleClient>>,
    before: Map<Seq<char>, Arc<ExecutorShuffleClient>>,
    after: Map<Seq<char>, Arc<ExecutorShuffleClient>>,
    app_id: Seq<char>,
    masters: Vec<String>,
    host: Seq<char>,
    port: i32,
    codec: Option<CompressionCodec>,
)
    requires
        client_manager::obtained(r, before, after, app_id, masters, host, port, codec),
    ensures
        before.dom().contains(app_id) ==> r is Ok && r->Ok_0 == before[app_id] && after == before,
        r is Err ==> after == before && !before.dom().contains(app_id),
        !before.dom().contains(app_id) && r is Ok ==> {
            let c = r->Ok_0;
            &&& after.dom() == before.dom().insert(app_id)
            &&& after[app_id] == c
            &&& c.app_unique_id@ == app_id
            &&& c.config.app_id@ == app_id
            &&& c.config.master_endpoints == masters
            &&& codec is Some ==> c.config.compression_codec == codec->0
            &&& codec is None ==> c.config.compression_codec is Lz4
            &&& c.config.push_buffer_size == 65_536
            &&& c.config.max_retries == 3
            &&& c.initialized
            &&& c.lifecycle_client is Some
            &&& c.lifecycle_client->0.host@ == host
            &&& c.lifecycle_client->0.port == port
            &&& c.lifecycle_client->0.rpc_timeout == c.config.rpc_timeout
            &&& c.model().dom() == Set::<i32>::empty()
        },
        forall|other: Seq<char>|
            other != app_id ==> #[trigger] after.dom().contains(other) == before.dom().contains(
                other,
            ),
        r is Err <==> !before.dom().contains(app_id) && (app_id.len() == 0 || masters@.len() == 0
            || exists|i: int| 0 <= i < masters@.len() && !(#[trigger] masters@[i])@.contains(':')),
{
    if !before.dom().contains(app_id) {
        lemma_configured(r, app_id, masters, codec);
    }
}

proof fn lemma_configured(
    r: Result<Arc<ExecutorShuffleClient>>,
    app_id: Seq<char>,
    masters: Vec<String>,
    codec: Option<CompressionCodec>,
)
    requires
        r matches Ok(c) ==> client_manager::client_configured(
            Ok(c.config),
            app_id,
            masters,
            codec,
        ),
        r matches Err(e) ==> client_manager::client_configured(Err(e), app_id, masters, codec),
    ensures
        r is Err <==> (app_id.len() == 0 || masters@.len() == 0 || exists|i: int|
            0 <= i < masters@.len() && !(#[trigger] masters@[i])@.contains(':')),
{
    let s = masters@;
    if exists|i: int| 0 <= i < s.len() && !(#[trigger] s[i])@.contains(':') {
        let i = choose|i: int| 0 <= i < s.len() && !(#[trigger] s[i])@.contains(':');
        let k = crate::laws::settings::lemma_first_bad(s, i);
        assert(crate::config::bad_endpoint_at(s, k));
        let _ = s[k];
        assert(crate::config::first_bad_endpoint(s) is Some);
    } else {
        assert(crate::config::first_bad_endpoint(s) is None);
    }
}

/// The data of a batch goes to the partition of its first row; a batch without rows or without
/// data goes nowhere.
pub proof fn law_batch_goes_to_the_partition_of_its_first_row(
    p: HashRepartitioner,
    after: HashRepartitioner,
    ids: &[u32],
    data: &[u8],
    r: Option<(i32, Vec<u8>)>,
)
    requires
        p.takes_in(&after, ids, data, r),
    ensures
        ids@.len() == 0 || data@.len() == 0 ==> r is None && after.buffered() == p.buffered(),
        ids@.len() > 0 && ids@[0] <= i32::MAX && data@.len() > 0 ==> {
            let id = ids@[0] as i32;
            let was = if p.buffered().dom().contains(id) {
                p.buffered()[id]
            } else {
                Seq::<u8>::empty()
            };
            &&& r is Some <==> was.len() + data@.len() >= p.settings().push_buffer_size
            &&& r matches Some(h) ==> h.0 == id && h.1@ == was + data@
            &&& r is None ==> after.buffered()[id] == was + data@
        },
        after.total() == p.total(),
        after.settings() == p.settings(),
{
    if ids@.len() > 0 && ids@[0] <= i32::MAX {
        assert(crate::wire::signed32(ids@[0] as nat) == ids@[0]);
    }
}

/// What is left of a partition is handed out, and then there is nothing of it; the others stay.
pub proof fn law_rest_of_a_partition_is_handed_out(
    p: HashRepartitioner,
    after: HashRepartitioner,
    id: i32,
    r: Option<Vec<u8>>,
)
    requires
        p.gives_out(&after, id, r),
    ensures
        r is Some <==> p.buffered().dom().contains(id) && p.buffered()[id].len() > 0,
        r matches Some(v) ==> v@ == p.buffered()[id],
        !after.buffered().dom().contains(id),
        forall|other: i32|
            other != id ==> #[trigger] after.buffered().dom().contains(other)
                == p.buffered().dom().contains(other) && (p.buffered().dom().contains(other)
                ==> after.buffered()[other] == p.buffered()[other]),
{
}

/// Sorted rows are the rows: each stands at a place of its partition, between the start of that
/// and the start of the next one.
pub proof fn law_sorted_rows_stand_in_their_partitions(
    before: ScratchSpace,
    after: ScratchSpace,
    n: usize,
    rows: usize,
    row: int,
)
    requires
        hash_repartitioner::rows_sorted(before, after, n, rows),
        rows <= before.partition_ids@.len(),
        forall|i: int| 0 <= i < rows ==> (#[trigger] before.partition_ids@[i]) < n,
        0 <= row < rows,
    ensures
        ({
            let p = before.partition_ids@[row] as int;
            &&& after.partition_starts@.len() == n + 1
            &&& after.partition_row_indices@.len() == rows
            &&& exists|at: int|
                after.partition_starts@[p] <= at < after.partition_starts@[p + 1]
                    && #[trigger] after.partition_row_indices@[at] == row
            &&& after.partition_starts@[0] == 0
            &&& after.partition_starts@[n as int] == rows
        }),
{
    let ids = before.partition_ids@.take(rows as int);
    let p = before.partition_ids@[row] as int;
    assert(ids[row] == p);
    law_rows_of_a_partition_stand_together(ids, row, p);
    let at = hash_repartitioner::position(ids, row);
    assert(after.partition_row_indices@[at] == row);
    assert(after.partition_starts@[p] == hash_repartitioner::below(ids, p));
    assert(after.partition_starts@[p + 1] == hash_repartitioner::below(ids, p + 1));
    law_partition_starts_behind_the_others(ids, 0);
    assert forall|i: int| 0 <= i < ids.len() implies (#[trigger] ids[i]) < n by {
        assert(ids[i] == before.partition_ids@[i]);
    }
    law_partition_starts_behind_the_others(ids, n as int);
    assert(after.partition_starts@[0] == hash_repartitioner::below(ids, 0));
    assert(after.partition_starts@[n as int] == hash_repartitioner::below(ids, n as int));
}

} // verus!
