//! Committing the files of a shuffle: whom to ask, and what the answers come to.

use vstd::prelude::*;

use crate::client::lifecycle;
use crate::client::lifecycle::CommitRequest;
use crate::error;
use crate::error::{Result, StatusCode};
use crate::protocol;
use crate::protocol::transport::PbCommitFilesResponse;
use crate::protocol::{LocationModel, PartitionMode};
use crate::tables;

verus! {

/// Whether a worker committed what it was asked to: it answered, with a status of 0 (success)
/// or 1 (partial success).
pub open spec fn did_commit(r: Result<PbCommitFilesResponse>) -> bool {
    r matches Ok(a) && (a.status == 0 || a.status == 1)
}

/// Whether a worker answered that some partition was committed.
pub open spec fn some_committed(r: Result<PbCommitFilesResponse>) -> bool {
    r matches Ok(a) && (a.committed_primary_ids@.len() > 0 || a.committed_replica_ids@.len() > 0)
}

proof fn lemma_totals(results: Seq<Result<PbCommitFilesResponse>>)
    ensures
        lifecycle::commit_total(results).failures == 0 <==> forall|i: int|
            0 <= i < results.len() ==> did_commit(#[trigger] results[i]),
        lifecycle::commit_total(results).committed_primary_ids.len() == 0
            && lifecycle::commit_total(results).committed_replica_ids.len() == 0 <==> forall|i: int|
            0 <= i < results.len() ==> !some_committed(#[trigger] results[i]),
    decreases results.len(),
{
    if results.len() > 0 {
        let before = results.drop_last();
        lemma_totals(before);
        assert forall|i: int| 0 <= i < before.len() implies #[trigger] results[i] == before[i] by {}
        assert(results[results.len() - 1] == results.last());
        if forall|i: int| 0 <= i < results.len() ==> did_commit(#[trigger] results[i]) {
            assert forall|i: int| 0 <= i < before.len() implies did_commit(
                #[trigger] before[i],
            ) by {
                assert(results[i] == before[i]);
            }
        }
        if forall|i: int| 0 <= i < results.len() ==> !some_committed(#[trigger] results[i]) {
            assert forall|i: int| 0 <= i < before.len() implies !some_committed(
                #[trigger] before[i],
            ) by {
                assert(results[i] == before[i]);
            }
        }
    }
}

/// The combined status is that of a success just where every worker committed what it was
/// asked to; where some did not, it is that of a failure if nothing at all was committed, and
/// else that of a partial success.
pub proof fn law_commit_succeeds_only_everywhere(
    results: Seq<Result<PbCommitFilesResponse>>,
    r: PbCommitFilesResponse,
)
    requires
        lifecycle::commit_reported(r, results),
    ensures
        r.status == 0 <==> forall|i: int|
            0 <= i < results.len() ==> did_commit(#[trigger] results[i]),
        r.status == 2 <==> (exists|i: int|
            0 <= i < results.len() && !did_commit(#[trigger] results[i])) && forall|i: int|
            0 <= i < results.len() ==> !some_committed(#[trigger] results[i]),
        r.status == 0 || r.status == 1 || r.status == 2,
        error::status_of(r.status) == StatusCode::Success <==> r.status == 0,
        error::status_of(r.status) == StatusCode::PartialSuccess <==> r.status == 1,
        error::status_of(r.status) == StatusCode::RequestFailed <==> r.status == 2,
{
    lemma_totals(results);
}

/// The ids that were committed, and those that were not, are those of the workers that
/// answered, one answer after the other; primaries and replicas are kept apart.
pub proof fn law_committed_ids_are_those_of_the_answers(
    results: Seq<Result<PbCommitFilesResponse>>,
    r: PbCommitFilesResponse,
)
    requires
        lifecycle::commit_reported(r, results),
    ensures
        r.committed_primary_ids@ == lists(
            results,
            |a: PbCommitFilesResponse| a.committed_primary_ids@,
        ).flatten(),
        r.committed_replica_ids@ == lists(
            results,
            |a: PbCommitFilesResponse| a.committed_replica_ids@,
        ).flatten(),
        r.failed_primary_ids@ == lists(
            results,
            |a: PbCommitFilesResponse| a.failed_primary_ids@,
        ).flatten(),
        r.failed_replica_ids@ == lists(
            results,
            |a: PbCommitFilesResponse| a.failed_replica_ids@,
        ).flatten(),
{
    lemma_lists(results);
}

/// One list of each answer; none where there is no answer.
pub open spec fn lists(
    results: Seq<Result<PbCommitFilesResponse>>,
    part: spec_fn(PbCommitFilesResponse) -> Seq<String>,
) -> Seq<Seq<String>> {
    Seq::new(
        results.len(),
        |i: int|
            match results[i] {
                Ok(a) => part(a),
                Err(_) => Seq::<String>::empty(),
            },
    )
}

proof fn lemma_flatten_last(s: Seq<Seq<String>>)
    requires
        s.len() > 0,
    ensures
        s.flatten() == s.drop_last().flatten() + s.last(),
{
    assert(s =~= s.drop_last().push(s.last()));
    s.drop_last().lemma_flatten_push(s.last());
}

proof fn lemma_lists(results: Seq<Result<PbCommitFilesResponse>>)
    ensures
        ({
            let t = lifecycle::commit_total(results);
            &&& t.committed_primary_ids == lists(
                results,
                |a: PbCommitFilesResponse| a.committed_primary_ids@,
            ).flatten()
            &&& t.committed_replica_ids == lists(
                results,
                |a: PbCommitFilesResponse| a.committed_replica_ids@,
            ).flatten()
            &&& t.failed_primary_ids == lists(
                results,
                |a: PbCommitFilesResponse| a.failed_primary_ids@,
            ).flatten()
            &&& t.failed_replica_ids == lists(
                results,
                |a: PbCommitFilesResponse| a.failed_replica_ids@,
            ).flatten()
        }),
    decreases results.len(),
{
    let f1 = |a: PbCommitFilesResponse| a.committed_primary_ids@;
    let f2 = |a: PbCommitFilesResponse| a.committed_replica_ids@;
    let f3 = |a: PbCommitFilesResponse| a.failed_primary_ids@;
    let f4 = |a: PbCommitFilesResponse| a.failed_replica_ids@;
    if results.len() == 0 {
        assert(lists(results, f1) =~= Seq::<Seq<String>>::empty());
        assert(lists(results, f2) =~= Seq::<Seq<String>>::empty());
        assert(lists(results, f3) =~= Seq::<Seq<String>>::empty());
        assert(lists(results, f4) =~= Seq::<Seq<String>>::empty());
    } else {
        let before = results.drop_last();
        lemma_lists(before);
        lemma_flatten_last(lists(results, f1));
        lemma_flatten_last(lists(results, f2));
        lemma_flatten_last(lists(results, f3));
        lemma_flatten_last(lists(results, f4));
        assert(lists(results, f1).drop_last() =~= lists(before, f1));
        assert(lists(results, f2).drop_last() =~= lists(before, f2));
        assert(lists(results, f3).drop_last() =~= lists(before, f3));
        assert(lists(results, f4).drop_last() =~= lists(before, f4));
        let t = lifecycle::commit_total(before);
        assert(t.committed_primary_ids + Seq::<String>::empty() =~= t.committed_primary_ids);
        assert(t.committed_replica_ids + Seq::<String>::empty() =~= t.committed_replica_ids);
        assert(t.failed_primary_ids + Seq::<String>::empty() =~= t.failed_primary_ids);
        assert(t.failed_replica_ids + Seq::<String>::empty() =~= t.failed_replica_ids);
    }
}

/// What is committed at a worker are the locations there into which data was pushed: primaries
/// and replicas apart, by their ids, in the order of the walk.
pub proof fn law_pushed_locations_are_committed(
    s: Seq<LocationModel>,
    pushed: Set<Seq<char>>,
    host: Seq<char>,
    port: i32,
    primary: bool,
)
    ensures
        lifecycle::committed_at(s, pushed, host, port, primary) == s.filter(
            |l: LocationModel|
                pushed.contains(protocol::unique_id_text(l.id, l.epoch)) && l.host == host
                    && l.rpc_port == port && (l.mode == PartitionMode::Primary) == primary,
        ).map_values(|l: LocationModel| protocol::unique_id_text(l.id, l.epoch)),
        lifecycle::commits_at(s, pushed, host, port) <==> exists|k: int|
            0 <= k < s.len() && (#[trigger] s[k]).host == host && s[k].rpc_port == port
                && pushed.contains(protocol::unique_id_text(s[k].id, s[k].epoch)),
    decreases s.len(),
{
    reveal(Seq::filter);
    let p = |l: LocationModel|
        pushed.contains(protocol::unique_id_text(l.id, l.epoch)) && l.host == host && l.rpc_port
            == port && (l.mode == PartitionMode::Primary) == primary;
    let f = |l: LocationModel| protocol::unique_id_text(l.id, l.epoch);
    if s.len() > 0 {
        let before = s.drop_last();
        law_pushed_locations_are_committed(before, pushed, host, port, primary);
        if p(s.last()) {
            assert(s.filter(p).map_values(f) =~= before.filter(p).map_values(f).push(f(s.last())));
        }
        if lifecycle::commits_at(before, pushed, host, port) {
            let k = choose|k: int|
                0 <= k < before.len() && (#[trigger] before[k]).host == host && before[k].rpc_port
                    == port && pushed.contains(
                    protocol::unique_id_text(before[k].id, before[k].epoch),
                );
            assert(s[k] == before[k]);
        }
        assert(s[s.len() - 1] == s.last());
        assert forall|k: int|
            0 <= k < s.len() && (#[trigger] s[k]).host == host && s[k].rpc_port == port
                && pushed.contains(
                protocol::unique_id_text(s[k].id, s[k].epoch),
            ) implies lifecycle::commits_at(s, pushed, host, port) by {
            if k < before.len() {
                assert(before[k].host == host);
            }
        }
    }
    assert(lifecycle::committed_at(s, pushed, host, port, primary) =~= s.filter(p).map_values(f));
}

/// Every location into which data was pushed is committed at its own worker, by one request
/// only, which names it among the primaries or the replicas, whichever it is.
pub proof fn law_each_pushed_location_is_committed(
    rs: Seq<CommitRequest>,
    s: Seq<LocationModel>,
    pushed: Set<Seq<char>>,
    app_id: Seq<char>,
    shuffle_id: i32,
    num_mappers: i32,
    k: int,
)
    requires
        lifecycle::commits_all(rs, s, pushed, app_id, shuffle_id, num_mappers),
        0 <= k < s.len(),
        pushed.contains(protocol::unique_id_text(s[k].id, s[k].epoch)),
    ensures
        exists|i: int|
            0 <= i < rs.len() && (#[trigger] rs[i]).host@ == s[k].host && rs[i].rpc_port
                == s[k].rpc_port && tables::texts(
                if s[k].mode == PartitionMode::Primary {
                    rs[i].request.primary_ids@
                } else {
                    rs[i].request.replica_ids@
                },
            ).contains(protocol::unique_id_text(s[k].id, s[k].epoch)),
        forall|i: int, j: int|
            #![trigger rs[i], rs[j]]
            0 <= i < j < rs.len() ==> rs[i].host@ != rs[j].host@ || rs[i].rpc_port != rs[j].rpc_port,
{
    let host = s[k].host;
    let port = s[k].rpc_port;
    let primary = s[k].mode == PartitionMode::Primary;
    law_pushed_locations_are_committed(s, pushed, host, port, primary);
    assert(lifecycle::commits_at(s, pushed, host, port));
    let i = choose|i: int|
        0 <= i < rs.len() && (#[trigger] rs[i]).host@ == host && rs[i].rpc_port == port;
    assert(lifecycle::commits(rs[i], s, pushed, app_id, shuffle_id, num_mappers));
    let p = |l: LocationModel|
        pushed.contains(protocol::unique_id_text(l.id, l.epoch)) && l.host == host && l.rpc_port
            == port && (l.mode == PartitionMode::Primary) == primary;
    let f = |l: LocationModel| protocol::unique_id_text(l.id, l.epoch);
    assert(p(s[k]));
    s.lemma_filter_contains(p, k);
    assert(s.filter(p).contains(s[k]));
    let q = s.filter(p);
    let at = choose|n: int| 0 <= n < q.len() && q[n] == s[k];
    assert(q.map_values(f)[at] == f(s[k]));
}

/// A request to commit says for which application and shuffle it is; it takes the first attempt
/// of every mapper, and asks for no failure to be played.
pub proof fn law_commit_request_says_what_it_is_for(
    rs: Seq<CommitRequest>,
    s: Seq<LocationModel>,
    pushed: Set<Seq<char>>,
    app_id: Seq<char>,
    shuffle_id: i32,
    num_mappers: i32,
    i: int,
)
    requires
        lifecycle::commits_all(rs, s, pushed, app_id, shuffle_id, num_mappers),
        num_mappers >= 0,
        0 <= i < rs.len(),
    ensures
        rs[i].request.application_id@ == app_id,
        rs[i].request.shuffle_id == shuffle_id,
        rs[i].request.map_attempts@.len() == num_mappers,
        forall|j: int|
            0 <= j < num_mappers ==> #[trigger] rs[i].request.map_attempts@[j] == 0,
        rs[i].request.epoch == 0,
        !rs[i].request.mock_failure,
{
    assert(lifecycle::commits(rs[i], s, pushed, app_id, shuffle_id, num_mappers));
}

/// All locations of a shuffle are walked, each as often as it stands in the table.
pub proof fn law_walk_passes_all_locations(m: Map<i32, Seq<LocationModel>>, order: Seq<i32>)
    requires
        lifecycle::orders(m, order),
    ensures
        forall|id: i32, k: int|
            #![trigger m[id][k]]
            m.dom().contains(id) && 0 <= k < m[id].len() ==> lifecycle::walk(m, order).contains(
                m[id][k],
            ),
{
    assert forall|id: i32, k: int|
        #![trigger m[id][k]]
        m.dom().contains(id) && 0 <= k < m[id].len() implies lifecycle::walk(m, order).contains(
        m[id][k],
    ) by {
        assert(order.to_set().contains(id));
        let n = choose|n: int| 0 <= n < order.len() && order[n] == id;
        lemma_walk_holds(m, order, n, k);
    }
}

proof fn lemma_walk_holds(m: Map<i32, Seq<LocationModel>>, order: Seq<i32>, n: int, k: int)
    requires
        0 <= n < order.len(),
        0 <= k < m[order[n]].len(),
    ensures
        lifecycle::walk(m, order).contains(m[order[n]][k]),
    decreases order.len(),
{
    let before = order.drop_last();
    let w = lifecycle::walk(m, order);
    let early = lifecycle::walk(m, before);
    if n < before.len() {
        assert(before[n] == order[n]);
        lemma_walk_holds(m, before, n, k);
        let at = choose|j: int| 0 <= j < early.len() && early[j] == m[order[n]][k];
        assert(w[at] == m[order[n]][k]);
    } else {
        assert(w[early.len() + k] == m[order[n]][k]);
    }
}

} // verus!
