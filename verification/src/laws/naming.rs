//! The texts that things are named by.

use vstd::prelude::*;

use crate::error;
use crate::error::{CelebornError, StatusCode};
use crate::protocol;
use crate::protocol::{PartitionMode, WorkerInfo};
use crate::string_map::StringMap;
use crate::text;

verus! {

/// The number that digits stand for.
pub open spec fn value_of(s: Seq<char>) -> nat
    decreases s.len(),
{
    if s.len() == 0 {
        0
    } else {
        (value_of(s.drop_last()) * 10 + (s.last() as nat - 48)) as nat
    }
}

/// A number is written by its digits: they are nothing else, they come to the number, and there
/// is no zero before them.
pub proof fn law_number_is_written_by_its_digits(n: nat)
    ensures
        ({
            let t = text::nat_text(n);
            &&& t.len() > 0
            &&& forall|i: int| 0 <= i < t.len() ==> '0' <= #[trigger] t[i] <= '9'
            &&& value_of(t) == n
            &&& n > 0 ==> t[0] != '0'
            &&& n < 10 ==> t.len() == 1
        }),
    decreases n,
{
    let t = text::nat_text(n);
    if n < 10 {
        assert(t.drop_last() =~= Seq::<char>::empty());
        assert(value_of(Seq::<char>::empty()) == 0);
        assert(t.last() == t[0]);
    } else {
        law_number_is_written_by_its_digits(n / 10);
        let u = text::nat_text(n / 10);
        assert(t.drop_last() =~= u);
        assert(t[0] == u[0]);
        assert forall|i: int| 0 <= i < t.len() implies '0' <= #[trigger] t[i] <= '9' by {
            if i < u.len() {
                assert(t[i] == u[i]);
            }
        }
    }
}

/// A number below zero is written behind a sign, and the others are not; so different numbers
/// are written differently.
pub proof fn law_numbers_are_told_apart(a: int, b: int)
    ensures
        a < 0 ==> text::int_text(a) == seq!['-'] + text::nat_text((-a) as nat),
        a >= 0 ==> text::int_text(a) == text::nat_text(a as nat),
        text::int_text(a)[0] == '-' <==> a < 0,
        text::int_text(a) == text::int_text(b) ==> a == b,
{
    let x = text::nat_text(if a < 0 {
        (-a) as nat
    } else {
        a as nat
    });
    let y = text::nat_text(if b < 0 {
        (-b) as nat
    } else {
        b as nat
    });
    law_number_is_written_by_its_digits(if a < 0 {
        (-a) as nat
    } else {
        a as nat
    });
    law_number_is_written_by_its_digits(if b < 0 {
        (-b) as nat
    } else {
        b as nat
    });
    assert('0' <= x[0] <= '9');
    assert('0' <= y[0] <= '9');
    if text::int_text(a) == text::int_text(b) {
        assert(text::int_text(a)[0] == text::int_text(b)[0]);
        if a < 0 {
            assert(text::int_text(a).skip(1) =~= x);
            assert(text::int_text(b).skip(1) =~= y);
        }
    }
}

/// A shuffle is named by its application and its number, a location by its partition and its
/// epoch, a file by these and its mode, and an address by its host and its port.
pub proof fn law_names_of_things(
    app_id: Seq<char>,
    host: Seq<char>,
    a: i32,
    b: i32,
    mode: PartitionMode,
)
    ensures
        text::key_text(app_id, a) == app_id + seq!['-'] + text::int_text(a as int),
        protocol::unique_id_text(a, b) == text::int_text(a as int) + seq!['-'] + text::int_text(
            b as int,
        ),
        protocol::file_name_text(a, b, mode) == text::int_text(a as int) + seq!['-']
            + text::int_text(b as int) + seq!['-'] + seq![
            if mode is Primary {
                '0'
            } else {
                '1'
            },
        ],
        text::address_text(host, a as int) == host + seq![':'] + text::int_text(a as int),
{
    assert(text::nat_text(0) =~= seq!['0']);
    assert(text::nat_text(1) =~= seq!['1']);
}

/// A worker is named by its host and its ports, in the order of those for calls, pushes, fetches
/// and replicas.
pub proof fn law_name_of_a_worker(w: WorkerInfo)
    ensures
        protocol::worker_id_text(w) == w.host@ + seq!['-'] + text::int_text(w.rpc_port as int)
            + seq!['-'] + text::int_text(w.push_port as int) + seq!['-'] + text::int_text(
            w.fetch_port as int,
        ) + seq!['-'] + text::int_text(w.replicate_port as int),
{
}

/// A byte in hexadecimal is two digits, the high one first, with capital letters.
pub proof fn law_bytes_in_hexadecimal(b: u8)
    ensures
        text::hex_text(b).len() == 2,
        text::hex_text(b)[0] == hexadecimal((b / 16) as int),
        text::hex_text(b)[1] == hexadecimal((b % 16) as int),
{
}

/// The hexadecimal digit of a number below sixteen.
pub open spec fn hexadecimal(d: int) -> char {
    seq!['0', '1', '2', '3', '4', '5', '6', '7', '8', '9', 'A', 'B', 'C', 'D', 'E', 'F'][d]
}

/// The shuffle of a name is the number behind its last sign, whatever stands before it; a name
/// without a number is of the first shuffle.
pub proof fn law_shuffle_of_a_name(head: Seq<char>, n: nat)
    ensures
        n <= i32::MAX ==> text::key_shuffle(head + seq!['-'] + text::nat_text(n)) == n,
        n > i32::MAX ==> text::key_shuffle(head + seq!['-'] + text::nat_text(n)) == 0,
        text::key_shuffle(head + seq!['-']) == 0,
{
    let t = text::nat_text(n);
    text::lemma_digits(n);
    assert forall|i: int| 0 <= i < t.len() implies #[trigger] t[i] != '-' by {
        assert(text::is_digit(t[i]));
    }
    text::lemma_last_part(head, t);
    assert(head + seq!['-'] + t =~= head.push('-') + t);
    assert(text::is_digit(t[0]));
    let e = Seq::<char>::empty();
    text::lemma_last_part(head, e);
    assert(head.push('-') + e =~= head + seq!['-']);
}

/// A table by text holds what its entries say, each under its own text, and nothing else.
pub proof fn law_table_holds_its_entries<V>(m: StringMap<V>, i: int, k: Seq<char>)
    requires
        m.wf(),
        0 <= i < m.entries@.len(),
    ensures
        m@.dom().contains(m.entries@[i].0@),
        m@[m.entries@[i].0@] == m.entries@[i].1,
        m@.dom().contains(k) <==> exists|j: int|
            0 <= j < m.entries@.len() && (#[trigger] m.entries@[j]).0@ == k,
{
    let s = m.entries@;
    let key = s[i].0@;
    assert(crate::string_map::key_at(s, i, key));
    let j = crate::string_map::index_of_key(s, key);
    assert(crate::string_map::key_at(s, j, key));
    if crate::string_map::has_key(s, k) {
        let j = choose|j: int| crate::string_map::key_at(s, j, k);
        assert(s[j].0@ == k);
    }
    if exists|j: int| 0 <= j < s.len() && (#[trigger] s[j]).0@ == k {
        let j = choose|j: int| 0 <= j < s.len() && (#[trigger] s[j]).0@ == k;
        assert(crate::string_map::key_at(s, j, k));
    }
}

/// An error says what it is about: which partition of which shuffle, which worker, after how
/// long or how many tries, and the text that it was made with.
pub proof fn law_errors_say_what_they_are_about(
    shuffle_id: i32,
    partition_id: i32,
    n: u64,
    host: String,
    port: i32,
    m: String,
    status: StatusCode,
)
    ensures
        error::error_text(CelebornError::ShuffleNotFound(shuffle_id)) == "Shuffle "@
            + text::int_text(shuffle_id as int) + " not found"@,
        error::error_text(CelebornError::PartitionNotFound { shuffle_id, partition_id })
            == "Partition "@ + text::int_text(partition_id as int) + " not found in shuffle "@
            + text::int_text(shuffle_id as int),
        error::error_text(CelebornError::ReviveFailed { shuffle_id, partition_id, status })
            == "Revive failed for shuffle "@ + text::int_text(shuffle_id as int) + " partition "@
            + text::int_text(partition_id as int) + ": "@ + error::status_name(status),
        error::error_text(CelebornError::StageEnded(shuffle_id)) == "Stage ended for shuffle "@
            + text::int_text(shuffle_id as int),
        error::error_text(CelebornError::Timeout(n)) == "RPC timeout after "@ + text::nat_text(
            n as nat,
        ) + "ms"@,
        error::error_text(CelebornError::WorkerUnavailable { host, port }) == "Worker "@ + host@
            + seq![':'] + text::int_text(port as int) + " is unavailable"@,
        error::error_text(CelebornError::ServerError { status, message: m }) == "Server error: "@
            + error::status_name(status) + " - "@ + m@,
        error::error_text(CelebornError::FetchFailed(m)) == "Fetch data failed: "@ + m@,
        error::error_text(CelebornError::PushFailed(m)) == "Push data failed: "@ + m@,
        error::error_text(CelebornError::Connection(m)) == "Connection error: "@ + m@,
        error::error_text(CelebornError::Protocol(m)) == "Protocol error: "@ + m@,
        error::error_text(CelebornError::Compression(m)) == "Compression error: "@ + m@,
        error::error_text(CelebornError::DecompressionFailed(m)) == "Decompression failed: "@ + m@,
        error::error_text(CelebornError::Config(m)) == "Configuration error: "@ + m@,
        error::error_text(CelebornError::Internal(m)) == "Internal error: "@ + m@,
{
    assert("Worker "@ + (host@ + seq![':'] + text::int_text(port as int)) =~= "Worker "@ + host@
        + seq![':'] + text::int_text(port as int));
}

} // verus!
