//! Framework-wide guarantees, stated and proved over the event histories
//! and contracts of the other modules.

use vstd::prelude::*;

use crate::TeardownEvent;
use crate::addr_map::TranslationEntry;
use crate::service::ServiceEvent;
use crate::service::ServiceState;
use crate::service::start_history_ok;
use crate::mem::DriverEvent;
use crate::mem::MapPhysicalMemoryResponse;
use crate::mem::count_map_events;
use crate::mem::count_unmap_events;
use crate::phys_mapper::failed_map_history;
use crate::phys_mapper::map_ok_events;
use crate::phys_mapper::unmap_events;
use crate::phys_ranges::PhysicalMemoryRange;
use crate::unmapped_trace;

verus! {

/// The physical interval covered by a translation-table row, as a range.
pub open spec fn interval_of(e: TranslationEntry) -> PhysicalMemoryRange {
    PhysicalMemoryRange { addr: e.phys_addr, size: e.size }
}

/// Map and unmap counts distribute over concatenated histories.
proof fn lemma_counts_concat(a: Seq<DriverEvent>, b: Seq<DriverEvent>)
    ensures
        count_map_events(a + b) == count_map_events(a) + count_map_events(b),
        count_unmap_events(a + b) == count_unmap_events(a) + count_unmap_events(b),
    decreases b.len(),
{
    if b.len() == 0 {
        assert(a + b =~= a);
    } else {
        lemma_counts_concat(a, b.drop_last());
        assert((a + b).drop_last() =~= a + b.drop_last());
        assert((a + b).last() == b.last());
    }
}

/// A history of successful map events contains one map call per mapping and
/// no unmap calls.
proof fn lemma_counts_of_map_ok(ms: Seq<MapPhysicalMemoryResponse>)
    ensures
        count_map_events(map_ok_events(ms)) == ms.len(),
        count_unmap_events(map_ok_events(ms)) == 0,
    decreases ms.len(),
{
    if ms.len() == 0 {
        assert(map_ok_events(ms) =~= Seq::<DriverEvent>::empty());
    } else {
        lemma_counts_of_map_ok(ms.drop_last());
        assert(map_ok_events(ms).drop_last() =~= map_ok_events(ms.drop_last()));
        assert(map_ok_events(ms).last() == DriverEvent::MapOk { mapping: ms.last() });
    }
}

/// A history of unmap events contains one unmap call per mapping and no map
/// calls.
proof fn lemma_counts_of_unmap(ms: Seq<MapPhysicalMemoryResponse>)
    ensures
        count_unmap_events(unmap_events(ms)) == ms.len(),
        count_map_events(unmap_events(ms)) == 0,
    decreases ms.len(),
{
    if ms.len() == 0 {
        assert(unmap_events(ms) =~= Seq::<DriverEvent>::empty());
    } else {
        lemma_counts_of_unmap(ms.drop_last());
        assert(unmap_events(ms).drop_last() =~= unmap_events(ms.drop_last()));
        assert(unmap_events(ms).last() == DriverEvent::Unmap { mapping: ms.last() });
    }
}

/// Round-trip of ranges: when a translation table has one row per range
/// whose physical start and size equal that range's — as `build` ensures for
/// every successfully mapped range list — then the physical intervals of the
/// table's rows, taken as a set, are exactly the set of ranges.
pub proof fn lemma_round_trip(table: Seq<TranslationEntry>, ranges: Seq<PhysicalMemoryRange>)
    requires
        table.len() == ranges.len(),
        forall|i: int|
            0 <= i < table.len() ==> (#[trigger] table[i]).phys_addr == ranges[i].addr
                && table[i].size == ranges[i].size,
    ensures
        table.map_values(|e: TranslationEntry| interval_of(e)) =~= ranges,
        table.map_values(|e: TranslationEntry| interval_of(e)).to_set() == ranges.to_set(),
{
    assert(table.map_values(|e: TranslationEntry| interval_of(e)) =~= ranges);
}

/// Mapping conservation: across a full cycle — every mapping established,
/// then every mapping released, as the driver history of a build-then-release
/// run shows — the number of map calls equals the number of unmap calls, and
/// every unmap call receives a mapping previously returned by a map call.
pub proof fn lemma_mapping_conservation(
    events: Seq<DriverEvent>,
    ms: Seq<MapPhysicalMemoryResponse>,
)
    requires
        events == map_ok_events(ms) + unmap_events(ms),
    ensures
        count_map_events(events) == count_unmap_events(events),
        forall|k: int|
            0 <= k < events.len() ==> ((#[trigger] events[k]) matches DriverEvent::Unmap { mapping }
                ==> exists|j: int| 0 <= j < k && events[j] == (DriverEvent::MapOk { mapping })),
{
    lemma_counts_concat(map_ok_events(ms), unmap_events(ms));
    lemma_counts_of_map_ok(ms);
    lemma_counts_of_unmap(ms);
    assert forall|k: int| 0 <= k < events.len() implies ((#[trigger] events[k]) matches
        DriverEvent::Unmap { mapping } ==> exists|j: int|
        0 <= j < k && events[j] == (DriverEvent::MapOk { mapping })) by {
        match events[k] {
            DriverEvent::Unmap { mapping } => {
                assert(k >= ms.len()) by {
                    if k < ms.len() {
                        assert(events[k] == map_ok_events(ms)[k]);
                    }
                }
                let j = k - ms.len();
                assert(events[k] == unmap_events(ms)[j]);
                assert(mapping == ms[j]);
                assert(events[j] == map_ok_events(ms)[j]);
                assert(0 <= j < k && events[j] == (DriverEvent::MapOk { mapping }));
            },
            _ => {},
        }
    }
}

/// Rollback on partial failure: when the driver accepts the first `k` ranges
/// and rejects the next one, the history that `map_ranges` leaves behind
/// holds exactly `k + 1` map calls and exactly `k` unmap calls, and the
/// values unmapped are exactly the `k` mappings just established, in reverse
/// order, before the error is surfaced.
pub proof fn lemma_rollback_on_partial_failure(
    old_events: Seq<DriverEvent>,
    new_events: Seq<DriverEvent>,
    ranges: Seq<PhysicalMemoryRange>,
    k: int,
    ms: Seq<MapPhysicalMemoryResponse>,
)
    requires
        failed_map_history(old_events, new_events, ranges, k, ms),
    ensures
        count_map_events(new_events) == count_map_events(old_events) + k + 1,
        count_unmap_events(new_events) == count_unmap_events(old_events) + k,
        new_events.skip(new_events.len() - k) == unmap_events(ms.reverse()),
{
    let failed = seq![DriverEvent::MapFailed { phys_addr: ranges[k].addr }];
    lemma_counts_concat(old_events + map_ok_events(ms) + failed, unmap_events(ms.reverse()));
    lemma_counts_concat(old_events + map_ok_events(ms), failed);
    lemma_counts_concat(old_events, map_ok_events(ms));
    lemma_counts_of_map_ok(ms);
    lemma_counts_of_unmap(ms.reverse());
    assert(count_map_events(failed) == 1 && count_unmap_events(failed) == 0) by {
        assert(failed.drop_last() =~= Seq::<DriverEvent>::empty());
        assert(count_map_events(Seq::<DriverEvent>::empty()) == 0);
        assert(count_unmap_events(Seq::<DriverEvent>::empty()) == 0);
        assert(failed.last() == (DriverEvent::MapFailed { phys_addr: ranges[k].addr }));
    }
    assert(new_events.skip(new_events.len() - k) =~= unmap_events(ms.reverse()));
}

/// Idempotent start: in the control traffic of any successful start whose
/// state query reported `Running`, the query is the only request — no start
/// control was issued.
pub proof fn lemma_idempotent_start(old_events: Seq<ServiceEvent>, new_events: Seq<ServiceEvent>)
    requires
        start_history_ok(old_events, new_events),
        new_events.len() > old_events.len(),
        new_events[old_events.len() as int] == (ServiceEvent::Queried {
            state: ServiceState::Running,
        }),
    ensures
        new_events == old_events + seq![
            ServiceEvent::Queried { state: ServiceState::Running },
        ],
{
    let st = choose|st: ServiceState|
        #![auto]
        new_events == old_events + seq![ServiceEvent::Queried { state: st }] + (if st
            == ServiceState::Running {
            Seq::<ServiceEvent>::empty()
        } else {
            seq![ServiceEvent::StartIssued]
        });
    assert(new_events[old_events.len() as int] == (ServiceEvent::Queried { state: st }));
    assert(st == ServiceState::Running);
    assert(old_events + seq![ServiceEvent::Queried { state: st }]
        + Seq::<ServiceEvent>::empty() =~= old_events + seq![
        ServiceEvent::Queried { state: ServiceState::Running },
    ]);
}

/// Teardown ordering: in the record of a final release that stopped a
/// service, every unmapping strictly precedes the stop of the service.
pub proof fn lemma_teardown_ordering(
    trace: Seq<TeardownEvent>,
    ms: Seq<MapPhysicalMemoryResponse>,
)
    requires
        trace == unmapped_trace(ms) + seq![TeardownEvent::ServiceStopped],
    ensures
        forall|i: int, j: int|
            0 <= i < trace.len() && 0 <= j < trace.len() && (#[trigger] trace[i]) is Unmapped && (
            #[trigger] trace[j]) is ServiceStopped ==> i < j,
{
    assert forall|i: int, j: int|
        0 <= i < trace.len() && 0 <= j < trace.len() && (#[trigger] trace[i]) is Unmapped && (
        #[trigger] trace[j]) is ServiceStopped implies i < j by {
        if i >= ms.len() {
            assert(trace[i] == TeardownEvent::ServiceStopped);
        }
        if j < ms.len() {
            assert(trace[j] == unmapped_trace(ms)[j]);
            assert(trace[j] is Unmapped);
        }
        assert(i < ms.len());
        assert(j == ms.len());
    }
}

} // verus!
