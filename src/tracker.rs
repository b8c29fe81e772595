//! Trackers that turn successive snapshots into history: the disk I/O of the
//! inspected process and the counters of each network interface.

use crate::ring::{clamp_to_percentile, window, Ring};
use std::collections::VecDeque;
use vstd::prelude::*;

verus! {

/// Most samples kept of the inspected process's disk reads and writes.
pub const DISK_HISTORY_LIMIT: usize = 60;

/// Capacity of each network counter history.
pub const NETWORK_HISTORY_CAPACITY: usize = 100;

/// Disk I/O counters of a process: totals and the bytes since the previous
/// refresh.
pub struct DiskUsage {
    pub total_written_bytes: u64,
    pub written_bytes: u64,
    pub total_read_bytes: u64,
    pub read_bytes: u64,
}

/// `h` with `x` appended, its oldest sample first dropped when `h` already
/// holds the most samples kept.
pub open spec fn bounded_append(h: Seq<u64>, x: u64) -> Seq<u64> {
    if h.len() >= DISK_HISTORY_LIMIT {
        h.drop_first().push(x)
    } else {
        h.push(x)
    }
}

/// Disk read and write history of the process being inspected.
pub struct SingleProcessDiskUsage {
    /// Process whose history is held.
    pub pid: u32,
    /// Bytes read per refresh, oldest first.
    pub disk_read_usage: VecDeque<u64>,
    /// Bytes written per refresh, oldest first.
    pub disk_write_usage: VecDeque<u64>,
}

impl Default for SingleProcessDiskUsage {
    fn default() -> (r: Self)
        ensures
            r.pid == 0,
            r.disk_read_usage@ == Seq::<u64>::empty(),
            r.disk_write_usage@ == Seq::<u64>::empty(),
    {
        SingleProcessDiskUsage {
            pid: 0,
            disk_read_usage: VecDeque::with_capacity(DISK_HISTORY_LIMIT),
            disk_write_usage: VecDeque::with_capacity(DISK_HISTORY_LIMIT),
        }
    }
}

/// Appends `x` to `h`, first dropping the oldest sample when `h` is full.
fn append_bounded(h: &mut VecDeque<u64>, x: u64)
    ensures
        final(h)@ == bounded_append(old(h)@, x),
{
    if h.len() >= DISK_HISTORY_LIMIT {
        h.pop_front();
        proof {
            assert(h@ =~= old(h)@.drop_first());
        }
    }
    h.push_back(x);
}

impl SingleProcessDiskUsage {
    /// Records one refresh of process `pid`. A process other than the one
    /// held starts a fresh history, so that no samples of another process
    /// are shown.
    pub fn update_disk_history(&mut self, pid: u32, disk_usage: &DiskUsage)
        ensures
            final(self).pid == pid,
            final(self).disk_read_usage@ == bounded_append(
                if pid != old(self).pid {
                    Seq::empty()
                } else {
                    old(self).disk_read_usage@
                },
                disk_usage.read_bytes,
            ),
            final(self).disk_write_usage@ == bounded_append(
                if pid != old(self).pid {
                    Seq::empty()
                } else {
                    old(self).disk_write_usage@
                },
                disk_usage.written_bytes,
            ),
    {
        if pid != self.pid {
            self.disk_read_usage.clear();
            self.disk_write_usage.clear();
            self.pid = pid;
        }
        append_bounded(&mut self.disk_read_usage, disk_usage.read_bytes);
        append_bounded(&mut self.disk_write_usage, disk_usage.written_bytes);
    }
}

/// One snapshot of a network interface: counters since the previous refresh
/// and totals since boot.
pub struct NetworkInterfaces {
    pub name: String,
    pub bytes_received: u64,
    pub bytes_transmitted: u64,
    pub packets_received: u64,
    pub packets_transmitted: u64,
    pub errors_on_received: u64,
    pub errors_on_transmitted: u64,
    pub total_bytes_received: u64,
    pub total_bytes_transmitted: u64,
    pub total_packets_received: u64,
    pub total_packets_transmitted: u64,
    pub total_errors_on_received: u64,
    pub total_errors_on_transmitted: u64,
}

/// Histories of the six per-refresh counters of one interface.
pub struct NetworkInterfaceData {
    pub received_bytes: Ring<u64, NETWORK_HISTORY_CAPACITY>,
    pub transmitted_bytes: Ring<u64, NETWORK_HISTORY_CAPACITY>,
    pub packets_received: Ring<u64, NETWORK_HISTORY_CAPACITY>,
    pub packets_transmitted: Ring<u64, NETWORK_HISTORY_CAPACITY>,
    pub errors_received: Ring<u64, NETWORK_HISTORY_CAPACITY>,
    pub errors_transmitted: Ring<u64, NETWORK_HISTORY_CAPACITY>,
}

/// What a [`NetworkInterfaceData`] holds.
pub struct InterfaceHistoryView {
    pub received_bytes: Seq<u64>,
    pub transmitted_bytes: Seq<u64>,
    pub packets_received: Seq<u64>,
    pub packets_transmitted: Seq<u64>,
    pub errors_received: Seq<u64>,
    pub errors_transmitted: Seq<u64>,
}

impl View for NetworkInterfaceData {
    type V = InterfaceHistoryView;

    open spec fn view(&self) -> InterfaceHistoryView {
        InterfaceHistoryView {
            received_bytes: self.received_bytes@,
            transmitted_bytes: self.transmitted_bytes@,
            packets_received: self.packets_received@,
            packets_transmitted: self.packets_transmitted@,
            errors_received: self.errors_received@,
            errors_transmitted: self.errors_transmitted@,
        }
    }
}

/// Every history of `h` within its capacity.
pub open spec fn history_wf(h: InterfaceHistoryView) -> bool {
    &&& h.received_bytes.len() <= NETWORK_HISTORY_CAPACITY
    &&& h.transmitted_bytes.len() <= NETWORK_HISTORY_CAPACITY
    &&& h.packets_received.len() <= NETWORK_HISTORY_CAPACITY
    &&& h.packets_transmitted.len() <= NETWORK_HISTORY_CAPACITY
    &&& h.errors_received.len() <= NETWORK_HISTORY_CAPACITY
    &&& h.errors_transmitted.len() <= NETWORK_HISTORY_CAPACITY
}

/// History `h` after a clamped push of `v`.
pub open spec fn clamped_step(h: Seq<u64>, v: u64) -> Seq<u64> {
    window(h.push(clamp_to_percentile(h, v)), NETWORK_HISTORY_CAPACITY as nat)
}

/// Histories `h` after recording snapshot `s`.
pub open spec fn record_snapshot(h: InterfaceHistoryView, s: NetworkInterfaces) -> InterfaceHistoryView {
    InterfaceHistoryView {
        received_bytes: clamped_step(h.received_bytes, s.bytes_received),
        transmitted_bytes: clamped_step(h.transmitted_bytes, s.bytes_transmitted),
        packets_received: clamped_step(h.packets_received, s.packets_received),
        packets_transmitted: clamped_step(h.packets_transmitted, s.packets_transmitted),
        errors_received: clamped_step(h.errors_received, s.errors_on_received),
        errors_transmitted: clamped_step(h.errors_transmitted, s.errors_on_transmitted),
    }
}

/// The histories of an interface not seen before.
pub open spec fn empty_history() -> InterfaceHistoryView {
    InterfaceHistoryView {
        received_bytes: Seq::empty(),
        transmitted_bytes: Seq::empty(),
        packets_received: Seq::empty(),
        packets_transmitted: Seq::empty(),
        errors_received: Seq::empty(),
        errors_transmitted: Seq::empty(),
    }
}

impl Default for NetworkInterfaceData {
    fn default() -> (r: Self)
        ensures
            r@ == empty_history(),
            history_wf(r@),
    {
        NetworkInterfaceData {
            received_bytes: Ring::new(),
            transmitted_bytes: Ring::new(),
            packets_received: Ring::new(),
            packets_transmitted: Ring::new(),
            errors_received: Ring::new(),
            errors_transmitted: Ring::new(),
        }
    }
}

impl NetworkInterfaceData {
    /// Records one snapshot: a clamped push of each of the six counters, so
    /// that a transient spike does not flatten the rest of the history.
    pub fn update_network_history(&mut self, network_data: &NetworkInterfaces)
        requires
            history_wf(old(self)@),
        ensures
            history_wf(final(self)@),
            final(self)@ == record_snapshot(old(self)@, *network_data),
    {
        self.received_bytes.push_clamped(network_data.bytes_received);
        self.transmitted_bytes.push_clamped(network_data.bytes_transmitted);
        self.packets_received.push_clamped(network_data.packets_received);
        self.packets_transmitted.push_clamped(network_data.packets_transmitted);
        self.errors_received.push_clamped(network_data.errors_on_received);
        self.errors_transmitted.push_clamped(network_data.errors_on_transmitted);
    }
}

/// Interface histories, each under its interface's name.
pub type TrackedView = Seq<(Seq<char>, InterfaceHistoryView)>;

/// Position of the last entry named `name`, if any.
pub open spec fn find_name(entries: TrackedView, name: Seq<char>) -> Option<int>
    decreases entries.len(),
{
    if entries.len() == 0 {
        None
    } else if entries.last().0 == name {
        Some(entries.len() - 1)
    } else {
        find_name(entries.drop_last(), name)
    }
}

/// No interface name occurs twice.
pub open spec fn names_unique(entries: TrackedView) -> bool {
    forall|i: int, j: int| 0 <= i < j < entries.len() ==> entries[i].0 != entries[j].0
}

/// No entry is named `name` when the search finds none.
pub proof fn lemma_find_name_absent(entries: TrackedView, name: Seq<char>)
    requires
        find_name(entries, name) is None,
    ensures
        forall|i: int| 0 <= i < entries.len() ==> entries[i].0 != name,
    decreases entries.len(),
{
    if entries.len() > 0 {
        let init = entries.drop_last();
        lemma_find_name_absent(init, name);
        assert forall|i: int| 0 <= i < entries.len() implies entries[i].0 != name by {
            if i < init.len() {
                assert(entries[i] == init[i]);
            }
        }
    }
}

/// Recording a snapshot keeps the names unique.
pub proof fn lemma_apply_snapshot_unique(entries: TrackedView, s: NetworkInterfaces)
    requires
        names_unique(entries),
    ensures
        names_unique(apply_snapshot(entries, s)),
{
    lemma_find_name(entries, s.name@);
    if find_name(entries, s.name@) is None {
        lemma_find_name_absent(entries, s.name@);
    }
}

/// Recording any sequence of snapshots keeps the names unique: each
/// interface has one history.
pub proof fn lemma_apply_all_unique(entries: TrackedView, snaps: Seq<NetworkInterfaces>)
    requires
        names_unique(entries),
    ensures
        names_unique(apply_all(entries, snaps)),
    decreases snaps.len(),
{
    if snaps.len() > 0 {
        lemma_apply_all_unique(entries, snaps.drop_last());
        lemma_apply_snapshot_unique(apply_all(entries, snaps.drop_last()), snaps.last());
    }
}

/// Every interface's histories within their capacity.
pub open spec fn histories_wf(entries: TrackedView) -> bool {
    forall|i: int| 0 <= i < entries.len() ==> history_wf(#[trigger] entries[i].1)
}

/// Recording a snapshot keeps every history within its capacity.
pub proof fn lemma_apply_snapshot_wf(entries: TrackedView, s: NetworkInterfaces)
    requires
        histories_wf(entries),
    ensures
        histories_wf(apply_snapshot(entries, s)),
{
    lemma_find_name(entries, s.name@);
}

/// A found position holds an entry of that name.
pub proof fn lemma_find_name(entries: TrackedView, name: Seq<char>)
    ensures
        find_name(entries, name) matches Some(i) ==> 0 <= i < entries.len() && entries[i].0
            == name,
    decreases entries.len(),
{
    if entries.len() > 0 {
        lemma_find_name(entries.drop_last(), name);
    }
}

/// `entries` after snapshot `s`: the entry named like `s` records it, and an
/// interface seen for the first time gets an entry at the end.
pub open spec fn apply_snapshot(entries: TrackedView, s: NetworkInterfaces) -> TrackedView {
    match find_name(entries, s.name@) {
        Some(i) => entries.update(i, (s.name@, record_snapshot(entries[i].1, s))),
        None => entries.push((s.name@, record_snapshot(empty_history(), s))),
    }
}

/// `entries` after the snapshots of `snaps`, in order.
pub open spec fn apply_all(entries: TrackedView, snaps: Seq<NetworkInterfaces>) -> TrackedView
    decreases snaps.len(),
{
    if snaps.len() == 0 {
        entries
    } else {
        apply_snapshot(apply_all(entries, snaps.drop_last()), snaps.last())
    }
}

/// Network histories of every interface seen so far, keyed by name. An
/// interface missing from a snapshot keeps its history unchanged; none is
/// ever dropped.
pub struct NetworkTracker {
    interfaces: Vec<(String, NetworkInterfaceData)>,
}

impl View for NetworkTracker {
    type V = TrackedView;

    closed spec fn view(&self) -> TrackedView {
        self.interfaces@.map_values(|e: (String, NetworkInterfaceData)| (e.0@, e.1@))
    }
}

impl NetworkTracker {
    /// A tracker that has seen no interface.
    pub fn new() -> (r: Self)
        ensures
            r@ == Seq::<(Seq<char>, InterfaceHistoryView)>::empty(),
            names_unique(r@),
            histories_wf(r@),
    {
        let r = NetworkTracker { interfaces: Vec::new() };
        assert(r@ =~= Seq::<(Seq<char>, InterfaceHistoryView)>::empty());
        r
    }

    /// Number of interfaces seen so far.
    pub fn len(&self) -> (r: usize)
        ensures
            r == self@.len(),
    {
        self.interfaces.len()
    }

    /// Position of the entry named `name`, if any.
    fn position(&self, name: &String) -> (r: Option<usize>)
        ensures
            r matches Some(i) ==> find_name(self@, name@) == Some(i as int),
            r is None ==> find_name(self@, name@) is None,
    {
        let ghost entries = self@;
        let mut i = self.interfaces.len();
        assert(entries.subrange(0, i as int) =~= entries);
        while i > 0
            invariant
                entries == self@,
                i <= entries.len(),
                find_name(entries, name@) == find_name(entries.subrange(0, i as int), name@),
            decreases i,
        {
            proof {
                let sub = entries.subrange(0, i as int);
                assert(sub.drop_last() =~= entries.subrange(0, i - 1));
                assert(sub.last() == entries[i - 1]);
            }
            if self.interfaces[i - 1].0 == *name {
                return Some(i - 1);
            }
            i = i - 1;
        }
        None
    }

    /// The histories of interface `name`, if it has been seen.
    pub fn history(&self, name: &String) -> (r: Option<&NetworkInterfaceData>)
        ensures
            r matches Some(d) ==> find_name(self@, name@) matches Some(i) && self@[i].1 == d@,
            r is None ==> find_name(self@, name@) is None,
    {
        proof {
            lemma_find_name(self@, name@);
        }
        match self.position(name) {
            Some(i) => Some(&self.interfaces[i].1),
            None => None,
        }
    }

    /// Records one interface snapshot under the interface's name, creating
    /// empty histories for an interface seen for the first time.
    pub fn record(&mut self, snapshot: &NetworkInterfaces)
        requires
            histories_wf(old(self)@),
        ensures
            histories_wf(final(self)@),
            final(self)@ == apply_snapshot(old(self)@, *snapshot),
            names_unique(old(self)@) ==> names_unique(final(self)@),
    {
        proof {
            if names_unique(self@) {
                lemma_apply_snapshot_unique(self@, *snapshot);
            }
            lemma_apply_snapshot_wf(self@, *snapshot);
        }
        let ghost before = self@;
        proof {
            lemma_find_name(before, snapshot.name@);
        }
        match self.position(&snapshot.name) {
            Some(i) => {
                assert(history_wf(before[i as int].1));
                let (name, mut data) = self.interfaces.remove(i);
                data.update_network_history(snapshot);
                self.interfaces.insert(i, (name, data));
                assert(self@ =~= before.update(
                    i as int,
                    (snapshot.name@, record_snapshot(before[i as int].1, *snapshot)),
                ));
            },
            None => {
                let mut data = NetworkInterfaceData::default();
                data.update_network_history(snapshot);
                self.interfaces.push((snapshot.name.clone(), data));
                assert(self@ =~= before.push(
                    (snapshot.name@, record_snapshot(empty_history(), *snapshot)),
                ));
            },
        }
    }

    /// Records every interface of one refresh, in order.
    pub fn update(&mut self, snapshot: &Vec<NetworkInterfaces>)
        requires
            histories_wf(old(self)@),
        ensures
            histories_wf(final(self)@),
            final(self)@ == apply_all(old(self)@, snapshot@),
            names_unique(old(self)@) ==> names_unique(final(self)@),
    {
        proof {
            if names_unique(self@) {
                lemma_apply_all_unique(self@, snapshot@);
            }
        }
        let mut i: usize = 0;
        assert(snapshot@.subrange(0, 0) =~= Seq::<NetworkInterfaces>::empty());
        while i < snapshot.len()
            invariant
                i <= snapshot@.len(),
                histories_wf(self@),
                self@ == apply_all(old(self)@, snapshot@.subrange(0, i as int)),
            decreases snapshot@.len() - i,
        {
            self.record(&snapshot[i]);
            proof {
                let sub = snapshot@.subrange(0, i + 1);
                assert(sub.drop_last() =~= snapshot@.subrange(0, i as int));
                assert(sub.last() == snapshot@[i as int]);
            }
            i = i + 1;
        }
        assert(snapshot@.subrange(0, i as int) =~= snapshot@);
    }
}

} // verus!
