use vstd::prelude::*;

use crate::diagnostics::last_n;
use crate::error::{fresh_error_id, unix_time_secs, ErrorContext};
use crate::text::str_eq;

verus! {

/// Settings of the store of failed operations; times in seconds.
#[derive(Debug, Clone)]
pub struct DeadLetterConfig {
    pub max_size: usize,
    pub retention_period_secs: u64,
    pub persist_to_disk: bool,
    pub persistence_path: Option<String>,
    pub cleanup_interval_secs: u64,
}

impl Default for DeadLetterConfig {
    fn default() -> (r: Self)
        ensures
            r.max_size == 1000,
            r.retention_period_secs == 86_400,
            !r.persist_to_disk,
            r.persistence_path is None,
            r.cleanup_interval_secs == 3600,
    {
        DeadLetterConfig {
            max_size: 1000,
            retention_period_secs: 86_400,
            persist_to_disk: false,
            persistence_path: None,
            cleanup_interval_secs: 3600,
        }
    }
}

/// Counts over the stored failed operations.
#[derive(Debug, Clone)]
pub struct DeadLetterStats {
    pub total_count: usize,
    pub by_component: Vec<(String, usize)>,
    pub by_operation: Vec<(String, usize)>,
    pub oldest_timestamp: Option<u64>,
    pub newest_timestamp: Option<u64>,
    pub total_retry_attempts: u32,
}

/// An operation that failed for good, kept for inspection or manual retry.
/// Times are seconds since the epoch; `request_data` is the request as JSON text.
#[derive(Debug, Clone)]
pub struct FailedOperation {
    pub id: String,
    pub original_timestamp: u64,
    pub failed_timestamp: u64,
    pub operation: String,
    pub component: String,
    pub retry_count: u32,
    pub error_context: ErrorContext,
    pub request_data: String,
    pub failure_reason: String,
    pub can_retry: bool,
}

impl FailedOperation {
    /// A record with a fresh identifier, stamped with the current time.
    pub fn new(
        operation: &str,
        component: &str,
        retry_count: u32,
        error_context: ErrorContext,
        request_data: String,
        failure_reason: &str,
    ) -> (r: Self)
        ensures
            r.id@.len() == 36,
            r.original_timestamp == r.failed_timestamp,
            r.operation@ == operation@,
            r.component@ == component@,
            r.retry_count == retry_count,
            r.error_context == error_context,
            r.request_data == request_data,
            r.failure_reason@ == failure_reason@,
            r.can_retry,
    {
        let now = unix_time_secs();
        FailedOperation {
            id: fresh_error_id(),
            original_timestamp: now,
            failed_timestamp: now,
            operation: String::from_str(operation),
            component: String::from_str(component),
            retry_count,
            error_context,
            request_data,
            failure_reason: String::from_str(failure_reason),
            can_retry: true,
        }
    }
}

/// Failed operations, oldest first, bounded in number.
#[derive(Debug)]
pub struct DeadLetterQueue {
    config: DeadLetterConfig,
    queue: Vec<FailedOperation>,
}

pub open spec fn op_derefs(s: Seq<&FailedOperation>) -> Seq<FailedOperation> {
    s.map_values(|e: &FailedOperation| *e)
}

/// Operations of `component`.
pub open spec fn of_component(component: Seq<char>) -> spec_fn(FailedOperation) -> bool {
    |op: FailedOperation| op.component@ == component
}

/// Operations of type `operation`.
pub open spec fn of_operation(operation: Seq<char>) -> spec_fn(FailedOperation) -> bool {
    |op: FailedOperation| op.operation@ == operation
}

/// The oldest point in time still kept at `now`: operations that failed at or
/// before it have expired.
pub open spec fn retention_cutoff(now: u64, retention: u64) -> u64 {
    if now >= retention {
        (now - retention) as u64
    } else {
        0
    }
}

/// Equal to `key`.
pub open spec fn same_name(key: Seq<char>) -> spec_fn(Seq<char>) -> bool {
    |n: Seq<char>| n == key
}

/// How many of `names` equal `key`.
pub open spec fn occurrences(names: Seq<Seq<char>>, key: Seq<char>) -> nat {
    names.filter(same_name(key)).len()
}

/// `entries` counts `names`: one entry per distinct name, each with its number
/// of occurrences.
pub open spec fn is_tally(entries: Seq<(Seq<char>, usize)>, names: Seq<Seq<char>>) -> bool {
    &&& forall|i: int, j: int|
        0 <= i < j < entries.len() ==> (#[trigger] entries[i]).0 != (#[trigger] entries[j]).0
    &&& forall|i: int|
        0 <= i < entries.len() ==> (#[trigger] entries[i]).1 == occurrences(names, entries[i].0)
    &&& forall|k: int| 0 <= k < names.len() ==> has_entry(entries, #[trigger] names[k])
}

/// Some entry carries `name`.
pub open spec fn has_entry(entries: Seq<(Seq<char>, usize)>, name: Seq<char>) -> bool {
    exists|i: int| 0 <= i < entries.len() && (#[trigger] entries[i]).0 == name
}

pub open spec fn count_view(v: Seq<(String, usize)>) -> Seq<(Seq<char>, usize)> {
    v.map_values(|e: (String, usize)| (e.0@, e.1))
}

pub open spec fn component_names(s: Seq<FailedOperation>) -> Seq<Seq<char>> {
    s.map_values(|op: FailedOperation| op.component@)
}

pub open spec fn operation_names(s: Seq<FailedOperation>) -> Seq<Seq<char>> {
    s.map_values(|op: FailedOperation| op.operation@)
}

/// The earliest failure time of the first `n` operations.
pub open spec fn oldest_of(s: Seq<FailedOperation>, n: nat) -> Option<u64>
    decreases n,
{
    if n == 0 || n > s.len() {
        None
    } else {
        match oldest_of(s, (n - 1) as nat) {
            None => Some(s[n - 1].failed_timestamp),
            Some(t) => Some(if s[n - 1].failed_timestamp < t {
                s[n - 1].failed_timestamp
            } else {
                t
            }),
        }
    }
}

/// The latest failure time of the first `n` operations.
pub open spec fn newest_of(s: Seq<FailedOperation>, n: nat) -> Option<u64>
    decreases n,
{
    if n == 0 || n > s.len() {
        None
    } else {
        match newest_of(s, (n - 1) as nat) {
            None => Some(s[n - 1].failed_timestamp),
            Some(t) => Some(if s[n - 1].failed_timestamp > t {
                s[n - 1].failed_timestamp
            } else {
                t
            }),
        }
    }
}

/// The retries of the first `n` operations added up, held at `u32::MAX`.
pub open spec fn retries_of(s: Seq<FailedOperation>, n: nat) -> u32
    decreases n,
{
    if n == 0 || n > s.len() {
        0
    } else {
        let t = retries_of(s, (n - 1) as nat) + s[n - 1].retry_count;
        if t > u32::MAX {
            u32::MAX
        } else {
            t as u32
        }
    }
}

proof fn lemma_occurrences_push(names: Seq<Seq<char>>, x: Seq<char>, key: Seq<char>)
    ensures
        occurrences(names.push(x), key) == occurrences(names, key) + (if x == key {
            1nat
        } else {
            0nat
        }),
{
    reveal(Seq::filter);
    assert(names.push(x).drop_last() =~= names);
}

proof fn lemma_occurrences_bound(names: Seq<Seq<char>>, key: Seq<char>)
    ensures
        occurrences(names, key) <= names.len(),
{
    names.lemma_filter_len(same_name(key));
}

/// A name that no entry of a tally carries has not occurred.
proof fn lemma_absent_from_tally(t: Seq<(Seq<char>, usize)>, names: Seq<Seq<char>>, x: Seq<char>)
    requires
        is_tally(t, names),
        forall|j: int| 0 <= j < t.len() ==> (#[trigger] t[j]).0 != x,
    ensures
        occurrences(names, x) == 0,
{
    assert forall|k: int| 0 <= k < names.len() implies #[trigger] names[k] != x by {
        assert(has_entry(t, names[k]));
        let j = choose|j: int| 0 <= j < t.len() && (#[trigger] t[j]).0 == names[k];
        assert(t[j].0 != x);
    }
    names.lemma_all_neg_filter_empty(same_name(x));
}

/// Counts one more occurrence of `name` in `entries`.
fn tally_one(entries: &mut Vec<(String, usize)>, name: &String, names: Ghost<Seq<Seq<char>>>)
    requires
        is_tally(count_view(old(entries)@), names@),
        names@.len() < usize::MAX,
    ensures
        is_tally(count_view(final(entries)@), names@.push(name@)),
{
    let ghost t = count_view(entries@);
    let ghost nx = names@.push(name@);
    let mut i: usize = 0;
    while i < entries.len()
        invariant
            i <= entries@.len(),
            t == count_view(entries@),
            entries@ == old(entries)@,
            is_tally(t, names@),
            names@.len() < usize::MAX,
            nx == names@.push(name@),
            forall|j: int| 0 <= j < i ==> (#[trigger] t[j]).0 != name@,
        decreases entries@.len() - i,
    {
        if str_eq(entries[i].0.as_str(), name.as_str()) {
            let c = entries[i].1;
            proof {
                assert(is_tally(t, names@));
                assert(t[i as int] == (entries@[i as int].0@, entries@[i as int].1));
                assert(t[i as int].0 == name@);
                assert(c == occurrences(names@, name@));
                lemma_occurrences_bound(names@, name@);
            }
            let key = entries[i].0.clone();
            entries.set(i, (key, c + 1));
            proof {
                let nt = count_view(entries@);
                assert(nt =~= t.update(i as int, (name@, (c + 1) as usize)));
                assert forall|a: int, b: int| 0 <= a < b < nt.len() implies (#[trigger] nt[a]).0 != (
                #[trigger] nt[b]).0 by {
                    assert(t[a].0 != t[b].0);
                }
                assert forall|j: int| 0 <= j < nt.len() implies (#[trigger] nt[j]).1 == occurrences(
                    nx,
                    nt[j].0,
                ) by {
                    lemma_occurrences_push(names@, name@, nt[j].0);
                    if j != i {
                        assert(nt[j] == t[j]);
                        if j < i {
                            assert(t[j].0 != t[i as int].0);
                        } else {
                            assert(t[i as int].0 != t[j].0);
                        }
                    }
                }
                assert forall|k: int| 0 <= k < nx.len() implies has_entry(nt, #[trigger] nx[k]) by {
                    if k < names@.len() {
                        assert(nx[k] == names@[k]);
                        assert(has_entry(t, names@[k]));
                        let j = choose|j: int| 0 <= j < t.len() && (#[trigger] t[j]).0 == names@[k];
                        assert(nt[j].0 == t[j].0);
                    } else {
                        assert(nt[i as int].0 == nx[k]);
                    }
                }
            }
            return;
        }
        i = i + 1;
    }
    proof {
        lemma_absent_from_tally(t, names@, name@);
    }
    entries.push((name.clone(), 1));
    proof {
        let nt = count_view(entries@);
        assert(nt =~= t.push((name@, 1usize)));
        assert forall|a: int, b: int| 0 <= a < b < nt.len() implies (#[trigger] nt[a]).0 != (
        #[trigger] nt[b]).0 by {
            if b < t.len() {
                assert(t[a].0 != t[b].0);
            } else {
                assert(t[a].0 != name@);
            }
        }
        assert forall|j: int| 0 <= j < nt.len() implies (#[trigger] nt[j]).1 == occurrences(
            nx,
            nt[j].0,
        ) by {
            lemma_occurrences_push(names@, name@, nt[j].0);
            if j < t.len() {
                assert(nt[j] == t[j]);
                assert(t[j].0 != name@);
            }
        }
        assert forall|k: int| 0 <= k < nx.len() implies has_entry(nt, #[trigger] nx[k]) by {
            if k < names@.len() {
                assert(nx[k] == names@[k]);
                assert(has_entry(t, names@[k]));
                let j = choose|j: int| 0 <= j < t.len() && (#[trigger] t[j]).0 == names@[k];
                assert(nt[j].0 == t[j].0);
            } else {
                assert(nt[t.len() as int].0 == nx[k]);
            }
        }
    }
}

impl DeadLetterQueue {
    pub closed spec fn operations(&self) -> Seq<FailedOperation> {
        self.queue@
    }

    pub closed spec fn settings(&self) -> DeadLetterConfig {
        self.config
    }

    pub fn new(config: DeadLetterConfig) -> (r: Self)
        ensures
            r.operations().len() == 0,
            r.settings() == config,
    {
        DeadLetterQueue { config, queue: Vec::new() }
    }

    /// Stores a failed operation, dropping the oldest ones to stay within the
    /// size bound; with a bound of zero nothing is stored.
    pub fn add_failed_operation(&mut self, failed_operation: FailedOperation)
        ensures
            final(self).settings() == old(self).settings(),
            old(self).settings().max_size == 0 ==> final(self).operations() == old(self).operations(),
            old(self).settings().max_size > 0 ==> final(self).operations() == last_n(
                old(self).operations().push(failed_operation),
                old(self).settings().max_size as nat,
            ),
    {
        let max = self.config.max_size;
        if max == 0 {
            return;
        }
        let ghost q = self.queue@;
        let ghost dropped: int = 0;
        while self.queue.len() >= max
            invariant
                max == self.config.max_size,
                max > 0,
                self.config == old(self).config,
                q == old(self).queue@,
                0 <= dropped <= q.len(),
                dropped == 0 || q.len() - dropped >= max - 1,
                self.queue@ == q.skip(dropped),
            decreases self.queue@.len(),
        {
            let _ = self.queue.remove(0);
            proof {
                assert(q.skip(dropped).remove(0) =~= q.skip(dropped + 1));
                dropped = dropped + 1;
            }
        }
        self.queue.push(failed_operation);
        proof {
            let full = q.push(failed_operation);
            if full.len() > max {
                assert(self.queue@ =~= full.skip(full.len() - max));
            } else {
                assert(dropped == 0);
                assert(self.queue@ =~= full);
            }
        }
    }

    /// Removes and returns the first stored operation with this identifier.
    pub fn remove_failed_operation(&mut self, id: &str) -> (r: Option<FailedOperation>)
        ensures
            final(self).settings() == old(self).settings(),
            r is None <==> forall|k: int|
                0 <= k < old(self).operations().len() ==> (#[trigger] old(self).operations()[k]).id@
                    != id@,
            r is None ==> final(self).operations() == old(self).operations(),
            r is Some ==> exists|k: int|
                0 <= k < old(self).operations().len() && old(self).operations()[k].id@ == id@ && (
                forall|j: int| 0 <= j < k ==> (#[trigger] old(self).operations()[j]).id@ != id@)
                    && r == Some(old(self).operations()[k]) && final(self).operations() == old(
                    self,
                ).operations().remove(k),
    {
        let mut i: usize = 0;
        while i < self.queue.len()
            invariant
                i <= self.queue@.len(),
                self.queue@ == old(self).queue@,
                self.config == old(self).config,
                forall|j: int| 0 <= j < i ==> (#[trigger] self.queue@[j]).id@ != id@,
            decreases self.queue@.len() - i,
        {
            if str_eq(self.queue[i].id.as_str(), id) {
                let op = self.queue.remove(i);
                return Some(op);
            }
            i = i + 1;
        }
        None
    }

    /// Drops the operations whose retention period has passed at `now`, and
    /// says how many went.
    pub fn cleanup_expired(&mut self, now: u64) -> (r: usize)
        ensures
            final(self).settings() == old(self).settings(),
            final(self).operations() == old(self).operations().filter(
                |op: FailedOperation|
                    op.failed_timestamp > retention_cutoff(now, old(self).settings().retention_period_secs),
            ),
            r == old(self).operations().len() - final(self).operations().len(),
    {
        let cutoff: u64 = if now >= self.config.retention_period_secs {
            now - self.config.retention_period_secs
        } else {
            0
        };
        let ghost pred = |op: FailedOperation| op.failed_timestamp > cutoff;
        let ghost q = self.queue@;
        let mut old_ops: Vec<FailedOperation> = Vec::new();
        std::mem::swap(&mut old_ops, &mut self.queue);
        let n = old_ops.len();
        let mut k: usize = 0;
        while k < n
            invariant
                k <= n,
                n == q.len(),
                old_ops@ == q.skip(k as int),
                self.queue@ == q.take(k as int).filter(pred),
                self.config == old(self).config,
                pred == (|op: FailedOperation| op.failed_timestamp > cutoff),
                cutoff == retention_cutoff(now, self.config.retention_period_secs),
            decreases n - k,
        {
            let op = old_ops.remove(0);
            proof {
                assert(q.skip(k as int).remove(0) =~= q.skip(k + 1));
                assert(q.take(k + 1).drop_last() =~= q.take(k as int));
                reveal(Seq::filter);
            }
            if op.failed_timestamp > cutoff {
                self.queue.push(op);
            }
            k = k + 1;
        }
        proof {
            assert(q.take(n as int) =~= q);
            q.lemma_filter_len(pred);
        }
        n - self.queue.len()
    }

    /// Number of stored operations.
    pub fn len(&self) -> (r: usize)
        ensures
            r == self.operations().len(),
    {
        self.queue.len()
    }

    /// The stored operations of a component, oldest first.
    pub fn get_failed_operations_by_component(&self, component: &str) -> (r: Vec<&FailedOperation>)
        ensures
            op_derefs(r@) == self.operations().filter(of_component(component@)),
    {
        let ghost q = self.queue@;
        let mut out: Vec<&FailedOperation> = Vec::new();
        let mut i: usize = 0;
        while i < self.queue.len()
            invariant
                i <= q.len(),
                q == self.queue@,
                op_derefs(out@) == q.take(i as int).filter(of_component(component@)),
            decreases q.len() - i,
        {
            let op = &self.queue[i];
            proof {
                assert(q.take(i + 1).drop_last() =~= q.take(i as int));
                reveal(Seq::filter);
            }
            let ghost before = out@;
            if str_eq(op.component.as_str(), component) {
                out.push(op);
                assert(op_derefs(out@) =~= op_derefs(before).push(*op));
            }
            i = i + 1;
        }
        assert(q.take(q.len() as int) =~= q);
        out
    }

    /// The stored operations of one type, oldest first.
    pub fn get_failed_operations_by_type(&self, operation: &str) -> (r: Vec<&FailedOperation>)
        ensures
            op_derefs(r@) == self.operations().filter(of_operation(operation@)),
    {
        let ghost q = self.queue@;
        let mut out: Vec<&FailedOperation> = Vec::new();
        let mut i: usize = 0;
        while i < self.queue.len()
            invariant
                i <= q.len(),
                q == self.queue@,
                op_derefs(out@) == q.take(i as int).filter(of_operation(operation@)),
            decreases q.len() - i,
        {
            let op = &self.queue[i];
            proof {
                assert(q.take(i + 1).drop_last() =~= q.take(i as int));
                reveal(Seq::filter);
            }
            let ghost before = out@;
            if str_eq(op.operation.as_str(), operation) {
                out.push(op);
                assert(op_derefs(out@) =~= op_derefs(before).push(*op));
            }
            i = i + 1;
        }
        assert(q.take(q.len() as int) =~= q);
        out
    }

    /// The stored operations, oldest first.
    pub fn failed_operations(&self) -> (r: &[FailedOperation])
        ensures
            r@ == self.operations(),
    {
        self.queue.as_slice()
    }
}

impl DeadLetterQueue {
    /// Counts over the stored operations: by component and by operation, the
    /// earliest and latest failure times, and the retries made.
    pub fn get_statistics(&self) -> (r: DeadLetterStats)
        ensures
            r.total_count == self.operations().len(),
            is_tally(count_view(r.by_component@), component_names(self.operations())),
            is_tally(count_view(r.by_operation@), operation_names(self.operations())),
            r.oldest_timestamp == oldest_of(self.operations(), self.operations().len()),
            r.newest_timestamp == newest_of(self.operations(), self.operations().len()),
            r.total_retry_attempts == retries_of(self.operations(), self.operations().len()),
    {
        let ghost q = self.queue@;
        let mut by_component: Vec<(String, usize)> = Vec::new();
        let mut by_operation: Vec<(String, usize)> = Vec::new();
        let mut oldest: Option<u64> = None;
        let mut newest: Option<u64> = None;
        let mut retries: u32 = 0;
        let mut i: usize = 0;
        proof {
            assert(component_names(q).take(0) =~= Seq::<Seq<char>>::empty());
            assert(operation_names(q).take(0) =~= Seq::<Seq<char>>::empty());
        }
        while i < self.queue.len()
            invariant
                i <= q.len(),
                q == self.queue@,
                is_tally(count_view(by_component@), component_names(q).take(i as int)),
                is_tally(count_view(by_operation@), operation_names(q).take(i as int)),
                oldest == oldest_of(q, i as nat),
                newest == newest_of(q, i as nat),
                retries == retries_of(q, i as nat),
            decreases q.len() - i,
        {
            let op = &self.queue[i];
            proof {
                assert(component_names(q).take(i + 1) =~= component_names(q).take(i as int).push(
                    op.component@,
                ));
                assert(operation_names(q).take(i + 1) =~= operation_names(q).take(i as int).push(
                    op.operation@,
                ));
            }
            tally_one(&mut by_component, &op.component, Ghost(component_names(q).take(i as int)));
            tally_one(&mut by_operation, &op.operation, Ghost(operation_names(q).take(i as int)));
            let t = op.failed_timestamp;
            oldest = match oldest {
                None => Some(t),
                Some(o) => Some(if t < o {
                    t
                } else {
                    o
                }),
            };
            newest = match newest {
                None => Some(t),
                Some(o) => Some(if t > o {
                    t
                } else {
                    o
                }),
            };
            retries = retries.saturating_add(op.retry_count);
            i = i + 1;
        }
        proof {
            assert(component_names(q).take(q.len() as int) =~= component_names(q));
            assert(operation_names(q).take(q.len() as int) =~= operation_names(q));
        }
        DeadLetterStats {
            total_count: self.queue.len(),
            by_component,
            by_operation,
            oldest_timestamp: oldest,
            newest_timestamp: newest,
            total_retry_attempts: retries,
        }
    }
}

} // verus!
