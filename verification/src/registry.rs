//! Leases of running capture agents: the record an agent keeps fresh while
//! it runs, which leases count as alive, and how many agents capture each
//! target.

use vstd::prelude::*;

use crate::protocol::{target_key, AgentLease, AgentState, NativeTarget, PROTOCOL_VERSION};
use crate::runner::{extension_of, file_extension};

verus! {

broadcast use vstd::string::group_string_axioms;

/// Whether a file of the agents directory named `name` holds a lease: its
/// extension is `json`.
pub open spec fn is_lease_file_name(name: Seq<char>) -> bool {
    file_extension(name) == Some(seq!['j', 's', 'o', 'n'])
}

/// Whether the file named `name` holds a lease; see
/// [`is_lease_file_name`].
pub fn is_lease_file(name: &str) -> (lease: bool)
    ensures
        lease == is_lease_file_name(name@),
{
    match extension_of(name) {
        None => false,
        Some(extension) => {
            let expected = "json".to_string();
            proof {
                reveal_strlit("json");
                assert(expected@ =~= seq!['j', 's', 'o', 'n']);
            }
            extension.eq(&expected)
        },
    }
}

/// A lease whose heartbeat is older than this many milliseconds is stale.
pub const STALE_AFTER_MS: u64 = 6_000;

/// The lease of one running agent and the name of the file it is kept in.
pub struct LeaseGuard {
    file_name: String,
    lease: AgentLease,
}

impl LeaseGuard {
    /// The lease as it stands.
    pub closed spec fn lease_spec(&self) -> AgentLease {
        self.lease
    }

    /// The file name of the lease inside the agents directory.
    pub closed spec fn file_name_spec(&self) -> Seq<char> {
        self.file_name@
    }

    /// The lease of an agent that is starting to capture `target` for
    /// `job_id` into `output_directory`, kept in `{agent_id}.json`.
    pub fn new(
        agent_id: String,
        job_id: String,
        target: NativeTarget,
        output_directory: String,
        pid: u32,
        now_unix_ms: u64,
    ) -> (guard: Self)
        ensures
            guard.file_name_spec() == agent_id@ + seq!['.', 'j', 's', 'o', 'n'],
            guard.lease_spec().schema_version == PROTOCOL_VERSION,
            guard.lease_spec().agent_id == agent_id,
            guard.lease_spec().job_id == job_id,
            guard.lease_spec().pid == pid,
            guard.lease_spec().target_key@ == target_key(target.kind@, target.value@),
            guard.lease_spec().target == target,
            guard.lease_spec().output_directory == output_directory,
            guard.lease_spec().state == AgentState::Starting,
            guard.lease_spec().started_at_unix_ms == now_unix_ms,
            guard.lease_spec().heartbeat_at_unix_ms == now_unix_ms,
            guard.lease_spec().segments == 0,
            guard.lease_spec().recorded_duration_ms == 0,
    {
        let mut file_name = agent_id.clone();
        file_name.append(".json");
        proof {
            reveal_strlit(".json");
            assert(file_name@ =~= agent_id@ + seq!['.', 'j', 's', 'o', 'n']);
        }
        let target_key = target.key();
        LeaseGuard {
            file_name,
            lease: AgentLease {
                schema_version: PROTOCOL_VERSION,
                agent_id,
                job_id,
                pid,
                target_key,
                target,
                output_directory,
                state: AgentState::Starting,
                started_at_unix_ms: now_unix_ms,
                heartbeat_at_unix_ms: now_unix_ms,
                segments: 0,
                recorded_duration_ms: 0,
            },
        }
    }

    /// Records the agent's state and progress with a heartbeat at `now_unix_ms`.
    pub fn update(&mut self, state: AgentState, segments: u64, duration_ms: u64, now_unix_ms: u64)
        ensures
            final(self).lease_spec() == (AgentLease {
                state,
                segments,
                recorded_duration_ms: duration_ms,
                heartbeat_at_unix_ms: now_unix_ms,
                ..old(self).lease_spec()
            }),
            final(self).file_name_spec() == old(self).file_name_spec(),
    {
        self.lease.state = state;
        self.lease.segments = segments;
        self.lease.recorded_duration_ms = duration_ms;
        self.lease.heartbeat_at_unix_ms = now_unix_ms;
    }

    /// The lease as it stands, to be written to disk.
    pub fn lease(&self) -> (lease: &AgentLease)
        ensures
            *lease == self.lease_spec(),
    {
        &self.lease
    }

    /// The file name of the lease inside the agents directory.
    pub fn file_name(&self) -> (name: &String)
        ensures
            name@ == self.file_name_spec(),
    {
        &self.file_name
    }
}

/// Whether a lease's heartbeat is at most [`STALE_AFTER_MS`] old at
/// `now_ms`; a heartbeat from the future counts as fresh.
pub open spec fn is_fresh(lease: AgentLease, now_ms: u64) -> bool {
    (if now_ms >= lease.heartbeat_at_unix_ms {
        now_ms - lease.heartbeat_at_unix_ms
    } else {
        0
    }) <= STALE_AFTER_MS
}

/// The fresh leases among `leases`, in order.
pub open spec fn fresh_only(leases: Seq<AgentLease>, now_ms: u64) -> Seq<AgentLease>
    decreases leases.len(),
{
    if leases.len() == 0 {
        Seq::empty()
    } else {
        let earlier = fresh_only(leases.drop_last(), now_ms);
        if is_fresh(leases.last(), now_ms) {
            earlier.push(leases.last())
        } else {
            earlier
        }
    }
}

/// A lease stays alive exactly while its heartbeat is at most six seconds
/// old (a heartbeat from the future counts as zero old), whatever its state
/// or its other fields: the fresh leases are the leases so filtered, in
/// their order.
pub proof fn lemma_freshness_is_heartbeat_age(leases: Seq<AgentLease>, now_ms: u64)
    ensures
        fresh_only(leases, now_ms) == leases.filter(
            |lease: AgentLease|
                (if now_ms >= lease.heartbeat_at_unix_ms {
                    now_ms - lease.heartbeat_at_unix_ms
                } else {
                    0
                }) <= 6000,
        ),
    decreases leases.len(),
{
    reveal_with_fuel(Seq::filter, 1);
    if leases.len() > 0 {
        lemma_freshness_is_heartbeat_age(leases.drop_last(), now_ms);
    }
}

/// Keeps the leases that are still fresh at `now_ms`.
pub fn fresh_leases(leases: Vec<AgentLease>, now_ms: u64) -> (fresh: Vec<AgentLease>)
    ensures
        fresh@ == fresh_only(leases@, now_ms),
{
    let ghost all = leases@;
    let mut fresh: Vec<AgentLease> = Vec::new();
    for lease in it: leases.into_iter()
        invariant
            it.seq() == all,
            fresh@ == fresh_only(all.take(it.index() as int), now_ms),
    {
        proof {
            let i = it.index() as int;
            assert(all.take(i + 1).drop_last() =~= all.take(i));
            assert(all.take(i + 1).last() == lease);
        }
        if now_ms.saturating_sub(lease.heartbeat_at_unix_ms) <= STALE_AFTER_MS {
            fresh.push(lease);
        }
    }
    proof {
        assert(all.take(all.len() as int) =~= all);
    }
    fresh
}

/// Number of leases among `leases` whose target key is `key`.
pub open spec fn lease_count(leases: Seq<AgentLease>, key: Seq<char>) -> nat
    decreases leases.len(),
{
    if leases.len() == 0 {
        0
    } else {
        lease_count(leases.drop_last(), key) + if leases.last().target_key@ == key {
            1nat
        } else {
            0nat
        }
    }
}

/// Sum of the counts stored under `key`.
pub open spec fn stored_count(keys: Seq<String>, counts: Seq<usize>, key: Seq<char>) -> nat
    decreases keys.len(),
{
    if keys.len() == 0 || counts.len() == 0 {
        0
    } else {
        stored_count(keys.drop_last(), counts.drop_last(), key) + if keys.last()@ == key {
            counts.last() as nat
        } else {
            0nat
        }
    }
}

/// The number of agents capturing each target, keyed by target key.
pub struct TargetCounts {
    keys: Vec<String>,
    counts: Vec<usize>,
}

impl TargetCounts {
    /// Number of agents capturing the target with key `key`.
    pub closed spec fn count_of(&self, key: Seq<char>) -> nat {
        stored_count(self.keys@, self.counts@, key)
    }

    /// Whether `key` is one of the listed targets.
    pub closed spec fn lists(&self, key: Seq<char>) -> bool {
        exists|i: int| 0 <= i < self.keys@.len() && #[trigger] self.keys@[i]@ == key
    }

    /// Keys are listed once each, each with a positive count.
    pub closed spec fn wf(&self) -> bool {
        &&& self.keys@.len() == self.counts@.len()
        &&& forall|i: int, j: int|
            0 <= i < j < self.keys@.len() ==> #[trigger] self.keys@[i]@ != #[trigger] self.keys@[j]@
        &&& forall|i: int| 0 <= i < self.counts@.len() ==> #[trigger] self.counts@[i] > 0
    }

    /// Number of listed targets.
    pub closed spec fn size(&self) -> nat {
        self.keys@.len()
    }

    /// Number of listed targets.
    pub fn len(&self) -> (len: usize)
        ensures
            len == self.size(),
    {
        self.keys.len()
    }

    /// Number of agents capturing the target with key `key`; 0 when none.
    pub fn count(&self, key: &str) -> (count: usize)
        requires
            self.wf(),
        ensures
            count == self.count_of(key@),
    {
        let wanted = key.to_string();
        let mut i: usize = 0;
        while i < self.keys.len()
            invariant
                self.wf(),
                wanted@ == key@,
                i <= self.keys@.len(),
                forall|j: int| 0 <= j < i ==> #[trigger] self.keys@[j]@ != key@,
            decreases self.keys@.len() - i,
        {
            if self.keys[i] == wanted {
                proof {
                    lemma_stored_count_at(self.keys@, self.counts@, i as int);
                }
                return self.counts[i];
            }
            i = i + 1;
        }
        proof {
            lemma_stored_count_absent(self.keys@, self.counts@, key@);
        }
        0
    }
}

/// With distinct keys, the stored count of the key at `i` is its count.
proof fn lemma_stored_count_at(keys: Seq<String>, counts: Seq<usize>, i: int)
    requires
        keys.len() == counts.len(),
        0 <= i < keys.len(),
        forall|a: int, b: int| 0 <= a < b < keys.len() ==> #[trigger] keys[a]@ != #[trigger] keys[b]@,
    ensures
        stored_count(keys, counts, keys[i]@) == counts[i],
    decreases keys.len(),
{
    let key = keys[i]@;
    if i < keys.len() - 1 {
        assert(keys.last()@ != key);
        lemma_stored_count_at(keys.drop_last(), counts.drop_last(), i);
    } else {
        lemma_stored_count_absent(keys.drop_last(), counts.drop_last(), key);
    }
}

/// A key not listed has stored count 0.
proof fn lemma_stored_count_absent(keys: Seq<String>, counts: Seq<usize>, key: Seq<char>)
    requires
        forall|j: int| 0 <= j < keys.len() ==> #[trigger] keys[j]@ != key,
    ensures
        stored_count(keys, counts, key) == 0,
    decreases keys.len(),
{
    if keys.len() > 0 && counts.len() > 0 {
        lemma_stored_count_absent(keys.drop_last(), counts.drop_last(), key);
    }
}

/// Adding one to the count at `i` adds one to the stored count of its key
/// and leaves the other keys unchanged.
proof fn lemma_stored_count_increment(keys: Seq<String>, counts: Seq<usize>, i: int, value: usize, key: Seq<char>)
    requires
        keys.len() == counts.len(),
        0 <= i < keys.len(),
        value == counts[i] + 1,
    ensures
        stored_count(keys, counts.update(i, value), key) == stored_count(keys, counts, key) + if keys[i]@
            == key {
            1nat
        } else {
            0nat
        },
    decreases keys.len(),
{
    let updated = counts.update(i, value);
    if i < keys.len() - 1 {
        assert(updated.drop_last() =~= counts.drop_last().update(i, value));
        lemma_stored_count_increment(keys.drop_last(), counts.drop_last(), i, value, key);
    } else {
        assert(updated.drop_last() =~= counts.drop_last());
    }
}

/// Counts, for every target key, the leases that capture that target.
pub fn counts_by_target(leases: &[AgentLease]) -> (counts: TargetCounts)
    ensures
        counts.wf(),
        forall|key: Seq<char>| #[trigger] counts.count_of(key) == lease_count(leases@, key),
        forall|key: Seq<char>| #[trigger] counts.lists(key) <==> lease_count(leases@, key) > 0,
{
    let mut keys: Vec<String> = Vec::new();
    let mut totals: Vec<usize> = Vec::new();
    let mut i: usize = 0;
    while i < leases.len()
        invariant
            i <= leases@.len(),
            keys@.len() == totals@.len(),
            forall|a: int, b: int|
                0 <= a < b < keys@.len() ==> #[trigger] keys@[a]@ != #[trigger] keys@[b]@,
            forall|a: int| 0 <= a < totals@.len() ==> #[trigger] totals@[a] > 0,
            forall|a: int| 0 <= a < totals@.len() ==> #[trigger] totals@[a] <= i,
            forall|key: Seq<char>| #[trigger]
                stored_count(keys@, totals@, key) == lease_count(leases@.take(i as int), key),
            forall|key: Seq<char>|
                (exists|a: int| 0 <= a < keys@.len() && #[trigger] keys@[a]@ == key) <==> #[trigger] lease_count(
                    leases@.take(i as int),
                    key,
                ) > 0,
        decreases leases@.len() - i,
    {
        let key = leases[i].target_key.clone();
        let ghost before = leases@.take(i as int);
        proof {
            assert(leases@.take(i + 1).drop_last() =~= before);
            assert(leases@.take(i + 1).last() == leases@[i as int]);
        }
        let mut j: usize = 0;
        let mut found = false;
        while j < keys.len()
            invariant_except_break
                !found,
            invariant
                j <= keys@.len(),
                forall|a: int| 0 <= a < j ==> #[trigger] keys@[a]@ != key@,
            ensures
                found ==> j < keys@.len() && keys@[j as int]@ == key@,
                !found ==> forall|a: int| 0 <= a < keys@.len() ==> #[trigger] keys@[a]@ != key@,
            decreases keys@.len() - j,
        {
            if keys[j] == key {
                found = true;
                break;
            }
            j = j + 1;
        }
        if found {
            let ghost old_totals = totals@;
            let value = totals[j] + 1;
            totals.set(j, value);
            proof {
                assert forall|k: Seq<char>| #[trigger]
                    stored_count(keys@, totals@, k) == lease_count(leases@.take(i + 1), k) by {
                    lemma_stored_count_increment(keys@, old_totals, j as int, value, k);
                }
                assert forall|k: Seq<char>|
                    (exists|a: int| 0 <= a < keys@.len() && #[trigger] keys@[a]@ == k) <==> #[trigger] lease_count(
                        leases@.take(i + 1),
                        k,
                    ) > 0 by {
                    assert(lease_count(before, k) > 0 <==> exists|a: int|
                        0 <= a < keys@.len() && #[trigger] keys@[a]@ == k);
                    if k == key@ {
                        assert(keys@[j as int]@ == k);
                    }
                }
            }
        } else {
            let ghost old_keys = keys@;
            let ghost old_totals = totals@;
            keys.push(key);
            totals.push(1);
            proof {
                assert(keys@.drop_last() =~= old_keys);
                assert(totals@.drop_last() =~= old_totals);
                assert forall|k: Seq<char>| #[trigger]
                    stored_count(keys@, totals@, k) == lease_count(leases@.take(i + 1), k) by {
                    assert(stored_count(old_keys, old_totals, k) == lease_count(before, k));
                }
                assert forall|k: Seq<char>|
                    (exists|a: int| 0 <= a < keys@.len() && #[trigger] keys@[a]@ == k) <==> #[trigger] lease_count(
                        leases@.take(i + 1),
                        k,
                    ) > 0 by {
                    assert(lease_count(before, k) > 0 <==> exists|a: int|
                        0 <= a < old_keys.len() && #[trigger] old_keys[a]@ == k);
                    if k == key@ {
                        assert(keys@[keys@.len() - 1]@ == k);
                    }
                    if exists|a: int| 0 <= a < old_keys.len() && #[trigger] old_keys[a]@ == k {
                        let a = choose|a: int| 0 <= a < old_keys.len() && #[trigger] old_keys[a]@ == k;
                        assert(keys@[a]@ == k);
                    }
                    if exists|a: int| 0 <= a < keys@.len() && #[trigger] keys@[a]@ == k {
                        let a = choose|a: int| 0 <= a < keys@.len() && #[trigger] keys@[a]@ == k;
                        if a < old_keys.len() {
                            assert(old_keys[a]@ == k);
                        }
                    }
                }
            }
        }
        i = i + 1;
    }
    proof {
        assert(leases@.take(leases@.len() as int) =~= leases@);
    }
    TargetCounts { keys, counts: totals }
}

} // verus!
