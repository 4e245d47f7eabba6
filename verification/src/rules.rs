//! Failure suppression: after a process identity has failed a number of times
//! in a row, features stop retrying it and report that once.
use vstd::prelude::*;

use crate::foreground::process_list::{path_key, process_failure_key};
use crate::action_log::{action_of_result, log_after, ActionLog, ActionLogEntryView, ActionLogFeature, ActionLogResult};
use crate::text::{lower_seq, str_eq, to_ascii_lowercase};

verus! {

/// How many consecutive failures suppress further attempts.
pub const EXECUTION_FAILURE_SUPPRESSION_THRESHOLD: u32 = 3;

/// The number of consecutive failures after which attempts stop.
pub fn execution_failure_suppression_threshold() -> (r: u32)
    ensures
        r == EXECUTION_FAILURE_SUPPRESSION_THRESHOLD,
{
    EXECUTION_FAILURE_SUPPRESSION_THRESHOLD
}

/// The key under which failures of an identity (a process name or an
/// executable path) are counted: the path key, ASCII-lower-cased.
pub open spec fn failure_key(identity: Seq<char>) -> Seq<char> {
    lower_seq(path_key(identity))
}

/// Failure state of one key: consecutive failures, and whether suppression
/// has been reported.
pub type FailureState = (nat, bool);

/// The largest failure count that is kept.
pub open spec fn max_failures() -> nat {
    0xFFFF_FFFF
}

/// One more failure for `key`.
pub open spec fn model_record(
    m: Map<Seq<char>, FailureState>,
    key: Seq<char>,
) -> Map<Seq<char>, FailureState> {
    if m.contains_key(key) {
        let count = if m[key].0 < max_failures() {
            m[key].0 + 1
        } else {
            max_failures()
        };
        m.insert(key, (count, m[key].1))
    } else {
        m.insert(key, (1, false))
    }
}

/// `key` is suppressed at once.
pub open spec fn model_suppress(
    m: Map<Seq<char>, FailureState>,
    key: Seq<char>,
) -> Map<Seq<char>, FailureState> {
    if m.contains_key(key) {
        let count = if m[key].0 < EXECUTION_FAILURE_SUPPRESSION_THRESHOLD {
            EXECUTION_FAILURE_SUPPRESSION_THRESHOLD as nat
        } else {
            m[key].0
        };
        m.insert(key, (count, m[key].1))
    } else {
        m.insert(key, (EXECUTION_FAILURE_SUPPRESSION_THRESHOLD as nat, false))
    }
}

/// Whether attempts for `key` are suppressed.
pub open spec fn model_suppressed(m: Map<Seq<char>, FailureState>, key: Seq<char>) -> bool {
    m.contains_key(key) && m[key].0 >= EXECUTION_FAILURE_SUPPRESSION_THRESHOLD
}

/// Whether this check is the first to see `key` suppressed.
pub open spec fn model_newly_suppressed(
    m: Map<Seq<char>, FailureState>,
    key: Seq<char>,
) -> bool {
    model_suppressed(m, key) && !m[key].1
}

/// The state after checking `key`: a suppression is marked as reported.
pub open spec fn model_after_check(
    m: Map<Seq<char>, FailureState>,
    key: Seq<char>,
) -> Map<Seq<char>, FailureState> {
    if model_suppressed(m, key) {
        m.insert(key, (m[key].0, true))
    } else {
        m
    }
}

/// The keys of a list of identities.
pub open spec fn failure_keys_of(identities: Seq<String>) -> Set<Seq<char>> {
    Set::new(|k: Seq<char>| exists|i: int| 0 <= i < identities.len() && failure_key(#[trigger] identities[i]@) == k)
}

/// The outcome of a suppression check.
#[derive(Debug, Clone, Copy, PartialEq, Eq)]
pub struct ExecutionSuppression {
    pub suppressed: bool,
    pub newly_suppressed: bool,
}

struct FailureEntry {
    key: String,
    failures: u32,
    reported: bool,
}

/// Counts consecutive failures per process identity.
pub struct ExecutionFailureTracker {
    entries: Vec<FailureEntry>,
    state: Ghost<Map<Seq<char>, FailureState>>,
}

impl View for ExecutionFailureTracker {
    type V = Map<Seq<char>, FailureState>;

    closed spec fn view(&self) -> Map<Seq<char>, FailureState> {
        self.state@
    }
}

/// The key of an identity, as a string.
pub fn tracker_key(identity: &str) -> (r: String)
    ensures
        r@ == failure_key(identity@),
{
    let k = process_failure_key(identity);
    to_ascii_lowercase(k.as_str())
}

impl ExecutionFailureTracker {
    /// The entries agree with the abstract state.
    pub closed spec fn wf(&self) -> bool {
        &&& forall|i: int|
            0 <= i < self.entries@.len() ==> {
                &&& #[trigger] self.state@.contains_key(self.entries@[i].key@)
                &&& self.state@[self.entries@[i].key@] == (
                    self.entries@[i].failures as nat,
                    self.entries@[i].reported,
                )
            }
        &&& forall|k: Seq<char>|
            #[trigger] self.state@.contains_key(k) ==> exists|i: int|
                0 <= i < self.entries@.len() && self.entries@[i].key@ == k
        &&& forall|i: int, j: int|
            0 <= i < self.entries@.len() && 0 <= j < self.entries@.len() && i != j
                ==> #[trigger] self.entries@[i].key@ != #[trigger] self.entries@[j].key@
    }

    /// An empty tracker.
    pub fn new() -> (r: Self)
        ensures
            r.wf(),
            r@ == Map::<Seq<char>, FailureState>::empty(),
    {
        ExecutionFailureTracker { entries: Vec::new(), state: Ghost(Map::empty()) }
    }

    fn find(&self, key: &String) -> (r: Option<usize>)
        requires
            self.wf(),
        ensures
            match r {
                Some(i) => {
                    &&& i < self.entries@.len()
                    &&& self.entries@[i as int].key@ == key@
                    &&& self@.contains_key(key@)
                    &&& self@[key@] == (
                        self.entries@[i as int].failures as nat,
                        self.entries@[i as int].reported,
                    )
                },
                None => !self@.contains_key(key@),
            },
    {
        let mut i: usize = 0;
        while i < self.entries.len()
            invariant
                self.wf(),
                i <= self.entries@.len(),
                forall|j: int| 0 <= j < i ==> #[trigger] self.entries@[j].key@ != key@,
            decreases self.entries@.len() - i,
        {
            if str_eq(self.entries[i].key.as_str(), key.as_str()) {
                assert(self.state@.contains_key(self.entries@[i as int].key@));
                return Some(i);
            }
            i = i + 1;
        }
        None
    }

    fn replace_at(&mut self, i: usize, key: String, failures: u32, reported: bool)
        requires
            old(self).wf(),
            i < old(self).entries@.len(),
            key@ == old(self).entries@[i as int].key@,
        ensures
            final(self).wf(),
            final(self)@ == old(self)@.insert(key@, (failures as nat, reported)),
    {
        let ghost old_entries = self.entries@;
        let ghost k = key@;
        self.entries.set(i, FailureEntry { key, failures, reported });
        self.state = Ghost(self.state@.insert(k, (failures as nat, reported)));
        proof {
            assert forall|a: int| 0 <= a < self.entries@.len() implies {
                &&& #[trigger] self.state@.contains_key(self.entries@[a].key@)
                &&& self.state@[self.entries@[a].key@] == (
                    self.entries@[a].failures as nat,
                    self.entries@[a].reported,
                )
            } by {
                if a != i {
                    assert(self.entries@[a] == old_entries[a]);
                    assert(old_entries[a].key@ != old_entries[i as int].key@);
                }
            }
            assert forall|kk: Seq<char>| #[trigger]
                self.state@.contains_key(kk) implies exists|j: int|
                0 <= j < self.entries@.len() && self.entries@[j].key@ == kk by {
                if kk != k {
                    let j = choose|j: int| 0 <= j < old_entries.len() && old_entries[j].key@ == kk;
                    assert(self.entries@[j].key@ == kk);
                } else {
                    assert(self.entries@[i as int].key@ == kk);
                }
            }
            assert forall|a: int, b: int|
                0 <= a < self.entries@.len() && 0 <= b < self.entries@.len() && a
                    != b implies #[trigger] self.entries@[a].key@
                != #[trigger] self.entries@[b].key@ by {
                assert(old_entries[a].key@ != old_entries[b].key@);
            }
        }
    }

    fn push_new(&mut self, key: String, failures: u32, reported: bool)
        requires
            old(self).wf(),
            !old(self)@.contains_key(key@),
        ensures
            final(self).wf(),
            final(self)@ == old(self)@.insert(key@, (failures as nat, reported)),
    {
        let ghost old_entries = self.entries@;
        let ghost k = key@;
        self.entries.push(FailureEntry { key, failures, reported });
        self.state = Ghost(self.state@.insert(k, (failures as nat, reported)));
        proof {
            let n = old_entries.len() as int;
            assert forall|a: int| 0 <= a < self.entries@.len() implies {
                &&& #[trigger] self.state@.contains_key(self.entries@[a].key@)
                &&& self.state@[self.entries@[a].key@] == (
                    self.entries@[a].failures as nat,
                    self.entries@[a].reported,
                )
            } by {
                if a != n {
                    assert(self.entries@[a] == old_entries[a]);
                    assert(old(self).state@.contains_key(old_entries[a].key@));
                }
            }
            assert forall|kk: Seq<char>| #[trigger]
                self.state@.contains_key(kk) implies exists|j: int|
                0 <= j < self.entries@.len() && self.entries@[j].key@ == kk by {
                if kk != k {
                    let j = choose|j: int| 0 <= j < old_entries.len() && old_entries[j].key@ == kk;
                    assert(self.entries@[j].key@ == kk);
                } else {
                    assert(self.entries@[n].key@ == kk);
                }
            }
            assert forall|a: int, b: int|
                0 <= a < self.entries@.len() && 0 <= b < self.entries@.len() && a
                    != b implies #[trigger] self.entries@[a].key@
                != #[trigger] self.entries@[b].key@ by {
                if a < n && b < n {
                    assert(old_entries[a].key@ != old_entries[b].key@);
                } else if a < n {
                    assert(old(self).state@.contains_key(old_entries[a].key@));
                } else {
                    assert(old(self).state@.contains_key(old_entries[b].key@));
                }
            }
        }
    }

    /// Records one more failure of `identity`; true when it is the first
    /// failure tracked for its key.
    pub fn record_process_failure(&mut self, identity: &str) -> (first: bool)
        requires
            old(self).wf(),
        ensures
            final(self).wf(),
            final(self)@ == model_record(old(self)@, failure_key(identity@)),
            first == !old(self)@.contains_key(failure_key(identity@)),
    {
        let key = tracker_key(identity);
        match self.find(&key) {
            Some(i) => {
                let failures = self.entries[i].failures;
                let reported = self.entries[i].reported;
                let count = if failures < 0xFFFF_FFFF {
                    failures + 1
                } else {
                    failures
                };
                self.replace_at(i, key, count, reported);
                false
            },
            None => {
                self.push_new(key, 1, false);
                true
            },
        }
    }

    /// Suppresses `identity` at once (for failures that retrying cannot fix).
    pub fn suppress_process_failure(&mut self, identity: &str)
        requires
            old(self).wf(),
        ensures
            final(self).wf(),
            final(self)@ == model_suppress(old(self)@, failure_key(identity@)),
    {
        let key = tracker_key(identity);
        match self.find(&key) {
            Some(i) => {
                let failures = self.entries[i].failures;
                let reported = self.entries[i].reported;
                let count = if failures < EXECUTION_FAILURE_SUPPRESSION_THRESHOLD {
                    EXECUTION_FAILURE_SUPPRESSION_THRESHOLD
                } else {
                    failures
                };
                self.replace_at(i, key, count, reported);
            },
            None => {
                self.push_new(key, EXECUTION_FAILURE_SUPPRESSION_THRESHOLD, false);
            },
        }
    }

    fn remove_at(&mut self, i: usize)
        requires
            old(self).wf(),
            i < old(self).entries@.len(),
        ensures
            final(self).wf(),
            final(self)@ == old(self)@.remove(old(self).entries@[i as int].key@),
            final(self).entries@ == old(self).entries@.remove(i as int),
    {
        let ghost old_entries = self.entries@;
        let ghost k = self.entries@[i as int].key@;
        self.entries.remove(i);
        self.state = Ghost(self.state@.remove(k));
        proof {
            assert forall|a: int| 0 <= a < self.entries@.len() implies {
                &&& #[trigger] self.state@.contains_key(self.entries@[a].key@)
                &&& self.state@[self.entries@[a].key@] == (
                    self.entries@[a].failures as nat,
                    self.entries@[a].reported,
                )
            } by {
                if a < i {
                    assert(self.entries@[a] == old_entries[a]);
                    assert(old_entries[a].key@ != old_entries[i as int].key@);
                } else {
                    assert(self.entries@[a] == old_entries[a + 1]);
                    assert(old_entries[a + 1].key@ != old_entries[i as int].key@);
                }
            }
            assert forall|kk: Seq<char>| #[trigger]
                self.state@.contains_key(kk) implies exists|j: int|
                0 <= j < self.entries@.len() && self.entries@[j].key@ == kk by {
                let j = choose|j: int| 0 <= j < old_entries.len() && old_entries[j].key@ == kk;
                if j < i {
                    assert(self.entries@[j].key@ == kk);
                } else {
                    assert(j != i);
                    assert(self.entries@[j - 1].key@ == kk);
                }
            }
            assert forall|a: int, b: int|
                0 <= a < self.entries@.len() && 0 <= b < self.entries@.len() && a
                    != b implies #[trigger] self.entries@[a].key@
                != #[trigger] self.entries@[b].key@ by {
                let oa = if a < i {
                    a
                } else {
                    a + 1
                };
                let ob = if b < i {
                    b
                } else {
                    b + 1
                };
                assert(self.entries@[a] == old_entries[oa]);
                assert(self.entries@[b] == old_entries[ob]);
                assert(old_entries[oa].key@ != old_entries[ob].key@);
            }
        }
    }

    /// Forgets the failures of `identity` (after it succeeded).
    pub fn clear_process_failure(&mut self, identity: &str)
        requires
            old(self).wf(),
        ensures
            final(self).wf(),
            final(self)@ == old(self)@.remove(failure_key(identity@)),
    {
        let key = tracker_key(identity);
        match self.find(&key) {
            Some(i) => {
                self.remove_at(i);
            },
            None => {
                assert(self@.remove(key@) =~= self@);
            },
        }
    }

    /// Whether `identity` is suppressed, and whether this is the first check
    /// to see it so; the first such check marks the suppression as reported.
    pub fn process_suppression(&mut self, identity: &str) -> (r: ExecutionSuppression)
        requires
            old(self).wf(),
        ensures
            final(self).wf(),
            r.suppressed == model_suppressed(old(self)@, failure_key(identity@)),
            r.newly_suppressed == model_newly_suppressed(old(self)@, failure_key(identity@)),
            final(self)@ == model_after_check(old(self)@, failure_key(identity@)),
    {
        let key = tracker_key(identity);
        let ghost k = key@;
        match self.find(&key) {
            Some(i) => {
                let failures = self.entries[i].failures;
                let reported = self.entries[i].reported;
                if failures < EXECUTION_FAILURE_SUPPRESSION_THRESHOLD {
                    return ExecutionSuppression { suppressed: false, newly_suppressed: false };
                }
                self.replace_at(i, key, failures, true);
                ExecutionSuppression { suppressed: true, newly_suppressed: !reported }
            },
            None => ExecutionSuppression { suppressed: false, newly_suppressed: false },
        }
    }

    /// Forgets every identity whose key is not among those of `identities`.
    pub fn retain_keys(&mut self, identities: &Vec<String>)
        requires
            old(self).wf(),
        ensures
            final(self).wf(),
            final(self)@ == old(self)@.restrict(failure_keys_of(identities@)),
    {
        let mut keep: Vec<String> = Vec::new();
        let mut a: usize = 0;
        while a < identities.len()
            invariant
                a <= identities@.len(),
                keep@.len() == a,
                forall|j: int| 0 <= j < a ==> #[trigger] keep@[j]@ == failure_key(identities@[j]@),
            decreases identities@.len() - a,
        {
            keep.push(tracker_key(identities[a].as_str()));
            a = a + 1;
        }
        let ghost keys = failure_keys_of(identities@);
        let ghost start = self@;
        let mut i: usize = self.entries.len();
        while i > 0
            invariant
                self.wf(),
                keys == failure_keys_of(identities@),
                i <= self.entries@.len(),
                keep@.len() == identities@.len(),
                forall|j: int| 0 <= j < keep@.len() ==> #[trigger] keep@[j]@ == failure_key(identities@[j]@),
                forall|j: int| i <= j < self.entries@.len() ==> keys.contains(#[trigger] self.entries@[j].key@),
                forall|k: Seq<char>| #[trigger] self@.contains_key(k) ==> start.contains_key(k) && self@[k] == start[k],
                forall|k: Seq<char>| #[trigger] start.contains_key(k) && keys.contains(k) ==> self@.contains_key(k),
            decreases i,
        {
            i = i - 1;
            let mut found = false;
            let mut b: usize = 0;
            while b < keep.len()
                invariant
                    i < self.entries@.len(),
                    keys == failure_keys_of(identities@),
                    b <= keep@.len(),
                    keep@.len() == identities@.len(),
                    forall|j: int| 0 <= j < keep@.len() ==> #[trigger] keep@[j]@ == failure_key(identities@[j]@),
                    found ==> keys.contains(self.entries@[i as int].key@),
                    !found ==> forall|j: int| 0 <= j < b ==> #[trigger] keep@[j]@ != self.entries@[i as int].key@,
                decreases keep@.len() - b,
            {
                if !found && str_eq(keep[b].as_str(), self.entries[i].key.as_str()) {
                    found = true;
                    assert(failure_key(identities@[b as int]@) == self.entries@[i as int].key@);
                }
                b = b + 1;
            }
            if !found {
                let ghost removed = self.entries@[i as int].key@;
                let ghost before = self.entries@;
                assert(!keys.contains(removed)) by {
                    if keys.contains(removed) {
                        let j = choose|j: int| 0 <= j < identities@.len() && failure_key(#[trigger] identities@[j]@) == removed;
                        assert(keep@[j]@ == removed);
                    }
                }
                self.remove_at(i);
                assert forall|j: int| i <= j < self.entries@.len() implies keys.contains(#[trigger] self.entries@[j].key@) by {
                    assert(self.entries@[j] == before[j + 1]);
                }
            }
        }
        proof {
            assert forall|k: Seq<char>| #[trigger] self@.contains_key(k) implies keys.contains(k) by {
                let j = choose|j: int| 0 <= j < self.entries@.len() && self.entries@[j].key@ == k;
                assert(keys.contains(self.entries@[j].key@));
            }
            assert(self@ =~= start.restrict(keys));
        }
    }

    /// Forgets everything.
    pub fn clear(&mut self)
        ensures
            final(self).wf(),
            final(self)@ == Map::<Seq<char>, FailureState>::empty(),
    {
        self.entries = Vec::new();
        self.state = Ghost(Map::empty());
    }
}

impl Default for ExecutionFailureTracker {
    fn default() -> (r: Self)
        ensures
            r.wf(),
            r@ == Map::<Seq<char>, FailureState>::empty(),
    {
        ExecutionFailureTracker::new()
    }
}

/// `Stopped retrying <feature> after 3 failed attempts.`
pub open spec fn stopped_retrying_message(feature_name: Seq<char>) -> Seq<char> {
    "Stopped retrying "@ + feature_name + " after 3 failed attempts."@
}

/// Checks whether `identity` is suppressed and, the first time it is, logs
/// that the feature stopped retrying the process.
pub fn check_and_report_suppression(
    tracker: &mut ExecutionFailureTracker,
    log: &mut ActionLog,
    feature: ActionLogFeature,
    feature_name: &str,
    process_id: u32,
    process_name: &str,
    identity: &str,
) -> (r: ExecutionSuppression)
    requires
        old(tracker).wf(),
        old(log).wf(),
    ensures
        final(tracker).wf(),
        final(log).wf(),
        final(log).capacity_spec() == old(log).capacity_spec(),
        r.suppressed == model_suppressed(old(tracker)@, failure_key(identity@)),
        r.newly_suppressed == model_newly_suppressed(old(tracker)@, failure_key(identity@)),
        final(tracker)@ == model_after_check(old(tracker)@, failure_key(identity@)),
        r.newly_suppressed ==> final(log).view_entries() == log_after(
            old(log).view_entries(),
            old(log).capacity_spec(),
            ActionLogEntryView {
                feature,
                process_id: Some(process_id),
                process_name: process_name@,
                action: action_of_result(ActionLogResult::Skipped),
                result: ActionLogResult::Skipped,
                reason: stopped_retrying_message(feature_name@),
            },
        ),
        !r.newly_suppressed ==> final(log).view_entries() == old(log).view_entries(),
{
    let suppression = tracker.process_suppression(identity);
    if suppression.newly_suppressed {
        let mut reason = String::from_str("Stopped retrying ");
        reason.append(feature_name);
        reason.append(" after 3 failed attempts.");
        log.record(feature, Some(process_id), process_name.to_owned(), ActionLogResult::Skipped, reason);
    }
    suppression
}

/// Law: once a key has failed the threshold number of times, it is
/// suppressed, and the first check reports the suppression while every later
/// check does not.
pub proof fn law_suppression_is_reported_once(m: Map<Seq<char>, FailureState>, key: Seq<char>)
    requires
        !m.contains_key(key),
    ensures
        ({
            let m1 = model_record(m, key);
            let m2 = model_record(m1, key);
            let m3 = model_record(m2, key);
            &&& !model_suppressed(m2, key)
            &&& model_suppressed(m3, key)
            &&& model_newly_suppressed(m3, key)
            &&& model_suppressed(model_after_check(m3, key), key)
            &&& !model_newly_suppressed(model_after_check(m3, key), key)
        }),
{
}

/// Law: a check never makes a suppressed key unsuppressed, and a success
/// (clearing the key) ends its suppression.
pub proof fn law_check_keeps_and_clear_ends_suppression(
    m: Map<Seq<char>, FailureState>,
    key: Seq<char>,
    other: Seq<char>,
)
    ensures
        model_suppressed(model_after_check(m, key), other) == model_suppressed(m, other),
        !model_suppressed(m.remove(key), key),
{
}

/// Law: a failure of one key leaves every other key's state unchanged.
pub proof fn law_record_is_local(
    m: Map<Seq<char>, FailureState>,
    key: Seq<char>,
    other: Seq<char>,
)
    requires
        key != other,
    ensures
        model_record(m, key).contains_key(other) == m.contains_key(other),
        m.contains_key(other) ==> model_record(m, key)[other] == m[other],
{
}

} // verus!
