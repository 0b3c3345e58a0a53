//! The registry of subjects and of the polling consumers of each.

use vstd::prelude::*;
use vstd::utf8::{decode_utf8, valid_utf8};
use crate::consumer::{ConsumerWorker, Pull, WorkerState};

verus! {

/// Decodes `bytes` as UTF-8 with `String::from_utf8`, which gives a string
/// exactly when the bytes are valid UTF-8, and then the string of the
/// characters they encode.
#[verifier::external_body]
fn string_from_utf8(bytes: Vec<u8>) -> (res: Option<String>)
    ensures
        res is Some <==> valid_utf8(bytes@),
        res matches Some(s) ==> s@ == decode_utf8(bytes@),
{
    String::from_utf8(bytes).ok()
}

/// One registered subject: its name, its bytes and its consumers.
struct SubjectEntry<'a> {
    name: String,
    subject: Vec<u8>,
    consumers: Vec<ConsumerWorker<'a, Pull>>,
}

/// What the registry knows of one subject: its bytes and the state of each
/// of its consumers, in the order they were registered.
pub struct SubjectState {
    pub subject: Seq<u8>,
    pub consumers: Seq<WorkerState>,
}

/// Keeps, for each subject, the bytes it was registered with and the polling
/// consumers created for it over one shared log.
pub struct ConsumerManager<'a> {
    mmap: &'a [u8],
    subjects: Vec<SubjectEntry<'a>>,
}

impl<'a> SubjectEntry<'a> {
    spec fn state(&self) -> SubjectState {
        SubjectState { subject: self.subject@, consumers: self.consumers@.map_values(|w: ConsumerWorker<'a, Pull>| w@) }
    }
}

impl<'a> ConsumerManager<'a> {
    /// The log that every consumer of this registry reads.
    pub closed spec fn log(&self) -> Seq<u8> {
        self.mmap@
    }

    /// Whether `i` indexes the entry of the subject named `k`.
    spec fn names_at(&self, i: int, k: Seq<char>) -> bool {
        0 <= i < self.subjects@.len() && self.subjects@[i].name@ == k
    }

    /// The registered subjects, by name.
    pub closed spec fn registry(&self) -> Map<Seq<char>, SubjectState> {
        Map::new(
            |k: Seq<char>| exists|i: int| self.names_at(i, k),
            |k: Seq<char>| self.subjects@[choose|i: int| self.names_at(i, k)].state(),
        )
    }

    /// No name is registered twice, and every consumer reads its own
    /// subject's bytes from the start of the shared log.
    pub closed spec fn wf(&self) -> bool {
        &&& forall|i: int, j: int|
            0 <= i < j < self.subjects@.len() ==> #[trigger] self.subjects@[i].name@ != #[trigger] self.subjects@[j].name@
        &&& forall|i: int, j: int|
            0 <= i < self.subjects@.len() && 0 <= j < self.subjects@[i].consumers@.len() ==>
                #[trigger] self.subjects@[i].consumers@[j]@ == (WorkerState {
                    subject: self.subjects@[i].subject@,
                    log: self.mmap@,
                    cursor: 0,
                })
    }

    proof fn lemma_registry_at(&self, i: int)
        requires
            self.wf(),
            0 <= i < self.subjects@.len(),
        ensures
            self.registry().contains_key(self.subjects@[i].name@),
            self.registry()[self.subjects@[i].name@] == self.subjects@[i].state(),
    {
        let k = self.subjects@[i].name@;
        assert(self.names_at(i, k));
        let c = choose|c: int| self.names_at(c, k);
        if c != i {
            if c < i {
                assert(self.subjects@[c].name@ != self.subjects@[i].name@);
            } else {
                assert(self.subjects@[i].name@ != self.subjects@[c].name@);
            }
        }
    }

    /// An empty registry over `mmap`.
    pub fn new(mmap: &'a [u8]) -> (m: Self)
        ensures
            m.wf(),
            m.log() == mmap@,
            m.registry() == Map::<Seq<char>, SubjectState>::empty(),
    {
        let m = ConsumerManager { mmap: mmap, subjects: Vec::new() };
        assert(m.registry() =~= Map::<Seq<char>, SubjectState>::empty());
        m
    }

    /// The index of the entry named `name`, if there is one.
    fn find(&self, name: &String) -> (r: Option<usize>)
        ensures
            r matches Some(i) ==> self.names_at(i as int, name@),
            r is None ==> forall|i: int| !#[trigger] self.names_at(i, name@),
    {
        let n = self.subjects.len();
        let mut i: usize = 0;
        while i < n
            invariant
                n == self.subjects@.len(),
                0 <= i <= n,
                forall|j: int| 0 <= j < i ==> !#[trigger] self.names_at(j, name@),
            decreases n - i,
        {
            if self.subjects[i].name == *name {
                return Some(i);
            }
            i = i + 1;
        }
        None
    }
}


impl<'a> ConsumerManager<'a> {
    /// Replacing the entry at `i` by one of the same name updates that name only.
    proof fn lemma_registry_update(old_m: Self, new_m: Self, i: int, e: SubjectEntry<'a>)
        requires
            old_m.wf(),
            0 <= i < old_m.subjects@.len(),
            e.name@ == old_m.subjects@[i].name@,
            new_m.subjects@ == old_m.subjects@.update(i, e),
        ensures
            forall|a: int, b: int|
                0 <= a < b < new_m.subjects@.len() ==> #[trigger] new_m.subjects@[a].name@
                    != #[trigger] new_m.subjects@[b].name@,
            new_m.registry() == old_m.registry().insert(e.name@, e.state()),
    {
        let k0 = e.name@;
        let expected = old_m.registry().insert(k0, e.state());
        assert forall|a: int, b: int|
            0 <= a < b < new_m.subjects@.len() implies #[trigger] new_m.subjects@[a].name@
                != #[trigger] new_m.subjects@[b].name@ by {
            assert(old_m.subjects@[a].name@ != old_m.subjects@[b].name@);
        }
        assert forall|k: Seq<char>| #[trigger] new_m.registry().contains_key(k) == expected.contains_key(k) by {
            if k == k0 {
                assert(new_m.names_at(i, k));
                assert(old_m.names_at(i, k));
            } else {
                if new_m.registry().contains_key(k) {
                    let j = choose|j: int| new_m.names_at(j, k);
                    assert(old_m.names_at(j, k));
                }
                if old_m.registry().contains_key(k) {
                    let j = choose|j: int| old_m.names_at(j, k);
                    assert(new_m.names_at(j, k));
                }
            }
        }
        assert forall|k: Seq<char>| new_m.registry().contains_key(k) implies new_m.registry()[k] == expected[k] by {
            let j = choose|j: int| new_m.names_at(j, k);
            assert(new_m.names_at(j, k));
            let c = choose|c: int| new_m.names_at(c, k);
            if c != j {
                if c < j {
                    assert(new_m.subjects@[c].name@ != new_m.subjects@[j].name@);
                } else {
                    assert(new_m.subjects@[j].name@ != new_m.subjects@[c].name@);
                }
            }
            if k != k0 {
                assert(old_m.names_at(j, k));
                old_m.lemma_registry_at(j);
            }
        }
        assert(new_m.registry() =~= expected);
    }

    /// Appending an entry under a new name adds that name only.
    proof fn lemma_registry_push(old_m: Self, new_m: Self, e: SubjectEntry<'a>)
        requires
            old_m.wf(),
            forall|i: int| !#[trigger] old_m.names_at(i, e.name@),
            new_m.subjects@ == old_m.subjects@.push(e),
        ensures
            forall|a: int, b: int|
                0 <= a < b < new_m.subjects@.len() ==> #[trigger] new_m.subjects@[a].name@
                    != #[trigger] new_m.subjects@[b].name@,
            new_m.registry() == old_m.registry().insert(e.name@, e.state()),
    {
        let k0 = e.name@;
        let n = old_m.subjects@.len() as int;
        let expected = old_m.registry().insert(k0, e.state());
        assert forall|a: int, b: int|
            0 <= a < b < new_m.subjects@.len() implies #[trigger] new_m.subjects@[a].name@
                != #[trigger] new_m.subjects@[b].name@ by {
            if b == n {
                assert(!old_m.names_at(a, k0));
            } else {
                assert(old_m.subjects@[a].name@ != old_m.subjects@[b].name@);
            }
        }
        assert forall|k: Seq<char>| #[trigger] new_m.registry().contains_key(k) == expected.contains_key(k) by {
            if k == k0 {
                assert(new_m.names_at(n, k));
            } else {
                if new_m.registry().contains_key(k) {
                    let j = choose|j: int| new_m.names_at(j, k);
                    assert(old_m.names_at(j, k));
                }
                if old_m.registry().contains_key(k) {
                    let j = choose|j: int| old_m.names_at(j, k);
                    assert(new_m.names_at(j, k));
                }
            }
        }
        assert forall|k: Seq<char>| new_m.registry().contains_key(k) implies new_m.registry()[k] == expected[k] by {
            let j = choose|j: int| new_m.names_at(j, k);
            assert(new_m.names_at(j, k));
            let c = choose|c: int| new_m.names_at(c, k);
            if c != j {
                if c < j {
                    assert(new_m.subjects@[c].name@ != new_m.subjects@[j].name@);
                } else {
                    assert(new_m.subjects@[j].name@ != new_m.subjects@[c].name@);
                }
            }
            if k != k0 {
                assert(old_m.names_at(j, k));
                old_m.lemma_registry_at(j);
            }
        }
        assert(new_m.registry() =~= expected);
    }

    /// Registers `subject`, named by its UTF-8 text, with no consumers; a
    /// subject registered before under that name loses its consumers.
    pub fn register_new_subject(&mut self, subject: &[u8])
        requires
            old(self).wf(),
            valid_utf8(subject@),
        ensures
            final(self).wf(),
            final(self).log() == old(self).log(),
            final(self).registry() == old(self).registry().insert(
                decode_utf8(subject@),
                SubjectState { subject: subject@, consumers: Seq::empty() },
            ),
    {
        let str_subject = match string_from_utf8(vstd::slice::slice_to_vec(subject)) {
            Some(s) => s,
            None => {
                assert(false);
                return;
            },
        };
        let entry = SubjectEntry {
            name: str_subject,
            subject: vstd::slice::slice_to_vec(subject),
            consumers: Vec::new(),
        };
        let ghost e = entry;
        assert(e.state().consumers =~= Seq::<WorkerState>::empty());
        match self.find(&entry.name) {
            Some(i) => {
                self.subjects.set(i, entry);
                proof {
                    Self::lemma_registry_update(*old(self), *self, i as int, e);
                }
            },
            None => {
                self.subjects.push(entry);
                proof {
                    Self::lemma_registry_push(*old(self), *self, e);
                }
            },
        }
    }

    /// Adds a polling consumer, at the start of the log, to the subject named `subject`.
    pub fn register_consumer(&mut self, subject: String)
        requires
            old(self).wf(),
            old(self).registry().contains_key(subject@),
        ensures
            final(self).wf(),
            final(self).log() == old(self).log(),
            final(self).registry() == old(self).registry().insert(
                subject@,
                SubjectState {
                    subject: old(self).registry()[subject@].subject,
                    consumers: old(self).registry()[subject@].consumers.push(
                        WorkerState {
                            subject: old(self).registry()[subject@].subject,
                            log: old(self).log(),
                            cursor: 0,
                        },
                    ),
                },
            ),
    {
        let i = match self.find(&subject) {
            Some(i) => i,
            None => {
                assert(!old(self).registry().contains_key(subject@));
                return;
            },
        };
        proof {
            self.lemma_registry_at(i as int);
        }
        let mut entry = self.subjects.remove(i);
        let worker = ConsumerWorker::new_pull(self.mmap, entry.subject.as_slice(), 0);
        entry.consumers.push(worker);
        let ghost e = entry;
        self.subjects.insert(i, entry);
        proof {
            assert(self.subjects@ =~= old(self).subjects@.update(i as int, e));
            Self::lemma_registry_update(*old(self), *self, i as int, e);
            assert(e.state().consumers =~= old(self).subjects@[i as int].state().consumers.push(
                WorkerState { subject: e.subject@, log: self.mmap@, cursor: 0 },
            ));
        }
    }
}

/// Every consumer held by a registry reads the bytes of the subject it was
/// registered under, over the registry's log, from the start of the log.
pub proof fn lemma_registered_consumers_read_their_subject(m: ConsumerManager, k: Seq<char>, j: int)
    requires
        m.wf(),
        m.registry().contains_key(k),
        0 <= j < m.registry()[k].consumers.len(),
    ensures
        m.registry()[k].consumers[j] == (WorkerState { subject: m.registry()[k].subject, log: m.log(), cursor: 0 }),
{
    let i = choose|i: int| m.names_at(i, k);
    assert(m.names_at(i, k));
    m.lemma_registry_at(i);
    assert(m.subjects@[i].consumers@[j]@ == m.registry()[k].consumers[j]);
}

} // verus!
