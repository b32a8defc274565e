//! The telemetry store: named, append-only channels of timestamped readings,
//! shared behind a verified reader-writer lock.
//!
//! `Variables` is the plain data that lives inside the lock; all of its
//! operations carry exact contracts over the abstract view `StoreView`.
//! `AppState` wraps a `Variables` in a `vstd::rwlock::RwLock` so that many
//! ingestion callers and one render consumer can share it: every mutation and
//! the copy-out step of a snapshot run inside the lock's critical section, so
//! no reader ever observes a partially applied append.

use vstd::prelude::*;
use vstd::rwlock::{RwLock, RwLockPredicate};
use vstd::string::StrSliceExecFns;

verus! {

/// The fixed set of channels, established at construction and never extended.
#[derive(Clone, Copy, Debug, PartialEq, Eq, Structural)]
pub enum Channel {
    Bpm,
    Temperature,
    Oximetry,
}

/// One reading: the server-side receipt time and the numeric value.
///
/// The store never interprets the value; callers encode their reading into
/// the 32 bits (for a floating-point sensor value, its bit pattern) and
/// decode it again after a snapshot.
#[derive(Clone, Copy, Debug, PartialEq, Eq, Structural)]
pub struct Measurement {
    pub timestamp: u64,
    pub value: u32,
}

impl Measurement {
    pub fn new(timestamp: u64, value: u32) -> (m: Self)
        ensures
            m == (Measurement { timestamp, value }),
    {
        Measurement { timestamp, value }
    }
}

/// The one way an append can fail: the named channel is not in the fixed set.
#[derive(Clone, Copy, Debug, PartialEq, Eq, Structural)]
pub enum StoreError {
    UnknownChannel,
}

/// Abstract contents of the store: one measurement sequence per channel.
pub struct StoreView {
    pub bpm: Seq<Measurement>,
    pub temperature: Seq<Measurement>,
    pub oximetry: Seq<Measurement>,
}

impl StoreView {
    pub open spec fn channel(self, c: Channel) -> Seq<Measurement> {
        match c {
            Channel::Bpm => self.bpm,
            Channel::Temperature => self.temperature,
            Channel::Oximetry => self.oximetry,
        }
    }

    /// The state after one measurement is appended to one channel.
    pub open spec fn with_append(self, c: Channel, m: Measurement) -> StoreView {
        match c {
            Channel::Bpm => StoreView { bpm: self.bpm.push(m), ..self },
            Channel::Temperature => StoreView { temperature: self.temperature.push(m), ..self },
            Channel::Oximetry => StoreView { oximetry: self.oximetry.push(m), ..self },
        }
    }

    pub open spec fn all_empty(self) -> bool {
        forall|c: Channel| #[trigger] self.channel(c) == Seq::<Measurement>::empty()
    }
}

/// `post` extends `pre` when every channel of `post` begins with the whole
/// corresponding channel of `pre`: readings are only ever added at the end.
pub open spec fn extends(pre: StoreView, post: StoreView) -> bool {
    forall|c: Channel| #[trigger] pre.channel(c).is_prefix_of(post.channel(c))
}

/// True for the channel names the store was constructed with.
pub open spec fn known_channel(name: Seq<char>) -> bool {
    ||| name == "bpm"@
    ||| name == "temperature"@
    ||| name == "oximetry"@
}

/// Which channel a known name denotes.
pub open spec fn channel_of_name(name: Seq<char>) -> Channel {
    if name == "bpm"@ {
        Channel::Bpm
    } else if name == "temperature"@ {
        Channel::Temperature
    } else {
        Channel::Oximetry
    }
}

/// The live, append-only channel data.
pub struct Variables {
    pub bpm: Vec<Measurement>,
    pub temperature: Vec<Measurement>,
    pub oximetry: Vec<Measurement>,
}

impl View for Variables {
    type V = StoreView;

    open spec fn view(&self) -> StoreView {
        StoreView { bpm: self.bpm@, temperature: self.temperature@, oximetry: self.oximetry@ }
    }
}

impl Variables {
    pub fn new() -> (v: Self)
        ensures
            v@.all_empty(),
            v@ == (StoreView {
                bpm: Seq::<Measurement>::empty(),
                temperature: Seq::<Measurement>::empty(),
                oximetry: Seq::<Measurement>::empty(),
            }),
    {
        let v = Variables { bpm: Vec::new(), temperature: Vec::new(), oximetry: Vec::new() };
        proof {
            assert forall|c: Channel| #[trigger] v@.channel(c) == Seq::<Measurement>::empty() by {
                assert(v@.channel(c) =~= Seq::<Measurement>::empty());
            }
        }
        v
    }

    /// Append one measurement to one channel of the fixed set.
    ///
    /// This is the single mutation the store performs; everything else about
    /// the data (order kept, nothing lost, nothing rewritten) follows from
    /// this contract.
    pub fn append_to(&mut self, c: Channel, m: Measurement)
        ensures
            final(self)@ == old(self)@.with_append(c, m),
            extends(old(self)@, final(self)@),
    {
        match c {
            Channel::Bpm => self.bpm.push(m),
            Channel::Temperature => self.temperature.push(m),
            Channel::Oximetry => self.oximetry.push(m),
        }
        proof {
            assert(self@ =~= old(self)@.with_append(c, m));
            lemma_with_append_extends(old(self)@, c, m);
        }
    }

    /// Append a reading to the channel called `name`.
    ///
    /// Succeeds exactly on the names of the fixed channel set; on any other
    /// name it fails with `UnknownChannel` and leaves every channel untouched.
    pub fn append(&mut self, name: &str, value: u32, timestamp: u64) -> (r: Result<(), StoreError>)
        ensures
            r is Ok <==> known_channel(name@),
            known_channel(name@) ==> final(self)@ == old(self)@.with_append(
                channel_of_name(name@),
                Measurement { timestamp, value },
            ),
            !known_channel(name@) ==> r == Result::<(), StoreError>::Err(StoreError::UnknownChannel)
                && *final(self) == *old(self),
            extends(old(self)@, final(self)@),
    {
        match lookup_channel(name) {
            Some(c) => {
                self.append_to(c, Measurement { timestamp, value });
                Ok(())
            },
            None => {
                proof {
                    lemma_extends_reflexive(self@);
                }
                Err(StoreError::UnknownChannel)
            },
        }
    }

    /// Record one complete reading: one value per channel, all stamped with
    /// the same receipt time, applied as consecutive appends.
    pub fn record_all(&mut self, bpm: u32, temperature: u32, oximetry: u32, timestamp: u64)
        ensures
            final(self)@ == old(self)@
                .with_append(Channel::Bpm, Measurement { timestamp, value: bpm })
                .with_append(Channel::Temperature, Measurement { timestamp, value: temperature })
                .with_append(Channel::Oximetry, Measurement { timestamp, value: oximetry }),
            extends(old(self)@, final(self)@),
    {
        self.append_to(Channel::Bpm, Measurement { timestamp, value: bpm });
        self.append_to(Channel::Temperature, Measurement { timestamp, value: temperature });
        self.append_to(Channel::Oximetry, Measurement { timestamp, value: oximetry });
        proof {
            lemma_extends_transitive(old(self)@, old(self)@
                .with_append(Channel::Bpm, Measurement { timestamp, value: bpm })
                .with_append(Channel::Temperature, Measurement { timestamp, value: temperature }), self@);
        }
    }

    /// An independent copy of the current contents: equal to the live data
    /// at the moment of the call, and sharing no storage with it.
    pub fn snapshot(&self) -> (s: Variables)
        ensures
            s@ == self@,
    {
        let s = Variables {
            bpm: copy_measurements(&self.bpm),
            temperature: copy_measurements(&self.temperature),
            oximetry: copy_measurements(&self.oximetry),
        };
        proof {
            assert(s@ =~= self@);
        }
        s
    }
}

/// An element-by-element copy of a measurement sequence.
fn copy_measurements(v: &Vec<Measurement>) -> (r: Vec<Measurement>)
    ensures
        r@ == v@,
{
    let mut r: Vec<Measurement> = Vec::new();
    let mut i: usize = 0;
    while i < v.len()
        invariant
            i <= v@.len(),
            r@ == v@.subrange(0, i as int),
        decreases v@.len() - i,
    {
        r.push(v[i]);
        i = i + 1;
        proof {
            assert(r@ =~= v@.subrange(0, i as int));
        }
    }
    proof {
        assert(r@ =~= v@);
    }
    r
}

/// Compare two strings by their character sequences.
fn eq_str(a: &str, b: &str) -> (r: bool)
    ensures
        r == (a@ == b@),
{
    let alen = a.unicode_len();
    let blen = b.unicode_len();
    if alen != blen {
        return false;
    }
    let mut i: usize = 0;
    while i < alen
        invariant
            i <= alen,
            alen == a@.len(),
            alen == b@.len(),
            forall|k: int| 0 <= k < i ==> a@[k] == b@[k],
        decreases alen - i,
    {
        if a.get_char(i) != b.get_char(i) {
            return false;
        }
        i = i + 1;
    }
    proof {
        assert(a@ =~= b@);
    }
    true
}

/// Resolve a channel name against the fixed channel set.
pub fn lookup_channel(name: &str) -> (r: Option<Channel>)
    ensures
        r is Some <==> known_channel(name@),
        known_channel(name@) ==> r == Some(channel_of_name(name@)),
{
    if eq_str(name, "bpm") {
        Some(Channel::Bpm)
    } else if eq_str(name, "temperature") {
        Some(Channel::Temperature)
    } else if eq_str(name, "oximetry") {
        Some(Channel::Oximetry)
    } else {
        None
    }
}

/// Appending never removes or rewrites what a channel already holds.
pub proof fn lemma_with_append_extends(s: StoreView, c: Channel, m: Measurement)
    ensures
        extends(s, s.with_append(c, m)),
{
    assert forall|c2: Channel| #[trigger] s.channel(c2).is_prefix_of(
        s.with_append(c, m).channel(c2),
    ) by {
        if c2 == c {
            assert(s.channel(c2) =~= s.channel(c2).push(m).subrange(0, s.channel(c2).len() as int));
        } else {
            assert(s.channel(c2) =~= s.channel(c2).subrange(0, s.channel(c2).len() as int));
        }
    }
}

pub proof fn lemma_extends_reflexive(s: StoreView)
    ensures
        extends(s, s),
{
    assert forall|c: Channel| #[trigger] s.channel(c).is_prefix_of(s.channel(c)) by {
        assert(s.channel(c) =~= s.channel(c).subrange(0, s.channel(c).len() as int));
    }
}

pub proof fn lemma_extends_transitive(s1: StoreView, s2: StoreView, s3: StoreView)
    requires
        extends(s1, s2),
        extends(s2, s3),
    ensures
        extends(s1, s3),
{
    assert forall|c: Channel| #[trigger] s1.channel(c).is_prefix_of(s3.channel(c)) by {
        assert(s1.channel(c).is_prefix_of(s2.channel(c)));
        assert(s2.channel(c).is_prefix_of(s3.channel(c)));
        assert(s1.channel(c) =~= s3.channel(c).subrange(0, s1.channel(c).len() as int));
    }
}

/// The lock predicate for the shared store: any fully formed `Variables`
/// value may rest in the lock. Torn states cannot arise, because writers own
/// the value exclusively between `acquire_write` and `release_write`.
pub struct StoreInv;

impl RwLockPredicate<Variables> for StoreInv {
    open spec fn inv(self, v: Variables) -> bool {
        true
    }
}

/// The shared telemetry store: `Variables` behind a verified reader-writer
/// lock, owned once and shared by reference with every ingestion caller and
/// the single render consumer.
///
/// The lock is held only while a mutation runs or while a snapshot copies the
/// data out — never across rendering or any other work on the copy. Appends
/// from different callers serialize in the order they acquire the lock; a
/// snapshot observes a full prefix of those appends, never part of one.
///
/// The lock has no poisoned state to detect: everything that runs while it
/// is held is verified not to panic, so no holder can die half-way and leave
/// the data corrupt.
pub struct AppState {
    variables: RwLock<Variables, StoreInv>,
}

impl AppState {
    /// A fresh store with every channel of the fixed set empty.
    pub fn new() -> Self {
        AppState { variables: RwLock::new(Variables::new(), Ghost(StoreInv)) }
    }

    /// Append a reading to the channel called `name`, atomically with
    /// respect to concurrent appends and snapshots.
    ///
    /// Succeeds exactly on the names of the fixed channel set; on any other
    /// name it fails with `UnknownChannel` and the store is left as it was.
    pub fn append(&self, name: &str, value: u32, timestamp: u64) -> (r: Result<(), StoreError>)
        ensures
            r is Ok <==> known_channel(name@),
            !known_channel(name@) ==> r == Result::<(), StoreError>::Err(
                StoreError::UnknownChannel,
            ),
    {
        let (mut vars, handle) = self.variables.acquire_write();
        let r = vars.append(name, value, timestamp);
        handle.release_write(vars);
        r
    }

    /// Record one complete reading (one value per channel, one receipt time)
    /// inside a single critical section, so a snapshot sees either none or
    /// all of the request's measurements.
    pub fn record_all(&self, bpm: u32, temperature: u32, oximetry: u32, timestamp: u64) {
        let (mut vars, handle) = self.variables.acquire_write();
        vars.record_all(bpm, temperature, oximetry, timestamp);
        handle.release_write(vars);
    }

    /// An independent, internally consistent copy of the store's current
    /// contents: the state left by some prefix of the appends linearized so
    /// far. The lock is released before the copy is returned, so the caller
    /// may read it for arbitrarily long without blocking ingestion.
    pub fn snapshot(&self) -> Variables {
        let read_handle = self.variables.acquire_read();
        let copy = read_handle.borrow().snapshot();
        read_handle.release_read();
        copy
    }
}

} // verus!
