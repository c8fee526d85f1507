//! The pair of phase durations and the store that holds the current pair.
//!
//! A [`TimerConfig`] is an immutable record of two positive lengths. The
//! [`ConfigStore`] holds exactly one such record and only ever swaps it
//! whole, so a reader can never see the on length of one record next to the
//! off length of another. Changing the store takes `&mut`: exclusive access
//! is what makes the swap indivisible. Two parties that share one store put
//! it behind a single lock, which hands out that access to one of them at a
//! time.

use vstd::prelude::*;

verus! {

/// Length of the on phase before any update arrives, in milliseconds.
pub const DEFAULT_ON_MS: u32 = 240_000;

/// Length of the off phase before any update arrives, in milliseconds.
pub const DEFAULT_OFF_MS: u32 = 480_000;

/// Milliseconds in one second.
pub const MS_PER_SECOND: u32 = 1000;

/// The largest number of seconds whose length in milliseconds still fits
/// the 32-bit word that carries a duration.
pub const MAX_SECONDS: u32 = 4_294_967;

/// The mathematical content of a timer configuration: two lengths in
/// milliseconds.
pub struct Durations {
    pub on_ms: nat,
    pub off_ms: nat,
}

impl Durations {
    /// Both lengths are positive and fit the machine word that carries them.
    pub open spec fn valid(self) -> bool {
        &&& 0 < self.on_ms <= u32::MAX
        &&& 0 < self.off_ms <= u32::MAX
    }
}

/// The durations a store starts with.
pub open spec fn default_durations() -> Durations {
    Durations { on_ms: DEFAULT_ON_MS as nat, off_ms: DEFAULT_OFF_MS as nat }
}

/// The on and off lengths of one cycle. Neither is ever zero.
#[derive(Clone, Copy, Debug, PartialEq, Eq, Structural)]
pub struct TimerConfig {
    on_ms: u32,
    off_ms: u32,
}

impl View for TimerConfig {
    type V = Durations;

    closed spec fn view(&self) -> Durations {
        Durations { on_ms: self.on_ms as nat, off_ms: self.off_ms as nat }
    }
}

impl TimerConfig {
    /// Holds of every configuration that executable code can get hold of.
    #[verifier::type_invariant]
    pub open spec fn well_formed(self) -> bool {
        self@.valid()
    }

    /// A configuration of the given lengths in milliseconds, unless one of
    /// them is zero.
    pub fn new(on_ms: u32, off_ms: u32) -> (made: Option<TimerConfig>)
        ensures
            made is Some <==> on_ms > 0 && off_ms > 0,
            made matches Some(c) ==> c@ == (Durations {
                on_ms: on_ms as nat,
                off_ms: off_ms as nat,
            }),
    {
        if on_ms == 0 || off_ms == 0 {
            None
        } else {
            Some(TimerConfig { on_ms, off_ms })
        }
    }

    /// A configuration of the given lengths in seconds, unless one of them
    /// is zero or longer than [`MAX_SECONDS`].
    pub fn from_seconds(on_s: u32, off_s: u32) -> (made: Option<TimerConfig>)
        ensures
            made is Some <==> 0 < on_s <= MAX_SECONDS && 0 < off_s <= MAX_SECONDS,
            made matches Some(c) ==> c@ == (Durations {
                on_ms: (on_s * 1000) as nat,
                off_ms: (off_s * 1000) as nat,
            }),
    {
        if on_s == 0 || off_s == 0 || on_s > MAX_SECONDS || off_s > MAX_SECONDS {
            None
        } else {
            Some(TimerConfig::of_seconds(on_s, off_s))
        }
    }

    /// A configuration of the given lengths in seconds, each known to lie
    /// between one and [`MAX_SECONDS`].
    pub(crate) fn of_seconds(on_s: u32, off_s: u32) -> (made: TimerConfig)
        requires
            0 < on_s <= MAX_SECONDS,
            0 < off_s <= MAX_SECONDS,
        ensures
            made@ == (Durations { on_ms: (on_s * 1000) as nat, off_ms: (off_s * 1000) as nat }),
    {
        TimerConfig { on_ms: on_s * MS_PER_SECOND, off_ms: off_s * MS_PER_SECOND }
    }

    /// Length of the on phase in milliseconds.
    pub fn on_duration(&self) -> (ms: u32)
        ensures
            ms as nat == self@.on_ms,
            ms > 0,
    {
        proof {
            use_type_invariant(self);
        }
        self.on_ms
    }

    /// Length of the off phase in milliseconds.
    pub fn off_duration(&self) -> (ms: u32)
        ensures
            ms as nat == self@.off_ms,
            ms > 0,
    {
        proof {
            use_type_invariant(self);
        }
        self.off_ms
    }
}

impl Default for TimerConfig {
    /// [`DEFAULT_ON_MS`] on, [`DEFAULT_OFF_MS`] off.
    fn default() -> (made: TimerConfig)
        ensures
            made@ == default_durations(),
    {
        TimerConfig { on_ms: DEFAULT_ON_MS, off_ms: DEFAULT_OFF_MS }
    }
}

/// Holder of the one current [`TimerConfig`].
///
/// There is no way to change one length alone: the record is replaced as a
/// whole or not at all.
#[derive(Debug)]
pub struct ConfigStore {
    current: TimerConfig,
}

impl View for ConfigStore {
    type V = Durations;

    closed spec fn view(&self) -> Durations {
        self.current@
    }
}

impl ConfigStore {
    /// Holds of every store that executable code can get hold of: no store
    /// ever holds a zero length.
    #[verifier::type_invariant]
    pub open spec fn well_formed(self) -> bool {
        self@.valid()
    }

    /// A store that holds `initial`.
    pub fn new(initial: TimerConfig) -> (store: ConfigStore)
        ensures
            store@ == initial@,
    {
        proof {
            use_type_invariant(initial);
        }
        ConfigStore { current: initial }
    }

    /// A copy of the record held now, both lengths from the same record.
    pub fn read(&self) -> (snapshot: TimerConfig)
        ensures
            snapshot@ == self@,
            snapshot@ == after(self@, StoreOp::Read),
    {
        self.current
    }

    /// Swaps the whole record for `new`.
    pub fn replace(&mut self, new: TimerConfig)
        ensures
            final(self)@ == new@,
            final(self)@ == after(old(self)@, StoreOp::Replace(new@)),
    {
        proof {
            use_type_invariant(new);
        }
        self.current = new;
    }
}

impl Default for ConfigStore {
    /// A store that holds the default configuration.
    fn default() -> (store: ConfigStore)
        ensures
            store@ == default_durations(),
    {
        ConfigStore::new(TimerConfig::default())
    }
}

/// One call on a store, as a history records it.
pub enum StoreOp {
    /// A call of [`ConfigStore::read`].
    Read,
    /// A call of [`ConfigStore::replace`] with a record of these durations.
    Replace(Durations),
}

/// What a store that held `held` holds after one call.
pub open spec fn after(held: Durations, op: StoreOp) -> Durations {
    match op {
        StoreOp::Read => held,
        StoreOp::Replace(new) => new,
    }
}

/// What a store that held `initial` holds after the calls of `ops`, made in
/// that order.
pub open spec fn after_all(initial: Durations, ops: Seq<StoreOp>) -> Durations
    decreases ops.len(),
{
    if ops.len() == 0 {
        initial
    } else {
        after(after_all(initial, ops.drop_last()), ops.last())
    }
}

/// What the call at position `i` of `ops` finds in the store, and so what
/// it returns if it is a read.
pub open spec fn seen_at(initial: Durations, ops: Seq<StoreOp>, i: int) -> Durations {
    after_all(initial, ops.take(i))
}

/// No replace stands before position `i` of `ops`.
pub open spec fn no_replace_before(ops: Seq<StoreOp>, i: int) -> bool {
    forall|k: int| 0 <= k < i ==> #[trigger] ops[k] is Read
}

/// The latest replace before position `i` of `ops` stands at position `j`.
pub open spec fn latest_replace_at(ops: Seq<StoreOp>, i: int, j: int) -> bool {
    &&& 0 <= j < i
    &&& ops[j] is Replace
    &&& forall|k: int| j < k < i ==> #[trigger] ops[k] is Read
}

/// No read is torn. In any sequence of reads and replaces on one store,
/// what a read returns is, as a whole record, the argument of the latest
/// replace before it, or the initial record where no replace came before.
/// Its two lengths therefore always stem from the same replace.
pub proof fn lemma_read_returns_latest_replace(initial: Durations, ops: Seq<StoreOp>, i: int)
    requires
        0 <= i <= ops.len(),
    ensures
        no_replace_before(ops, i) ==> seen_at(initial, ops, i) == initial,
        forall|j: int| #[trigger]
            latest_replace_at(ops, i, j) ==> ops[j] == StoreOp::Replace(seen_at(initial, ops, i)),
        no_replace_before(ops, i) || exists|j: int| latest_replace_at(ops, i, j),
    decreases i,
{
    if i > 0 {
        let prev = i - 1;
        let before = ops.take(i);
        assert(before.drop_last() == ops.take(prev));
        assert(before.last() == ops[prev]);
        lemma_read_returns_latest_replace(initial, ops, prev);
        match ops[prev] {
            StoreOp::Replace(new) => {
                assert(latest_replace_at(ops, i, prev));
                assert forall|j: int| #[trigger] latest_replace_at(ops, i, j) implies j == prev by {
                    if j < prev {
                        assert(ops[prev] is Read);
                    }
                }
            },
            StoreOp::Read => {
                assert forall|j: int| #[trigger]
                    latest_replace_at(ops, i, j) implies latest_replace_at(ops, prev, j) by {}
                if no_replace_before(ops, prev) {
                    assert(no_replace_before(ops, i));
                } else {
                    let j = choose|j: int| latest_replace_at(ops, prev, j);
                    assert(latest_replace_at(ops, i, j));
                }
            },
        }
    } else {
        assert(ops.take(0).len() == 0);
    }
}

/// A call that a store admits: a read, or a replace with a valid record.
pub open spec fn admissible(op: StoreOp) -> bool {
    op matches StoreOp::Replace(new) ==> new.valid()
}

/// A store keeps the invariant of its records through any history: after
/// reads and replaces with valid records it still holds a valid one.
pub proof fn lemma_history_keeps_lengths_positive(initial: Durations, ops: Seq<StoreOp>)
    requires
        initial.valid(),
        forall|k: int| 0 <= k < ops.len() ==> admissible(#[trigger] ops[k]),
    ensures
        after_all(initial, ops).valid(),
    decreases ops.len(),
{
    if ops.len() > 0 {
        lemma_history_keeps_lengths_positive(initial, ops.drop_last());
    }
}

} // verus!
