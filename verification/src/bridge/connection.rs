use vstd::prelude::*;
use crate::app::concat3;
use crate::seqs::{lemma_filter_contains, lemma_filter_keeps, lemma_filter_no_duplicates, lemma_filter_unique_keys, unique_keys};
use crate::text::{chars_equal, chars_of};

verus! {

broadcast use vstd::string::group_string_axioms;

/// How `{:?}` spells a string: quoted, with its special characters escaped.
pub uninterp spec fn debug_text(s: Seq<char>) -> Seq<char>;

/// `format!("{s:?}")` on a `str`. Its result is named `debug_text` of the
/// text; nothing more about the escaping is claimed.
#[verifier::external_body]
pub(crate) fn debug_quoted(s: &str) -> (quoted: String)
    ensures
        quoted@ == debug_text(s@),
{
    format!("{s:?}")
}

/// What can go wrong on the bridge connection.
#[derive(Clone, Debug, PartialEq, Eq)]
pub enum WsError {
    NotConnected,
    Closed,
    Timeout,
    Remote(String),
    UnexpectedResponse { expected: String, actual: String },
    Protocol(String),
    OutboundFull,
    AlreadyResponded,
}

/// The text of an error: its `Debug` form, which is also what a peer is
/// told in a `RemoteError`.
pub open spec fn error_text(e: WsError) -> Seq<char> {
    match e {
        WsError::NotConnected => "NotConnected"@,
        WsError::Closed => "Closed"@,
        WsError::Timeout => "Timeout"@,
        WsError::Remote(message) => "Remote("@ + debug_text(message@) + ")"@,
        WsError::UnexpectedResponse { expected, actual } => "UnexpectedResponse { expected: "@
            + debug_text(expected@) + ", actual: "@ + debug_text(actual@) + " }"@,
        WsError::Protocol(message) => "Protocol("@ + debug_text(message@) + ")"@,
        WsError::OutboundFull => "OutboundFull"@,
        WsError::AlreadyResponded => "AlreadyResponded"@,
    }
}

impl WsError {
    /// The error as text (its `Debug` form).
    pub fn describe(&self) -> (text: String)
        ensures
            text@ == error_text(*self),
    {
        match self {
            WsError::NotConnected => String::from_str("NotConnected"),
            WsError::Closed => String::from_str("Closed"),
            WsError::Timeout => String::from_str("Timeout"),
            WsError::Remote(message) => {
                let quoted = debug_quoted(message.as_str());
                concat3("Remote(", quoted.as_str(), ")")
            },
            WsError::UnexpectedResponse { expected, actual } => {
                let first = debug_quoted(expected.as_str());
                let second = debug_quoted(actual.as_str());
                let head = concat3("UnexpectedResponse { expected: ", first.as_str(), ", actual: ");
                concat3(head.as_str(), second.as_str(), " }")
            },
            WsError::Protocol(message) => {
                let quoted = debug_quoted(message.as_str());
                concat3("Protocol(", quoted.as_str(), ")")
            },
            WsError::OutboundFull => String::from_str("OutboundFull"),
            WsError::AlreadyResponded => String::from_str("AlreadyResponded"),
        }
    }
}

/// The flag an inbound request carries once it is cancelled.
pub const INBOUND_CANCELLED: u8 = 1;

/// The flag an inbound request carries once its handler started.
pub const INBOUND_STARTED: u8 = 2;

/// The flag an inbound request carries once a response was reserved.
pub const INBOUND_RESPONDED: u8 = 4;

/// Whether the flag word `flags` has the single-bit flag `bit`.
pub open spec fn has_flag(flags: u8, bit: u8) -> bool {
    (flags / bit) % 2 == 1
}

/// `flags` with the single-bit flag `bit` set.
pub open spec fn with_flag(flags: u8, bit: u8) -> u8 {
    if has_flag(flags, bit) {
        flags
    } else {
        (flags + bit) as u8
    }
}

/// The lifecycle of one inbound request: cancelled, started and responded
/// are set at most once each and never cleared.
#[derive(Clone, Copy, Debug, PartialEq, Eq, Structural)]
pub struct InboundFlags {
    pub bits: u8,
}

impl InboundFlags {
    /// The flags of a request that nothing has happened to yet.
    pub fn new() -> (flags: InboundFlags)
        ensures
            flags.bits == 0,
    {
        InboundFlags { bits: 0 }
    }

    /// Whether the request was cancelled.
    pub fn is_cancelled(&self) -> (cancelled: bool)
        requires
            self.bits < 8,
        ensures
            cancelled == has_flag(self.bits, INBOUND_CANCELLED),
    {
        self.bits % 2 == 1
    }

    /// Whether a response was reserved.
    pub fn has_responded(&self) -> (responded: bool)
        requires
            self.bits < 8,
        ensures
            responded == has_flag(self.bits, INBOUND_RESPONDED),
    {
        self.bits >= 4
    }

    /// Whether the handler started.
    pub fn has_started(&self) -> (started: bool)
        requires
            self.bits < 8,
        ensures
            started == has_flag(self.bits, INBOUND_STARTED),
    {
        (self.bits / 2) % 2 == 1
    }

    /// Cancels the request; says whether this call cancelled it (the first
    /// cancel does, later ones change nothing).
    pub fn cancel(&mut self) -> (newly: bool)
        requires
            old(self).bits < 8,
        ensures
            newly == !has_flag(old(self).bits, INBOUND_CANCELLED),
            final(self).bits == with_flag(old(self).bits, INBOUND_CANCELLED),
            final(self).bits < 8,
    {
        if self.is_cancelled() {
            false
        } else {
            self.bits = self.bits + INBOUND_CANCELLED;
            true
        }
    }

    /// Starts the handler unless the request was cancelled or already
    /// started.
    pub fn try_start(&mut self) -> (started: bool)
        requires
            old(self).bits < 8,
        ensures
            started == (!has_flag(old(self).bits, INBOUND_CANCELLED) && !has_flag(old(self).bits, INBOUND_STARTED)),
            started ==> final(self).bits == with_flag(old(self).bits, INBOUND_STARTED),
            !started ==> final(self).bits == old(self).bits,
            final(self).bits < 8,
    {
        if self.is_cancelled() || self.has_started() {
            false
        } else {
            self.bits = self.bits + INBOUND_STARTED;
            true
        }
    }

    /// Reserves the one response a request may get: refused with `Closed`
    /// once cancelled, and with `AlreadyResponded` after the first.
    pub fn reserve_response(&mut self) -> (reserved: Result<(), WsError>)
        requires
            old(self).bits < 8,
        ensures
            has_flag(old(self).bits, INBOUND_CANCELLED) ==> reserved == Err::<(), WsError>(WsError::Closed),
            !has_flag(old(self).bits, INBOUND_CANCELLED) && has_flag(old(self).bits, INBOUND_RESPONDED)
                ==> reserved == Err::<(), WsError>(WsError::AlreadyResponded),
            !has_flag(old(self).bits, INBOUND_CANCELLED) && !has_flag(old(self).bits, INBOUND_RESPONDED)
                ==> reserved is Ok && final(self).bits == with_flag(old(self).bits, INBOUND_RESPONDED),
            reserved is Err ==> final(self).bits == old(self).bits,
            final(self).bits < 8,
    {
        if self.is_cancelled() {
            Err(WsError::Closed)
        } else if self.has_responded() {
            Err(WsError::AlreadyResponded)
        } else {
            self.bits = self.bits + INBOUND_RESPONDED;
            Ok(())
        }
    }
}

/// Law: flags only accumulate. Once cancelled, a request never starts and
/// never gets a response; a response is reserved at most once.
pub proof fn law_cancelled_requests_stay_silent(flags: u8)
    requires
        flags < 8,
        has_flag(flags, INBOUND_CANCELLED),
    ensures
        has_flag(with_flag(flags, INBOUND_STARTED), INBOUND_CANCELLED),
        has_flag(with_flag(flags, INBOUND_RESPONDED), INBOUND_CANCELLED),
        has_flag(with_flag(flags, INBOUND_CANCELLED), INBOUND_CANCELLED),
{
}

/// Law: after one reserved response, a second reservation is refused.
pub proof fn law_one_response_per_request(flags: u8)
    requires
        flags < 8,
        !has_flag(flags, INBOUND_RESPONDED),
    ensures
        has_flag(with_flag(flags, INBOUND_RESPONDED), INBOUND_RESPONDED),
        with_flag(flags, INBOUND_RESPONDED) < 8,
{
}


/// How many timed-out request ids are remembered, so that their late
/// responses are dropped instead of being taken for new requests.
pub const TIMED_OUT_CAPACITY: usize = 1024;

/// How long the connection waits before its next attempt, in nanoseconds:
/// the whole delay after a session that ran, and what is left of the delay
/// after an attempt that failed `elapsed` nanoseconds after it started.
pub fn reconnect_wait(connected: bool, delay: u64, elapsed: u64) -> (wait: u64)
    ensures
        connected ==> wait == delay,
        !connected && elapsed < delay ==> wait == delay - elapsed,
        !connected && elapsed >= delay ==> wait == 0,
{
    if connected {
        delay
    } else if elapsed < delay {
        delay - elapsed
    } else {
        0
    }
}

/// A request of ours that waits for its response.
#[derive(Debug)]
pub struct PendingEntry {
    pub uuid: u128,
    pub generation: u64,
    pub expected: String,
}

/// The uuid of a waiting request.
pub open spec fn pending_uuid(e: PendingEntry) -> u128 {
    e.uuid
}

/// The predicate "is not the request `uuid`".
pub open spec fn other_request(uuid: u128) -> spec_fn(PendingEntry) -> bool {
    |e: PendingEntry| e.uuid != uuid
}

/// The predicate "belongs to a generation other than `generation`".
pub open spec fn outside_generation(generation: u64) -> spec_fn(PendingEntry) -> bool {
    |e: PendingEntry| e.generation != generation
}

/// The predicate "belongs to `generation`".
pub open spec fn within_generation(generation: u64) -> spec_fn(PendingEntry) -> bool {
    |e: PendingEntry| e.generation == generation
}

/// The predicate "is an inbound key of a generation other than `generation`".
pub open spec fn inbound_outside(generation: u64) -> spec_fn((u64, u128)) -> bool {
    |k: (u64, u128)| k.0 != generation
}

/// The predicate "is an inbound key of `generation`".
pub open spec fn inbound_within(generation: u64) -> spec_fn((u64, u128)) -> bool {
    |k: (u64, u128)| k.0 == generation
}

/// The predicate "is not `uuid`".
pub open spec fn other_id(uuid: u128) -> spec_fn(u128) -> bool {
    |x: u128| x != uuid
}

/// Whether `s` holds a request `uuid` of `generation`.
pub open spec fn has_pending(s: Seq<PendingEntry>, uuid: u128, generation: u64) -> bool {
    exists|i: int| 0 <= i < s.len() && s[i].uuid == uuid && s[i].generation == generation
}

/// The bookkeeping of the bridge connection: which session (generation) is
/// live, the requests waiting for a response, the ids of requests that
/// timed out, the packet types that have a handler, and the inbound
/// requests being handled. Channels and tasks live beside it; this holds
/// the decisions.
#[derive(Debug)]
pub struct Registry {
    pub active: Option<u64>,
    pub next_generation: u64,
    pub shutting_down: bool,
    pub pending: Vec<PendingEntry>,
    pub timed_out: Vec<u128>,
    pub timed_out_set: Vec<u128>,
    pub handlers: Vec<String>,
    pub inbound: Vec<(u64, u128)>,
}

/// The views of a list of strings.
pub open spec fn string_views(s: Seq<String>) -> Seq<Seq<char>> {
    s.map_values(|x: String| x@)
}

impl Registry {
    /// Well-formedness: each request id waits at most once, at most
    /// [`TIMED_OUT_CAPACITY`] timed-out ids are kept, the timed-out set and
    /// the inbound keys hold no duplicates, and no generation is newer than
    /// the last one handed out.
    pub open spec fn wf(&self) -> bool {
        &&& unique_keys(self.pending@, |e: PendingEntry| e.uuid)
        &&& self.timed_out@.len() <= TIMED_OUT_CAPACITY
        &&& self.timed_out_set@.no_duplicates()
        &&& self.inbound@.no_duplicates()
        &&& (self.active matches Some(g) ==> 1 <= g <= self.next_generation)
        &&& forall|i: int| 0 <= i < self.pending@.len() ==> #[trigger] self.pending@[i].generation <= self.next_generation
        &&& forall|i: int| 0 <= i < self.inbound@.len() ==> #[trigger] self.inbound@[i].0 <= self.next_generation
    }

    /// Whether an id is among the timed-out ones.
    pub open spec fn tombstoned(&self, uuid: u128) -> bool {
        self.timed_out_set@.contains(uuid)
    }

    /// Whether a handler is registered for the packet type.
    pub open spec fn has_handler(&self, packet_type: Seq<char>) -> bool {
        string_views(self.handlers@).contains(packet_type)
    }

    /// A registry with no session, no requests and no handlers.
    pub fn new() -> (registry: Registry)
        ensures
            registry.wf(),
            registry.active is None,
            registry.next_generation == 0,
            !registry.shutting_down,
            registry.pending@.len() == 0,
            registry.timed_out@.len() == 0,
            registry.timed_out_set@.len() == 0,
            registry.handlers@.len() == 0,
            registry.inbound@.len() == 0,
    {
        Registry {
            active: None,
            next_generation: 0,
            shutting_down: false,
            pending: Vec::new(),
            timed_out: Vec::new(),
            timed_out_set: Vec::new(),
            handlers: Vec::new(),
            inbound: Vec::new(),
        }
    }

    /// The live generation; `NotConnected` without a session or while
    /// shutting down.
    pub fn active_generation(&self) -> (generation: Result<u64, WsError>)
        ensures
            self.shutting_down ==> generation == Err::<u64, WsError>(WsError::NotConnected),
            !self.shutting_down && self.active is None ==> generation == Err::<u64, WsError>(WsError::NotConnected),
            !self.shutting_down ==> (self.active matches Some(g) ==> generation == Ok::<u64, WsError>(g)),
    {
        if self.shutting_down {
            return Err(WsError::NotConnected);
        }
        match self.active {
            Some(generation) => Ok(generation),
            None => Err(WsError::NotConnected),
        }
    }

    /// Whether `generation` is the live one.
    pub fn is_active(&self, generation: u64) -> (active: bool)
        ensures
            active == (self.active == Some(generation)),
    {
        match self.active {
            Some(current) => current == generation,
            None => false,
        }
    }

    /// Starts a new session, with a generation newer than any before.
    pub fn activate(&mut self) -> (generation: u64)
        requires
            old(self).wf(),
            old(self).next_generation < u64::MAX,
        ensures
            final(self).wf(),
            generation == old(self).next_generation + 1,
            final(self).next_generation == generation,
            final(self).active == Some(generation),
            final(self).pending == old(self).pending,
            final(self).timed_out == old(self).timed_out,
            final(self).timed_out_set == old(self).timed_out_set,
            final(self).handlers == old(self).handlers,
            final(self).inbound == old(self).inbound,
            final(self).shutting_down == old(self).shutting_down,
    {
        self.next_generation = self.next_generation + 1;
        let generation = self.next_generation;
        self.active = Some(generation);
        generation
    }

    /// Registers a handler for a packet type; a second one for the same type
    /// is refused.
    pub fn register_handler(&mut self, packet_type: &str) -> (registered: Result<(), WsError>)
        ensures
            old(self).has_handler(packet_type@) ==> (registered matches Err(WsError::Protocol(m))
                && m@ == "handler already registered for "@ + packet_type@),
            old(self).has_handler(packet_type@) ==> final(self).handlers == old(self).handlers,
            !old(self).has_handler(packet_type@) ==> registered is Ok && string_views(final(self).handlers@)
                == string_views(old(self).handlers@).push(packet_type@),
            final(self).active == old(self).active,
            final(self).next_generation == old(self).next_generation,
            final(self).shutting_down == old(self).shutting_down,
            final(self).pending == old(self).pending,
            final(self).timed_out == old(self).timed_out,
            final(self).timed_out_set == old(self).timed_out_set,
            final(self).inbound == old(self).inbound,
    {
        let wanted = chars_of(packet_type);
        let mut i: usize = 0;
        while i < self.handlers.len()
            invariant
                i <= self.handlers@.len(),
                wanted@ == packet_type@,
                forall|j: int| 0 <= j < i ==> self.handlers@[j]@ != packet_type@,
            decreases self.handlers@.len() - i,
        {
            let existing = chars_of(self.handlers[i].as_str());
            if chars_equal(existing.as_slice(), wanted.as_slice()) {
                proof {
                    assert(string_views(self.handlers@)[i as int] == packet_type@);
                }
                let mut message = String::from_str("handler already registered for ");
                message.append(packet_type);
                return Err(WsError::Protocol(message));
            }
            i = i + 1;
        }
        proof {
            assert forall|j: int| 0 <= j < string_views(self.handlers@).len() implies string_views(
                self.handlers@,
            )[j] != packet_type@ by {}
        }
        let ghost before = self.handlers@;
        self.handlers.push(String::from_str(packet_type));
        proof {
            assert(string_views(self.handlers@) == string_views(before).push(packet_type@));
        }
        Ok(())
    }
}


/// The timed-out queue after remembering `uuid`: appended, and the oldest
/// forgotten once more than [`TIMED_OUT_CAPACITY`] are held.
pub open spec fn tombstones_after(queue: Seq<u128>, uuid: u128) -> Seq<u128> {
    let grown = queue.push(uuid);
    if grown.len() > TIMED_OUT_CAPACITY {
        grown.drop_first()
    } else {
        grown
    }
}

/// The timed-out set after remembering `uuid`: added, and the id that left
/// the queue removed.
pub open spec fn tombstone_set_after(queue: Seq<u128>, set: Seq<u128>, uuid: u128) -> Seq<u128> {
    let with = if set.contains(uuid) {
        set
    } else {
        set.push(uuid)
    };
    if queue.len() + 1 > TIMED_OUT_CAPACITY {
        with.filter(other_id(queue[0]))
    } else {
        with
    }
}

/// What closing a session leaves to do: the waiting requests to fail, the
/// inbound requests to cancel, and whether the live session ended (its
/// listeners are told).
#[derive(Debug)]
pub struct Closed {
    pub deactivated: bool,
    pub failed: Vec<PendingEntry>,
    pub cancelled: Vec<(u64, u128)>,
}

/// Splits requests into those of other generations and those of `generation`.
fn split_by_generation(entries: Vec<PendingEntry>, generation: u64) -> (parts: (Vec<PendingEntry>, Vec<PendingEntry>))
    ensures
        parts.0@ == entries@.filter(outside_generation(generation)),
        parts.1@ == entries@.filter(within_generation(generation)),
{
    let ghost initial = entries@;
    let mut rest = entries;
    let mut kept: Vec<PendingEntry> = Vec::new();
    let mut taken: Vec<PendingEntry> = Vec::new();
    let ghost mut k: int = 0;
    while rest.len() > 0
        invariant
            0 <= k <= initial.len(),
            rest@ == initial.skip(k),
            kept@ == initial.take(k).filter(outside_generation(generation)),
            taken@ == initial.take(k).filter(within_generation(generation)),
        decreases rest@.len(),
    {
        proof {
            reveal(Seq::filter);
            assert(initial.take(k + 1).drop_last() == initial.take(k));
            assert(initial.take(k + 1).last() == initial[k]);
            assert(rest@[0] == initial[k]);
        }
        let entry = rest.remove(0);
        if entry.generation == generation {
            taken.push(entry);
        } else {
            kept.push(entry);
        }
        proof {
            k = k + 1;
            assert(rest@ == initial.skip(k));
        }
    }
    proof {
        assert(initial.take(k) == initial);
    }
    (kept, taken)
}

/// Drops the requests with id `uuid`.
fn without_request(entries: Vec<PendingEntry>, uuid: u128) -> (kept: Vec<PendingEntry>)
    ensures
        kept@ == entries@.filter(other_request(uuid)),
{
    let ghost initial = entries@;
    let mut rest = entries;
    let mut kept: Vec<PendingEntry> = Vec::new();
    let ghost mut k: int = 0;
    while rest.len() > 0
        invariant
            0 <= k <= initial.len(),
            rest@ == initial.skip(k),
            kept@ == initial.take(k).filter(other_request(uuid)),
        decreases rest@.len(),
    {
        proof {
            reveal(Seq::filter);
            assert(initial.take(k + 1).drop_last() == initial.take(k));
            assert(initial.take(k + 1).last() == initial[k]);
            assert(rest@[0] == initial[k]);
        }
        let entry = rest.remove(0);
        if entry.uuid != uuid {
            kept.push(entry);
        }
        proof {
            k = k + 1;
            assert(rest@ == initial.skip(k));
        }
    }
    proof {
        assert(initial.take(k) == initial);
    }
    kept
}

/// Splits inbound keys into those of other generations and those of `generation`.
fn split_inbound(keys: &Vec<(u64, u128)>, generation: u64) -> (parts: (Vec<(u64, u128)>, Vec<(u64, u128)>))
    ensures
        parts.0@ == keys@.filter(inbound_outside(generation)),
        parts.1@ == keys@.filter(inbound_within(generation)),
{
    let mut kept: Vec<(u64, u128)> = Vec::new();
    let mut taken: Vec<(u64, u128)> = Vec::new();
    let mut i: usize = 0;
    while i < keys.len()
        invariant
            i <= keys@.len(),
            kept@ == keys@.take(i as int).filter(inbound_outside(generation)),
            taken@ == keys@.take(i as int).filter(inbound_within(generation)),
        decreases keys@.len() - i,
    {
        proof {
            reveal(Seq::filter);
            assert(keys@.take(i + 1).drop_last() == keys@.take(i as int));
            assert(keys@.take(i + 1).last() == keys@[i as int]);
        }
        let key = keys[i];
        if key.0 == generation {
            taken.push(key);
        } else {
            kept.push(key);
        }
        i = i + 1;
    }
    proof {
        assert(keys@.take(keys@.len() as int) == keys@);
    }
    (kept, taken)
}

/// Drops every occurrence of `uuid`.
fn without_id(ids: &Vec<u128>, uuid: u128) -> (kept: Vec<u128>)
    ensures
        kept@ == ids@.filter(other_id(uuid)),
{
    let mut kept: Vec<u128> = Vec::new();
    let mut i: usize = 0;
    while i < ids.len()
        invariant
            i <= ids@.len(),
            kept@ == ids@.take(i as int).filter(other_id(uuid)),
        decreases ids@.len() - i,
    {
        proof {
            reveal(Seq::filter);
            assert(ids@.take(i + 1).drop_last() == ids@.take(i as int));
            assert(ids@.take(i + 1).last() == ids@[i as int]);
        }
        if ids[i] != uuid {
            kept.push(ids[i]);
        }
        i = i + 1;
    }
    proof {
        assert(ids@.take(ids@.len() as int) == ids@);
    }
    kept
}

/// Whether `ids` holds `uuid`.
fn holds_id(ids: &Vec<u128>, uuid: u128) -> (found: bool)
    ensures
        found == ids@.contains(uuid),
{
    let mut i: usize = 0;
    while i < ids.len()
        invariant
            i <= ids@.len(),
            forall|j: int| 0 <= j < i ==> ids@[j] != uuid,
        decreases ids@.len() - i,
    {
        if ids[i] == uuid {
            return true;
        }
        i = i + 1;
    }
    false
}

/// Whether `keys` holds the inbound key `(generation, uuid)`.
fn holds_key(keys: &Vec<(u64, u128)>, generation: u64, uuid: u128) -> (found: bool)
    ensures
        found == keys@.contains((generation, uuid)),
{
    let mut i: usize = 0;
    while i < keys.len()
        invariant
            i <= keys@.len(),
            forall|j: int| 0 <= j < i ==> keys@[j] != (generation, uuid),
        decreases keys@.len() - i,
    {
        if keys[i].0 == generation && keys[i].1 == uuid {
            return true;
        }
        i = i + 1;
    }
    false
}

/// Whether `entries` holds the request `uuid` of `generation`.
fn holds_request(entries: &Vec<PendingEntry>, uuid: u128, generation: u64) -> (found: bool)
    ensures
        found == has_pending(entries@, uuid, generation),
{
    let mut i: usize = 0;
    while i < entries.len()
        invariant
            i <= entries@.len(),
            forall|j: int| 0 <= j < i ==> !(entries@[j].uuid == uuid && entries@[j].generation == generation),
        decreases entries@.len() - i,
    {
        if entries[i].uuid == uuid && entries[i].generation == generation {
            return true;
        }
        i = i + 1;
    }
    false
}

/// Filtering keeps every element within the generation bound.
proof fn lemma_filter_pending_bounded(s: Seq<PendingEntry>, pred: spec_fn(PendingEntry) -> bool, bound: u64)
    requires
        forall|i: int| 0 <= i < s.len() ==> #[trigger] s[i].generation <= bound,
    ensures
        forall|i: int| 0 <= i < s.filter(pred).len() ==> #[trigger] s.filter(pred)[i].generation <= bound,
{
    assert forall|i: int| 0 <= i < s.filter(pred).len() implies #[trigger] s.filter(pred)[i].generation <= bound by {
        lemma_filter_contains(s, pred, i);
    }
}

/// Filtering keeps every inbound key within the generation bound.
proof fn lemma_filter_inbound_bounded(s: Seq<(u64, u128)>, pred: spec_fn((u64, u128)) -> bool, bound: u64)
    requires
        forall|i: int| 0 <= i < s.len() ==> #[trigger] s[i].0 <= bound,
    ensures
        forall|i: int| 0 <= i < s.filter(pred).len() ==> #[trigger] s.filter(pred)[i].0 <= bound,
{
    assert forall|i: int| 0 <= i < s.filter(pred).len() implies #[trigger] s.filter(pred)[i].0 <= bound by {
        lemma_filter_contains(s, pred, i);
    }
}

impl Registry {
    /// Records a request of ours that waits for its response; refused with
    /// `Closed` unless `generation` is the live session. A request with the
    /// same id is replaced.
    pub fn add_pending(&mut self, uuid: u128, generation: u64, expected: String) -> (added: Result<(), WsError>)
        requires
            old(self).wf(),
        ensures
            final(self).wf(),
            old(self).active != Some(generation) ==> added == Err::<(), WsError>(WsError::Closed)
                && final(self).pending == old(self).pending,
            old(self).active == Some(generation) ==> added is Ok && final(self).pending@ == old(
                self,
            ).pending@.filter(other_request(uuid)).push(PendingEntry { uuid, generation, expected }),
            final(self).active == old(self).active,
            final(self).next_generation == old(self).next_generation,
            final(self).shutting_down == old(self).shutting_down,
            final(self).timed_out == old(self).timed_out,
            final(self).timed_out_set == old(self).timed_out_set,
            final(self).handlers == old(self).handlers,
            final(self).inbound == old(self).inbound,
    {
        if !self.is_active(generation) {
            return Err(WsError::Closed);
        }
        let mut entries: Vec<PendingEntry> = Vec::new();
        std::mem::swap(&mut entries, &mut self.pending);
        let ghost before = entries@;
        let mut kept = without_request(entries, uuid);
        proof {
            let key = |e: PendingEntry| e.uuid;
            lemma_filter_unique_keys(before, other_request(uuid), key);
            lemma_filter_pending_bounded(before, other_request(uuid), self.next_generation);
        }
        let ghost filtered = kept@;
        kept.push(PendingEntry { uuid, generation, expected });
        proof {
            assert forall|i: int| 0 <= i < filtered.len() implies #[trigger] filtered[i].uuid != uuid by {
                lemma_filter_contains(before, other_request(uuid), i);
            }
            assert forall|i: int, j: int|
                0 <= i < kept@.len() && 0 <= j < kept@.len() && i != j implies kept@[i].uuid != kept@[j].uuid by {
                if i < filtered.len() && j < filtered.len() {
                    assert(kept@[i] == filtered[i] && kept@[j] == filtered[j]);
                } else if i < filtered.len() {
                    assert(kept@[i] == filtered[i]);
                } else {
                    assert(kept@[j] == filtered[j]);
                }
            }
            assert forall|i: int| 0 <= i < kept@.len() implies #[trigger] kept@[i].generation <= self.next_generation by {
                if i < filtered.len() {
                    assert(kept@[i] == filtered[i]);
                }
            }
        }
        self.pending = kept;
        Ok(())
    }

    /// Forgets the request `uuid` of `generation`; says whether it waited.
    pub fn remove_pending(&mut self, uuid: u128, generation: u64) -> (removed: bool)
        requires
            old(self).wf(),
        ensures
            final(self).wf(),
            removed == has_pending(old(self).pending@, uuid, generation),
            removed ==> final(self).pending@ == old(self).pending@.filter(other_request(uuid)),
            !removed ==> final(self).pending == old(self).pending,
            final(self).active == old(self).active,
            final(self).next_generation == old(self).next_generation,
            final(self).shutting_down == old(self).shutting_down,
            final(self).timed_out == old(self).timed_out,
            final(self).timed_out_set == old(self).timed_out_set,
            final(self).handlers == old(self).handlers,
            final(self).inbound == old(self).inbound,
    {
        if !holds_request(&self.pending, uuid, generation) {
            return false;
        }
        let mut entries: Vec<PendingEntry> = Vec::new();
        std::mem::swap(&mut entries, &mut self.pending);
        let ghost before = entries@;
        let kept = without_request(entries, uuid);
        proof {
            let key = |e: PendingEntry| e.uuid;
            lemma_filter_unique_keys(before, other_request(uuid), key);
            lemma_filter_pending_bounded(before, other_request(uuid), self.next_generation);
        }
        self.pending = kept;
        true
    }

    /// Forgets a request that timed out and remembers its id, so that a
    /// late response is dropped; says whether it waited.
    pub fn remove_pending_and_tombstone(&mut self, uuid: u128, generation: u64) -> (removed: bool)
        requires
            old(self).wf(),
        ensures
            final(self).wf(),
            removed == has_pending(old(self).pending@, uuid, generation),
            removed ==> final(self).pending@ == old(self).pending@.filter(other_request(uuid)),
            removed ==> final(self).timed_out@ == tombstones_after(old(self).timed_out@, uuid),
            removed ==> final(self).timed_out_set@ == tombstone_set_after(
                old(self).timed_out@,
                old(self).timed_out_set@,
                uuid,
            ),
            !removed ==> final(self).pending == old(self).pending && final(self).timed_out == old(self).timed_out
                && final(self).timed_out_set == old(self).timed_out_set,
            final(self).active == old(self).active,
            final(self).next_generation == old(self).next_generation,
            final(self).shutting_down == old(self).shutting_down,
            final(self).handlers == old(self).handlers,
            final(self).inbound == old(self).inbound,
    {
        if !self.remove_pending(uuid, generation) {
            return false;
        }
        let ghost queue = self.timed_out@;
        let ghost set = self.timed_out_set@;
        self.timed_out.push(uuid);
        if !holds_id(&self.timed_out_set, uuid) {
            self.timed_out_set.push(uuid);
            proof {
                assert(self.timed_out_set@.no_duplicates()) by {
                    assert forall|i: int, j: int|
                        0 <= i < self.timed_out_set@.len() && 0 <= j < self.timed_out_set@.len() && i != j
                            implies self.timed_out_set@[i] != self.timed_out_set@[j] by {
                        if i < set.len() && j < set.len() {
                        } else if i < set.len() {
                            assert(set.contains(set[i]));
                        } else {
                            assert(set.contains(set[j]));
                        }
                    }
                }
            }
        }
        if self.timed_out.len() > TIMED_OUT_CAPACITY {
            let oldest = self.timed_out.remove(0);
            let ghost with = self.timed_out_set@;
            let kept = without_id(&self.timed_out_set, oldest);
            proof {
                lemma_filter_no_duplicates(with, other_id(oldest));
                assert(oldest == queue[0]);
            }
            self.timed_out_set = kept;
        }
        true
    }

    /// Closes the session `generation`: if it is the live one it ends and
    /// the timed-out ids are forgotten; either way its waiting requests are
    /// handed back to be failed and its inbound requests to be cancelled.
    pub fn close_generation(&mut self, generation: u64) -> (closed: Closed)
        requires
            old(self).wf(),
        ensures
            final(self).wf(),
            closed.deactivated == (old(self).active == Some(generation)),
            closed.deactivated ==> final(self).active is None && final(self).timed_out@.len() == 0
                && final(self).timed_out_set@.len() == 0,
            !closed.deactivated ==> final(self).active == old(self).active && final(self).timed_out
                == old(self).timed_out && final(self).timed_out_set == old(self).timed_out_set,
            final(self).pending@ == old(self).pending@.filter(outside_generation(generation)),
            closed.failed@ == old(self).pending@.filter(within_generation(generation)),
            final(self).inbound@ == old(self).inbound@.filter(inbound_outside(generation)),
            closed.cancelled@ == old(self).inbound@.filter(inbound_within(generation)),
            final(self).next_generation == old(self).next_generation,
            final(self).shutting_down == old(self).shutting_down,
            final(self).handlers == old(self).handlers,
    {
        let deactivated = self.is_active(generation);
        if deactivated {
            self.active = None;
            self.timed_out.clear();
            self.timed_out_set.clear();
        }
        let mut entries: Vec<PendingEntry> = Vec::new();
        std::mem::swap(&mut entries, &mut self.pending);
        let ghost before = entries@;
        let (kept, failed) = split_by_generation(entries, generation);
        proof {
            let key = |e: PendingEntry| e.uuid;
            lemma_filter_unique_keys(before, outside_generation(generation), key);
            lemma_filter_pending_bounded(before, outside_generation(generation), self.next_generation);
        }
        self.pending = kept;
        let ghost keys = self.inbound@;
        let (others, cancelled) = split_inbound(&self.inbound, generation);
        proof {
            lemma_filter_no_duplicates(keys, inbound_outside(generation));
            lemma_filter_inbound_bounded(keys, inbound_outside(generation), self.next_generation);
        }
        self.inbound = others;
        Closed { deactivated, failed, cancelled }
    }

    /// Shuts the registry down: no session, nothing waiting, nothing
    /// inbound; everything that waited or ran is handed back.
    pub fn close_all(&mut self) -> (closed: Closed)
        requires
            old(self).wf(),
        ensures
            final(self).wf(),
            final(self).shutting_down,
            final(self).active is None,
            closed.deactivated == old(self).active is Some,
            closed.failed@ == old(self).pending@,
            closed.cancelled@ == old(self).inbound@,
            final(self).pending@.len() == 0,
            final(self).inbound@.len() == 0,
            final(self).timed_out@.len() == 0,
            final(self).timed_out_set@.len() == 0,
            final(self).next_generation == old(self).next_generation,
            final(self).handlers == old(self).handlers,
    {
        self.shutting_down = true;
        let deactivated = self.active.is_some();
        self.active = None;
        self.timed_out.clear();
        self.timed_out_set.clear();
        let mut failed: Vec<PendingEntry> = Vec::new();
        std::mem::swap(&mut failed, &mut self.pending);
        let mut cancelled: Vec<(u64, u128)> = Vec::new();
        std::mem::swap(&mut cancelled, &mut self.inbound);
        Closed { deactivated, failed, cancelled }
    }
}


/// What a waiter is told when its response arrives.
#[derive(Debug)]
pub enum Resolution {
    /// The peer answered with a `RemoteError`: its message fails the waiter.
    RemoteError,
    /// The answer has another type than the one expected.
    Mismatch(WsError),
    /// The answer is the expected response; its payload goes to the waiter.
    Payload,
}

/// Where an envelope read from the live socket goes.
#[derive(Debug)]
pub enum Route {
    /// It belongs to a session that is no longer live: dropped.
    Stale,
    /// A `Cancel` for an inbound request; `found` says whether it runs.
    Cancel { found: bool },
    /// The response to a waiting request, which no longer waits.
    Resolve { entry: PendingEntry, outcome: Resolution },
    /// A `RemoteError` that answers no waiting request: reported locally.
    ReportRemoteError,
    /// A late response to a request that timed out: dropped.
    Discard,
    /// A request of a type with no handler: answered with a `RemoteError`.
    UnknownType,
    /// A request whose id is already being handled: dropped.
    Duplicate,
    /// A new inbound request, now registered: its handler runs.
    StartHandler,
}

/// The message a peer gets for a request type nobody handles.
pub open spec fn unknown_type_message(packet_type: Seq<char>) -> Seq<char> {
    "unknown packet type: "@ + packet_type
}

/// The message a peer gets when a handler panicked.
pub open spec fn panic_message(payload: Seq<char>) -> Seq<char> {
    "handler panicked: "@ + payload
}

/// The error for a request type nobody handles.
pub fn unknown_type_error(packet_type: &str) -> (message: String)
    ensures
        message@ == unknown_type_message(packet_type@),
{
    let mut message = String::from_str("unknown packet type: ");
    message.append(packet_type);
    message
}

/// The error for a handler that panicked with `payload`.
pub fn handler_panic_error(payload: &str) -> (error: WsError)
    ensures
        error matches WsError::Protocol(m) && m@ == panic_message(payload@),
{
    let mut message = String::from_str("handler panicked: ");
    message.append(payload);
    WsError::Protocol(message)
}

/// What to do when a handler ended with an error: tell the peer, unless a
/// response already went out, in which case the error is only reported.
#[derive(Debug, PartialEq, Eq)]
pub enum HandlerFailure {
    SendRemoteError(String),
    Report,
}

/// Decides what a handler's error leads to.
pub fn handler_failure(error: &WsError, responded: bool) -> (action: HandlerFailure)
    ensures
        responded ==> action == HandlerFailure::Report,
        !responded ==> (action matches HandlerFailure::SendRemoteError(m) && m@ == error_text(*error)),
{
    if responded {
        HandlerFailure::Report
    } else {
        HandlerFailure::SendRemoteError(error.describe())
    }
}

impl Registry {
    /// Routes an envelope read from session `generation`: stale sessions are
    /// ignored, `Cancel` cancels, a response resolves its waiter once, an
    /// unmatched `RemoteError` is reported, a late answer to a timed-out
    /// request is dropped, an unknown type is answered with an error, and a
    /// new request is registered for its handler unless its id already runs.
    pub fn route(&mut self, generation: u64, packet_type: &str, uuid: u128) -> (route: Route)
        requires
            old(self).wf(),
        ensures
            final(self).wf(),
            old(self).active != Some(generation) ==> route is Stale && *final(self) == *old(self),
            old(self).active == Some(generation) && packet_type@ == "Cancel"@ ==> route == (Route::Cancel {
                found: old(self).inbound@.contains((generation, uuid)),
            }) && *final(self) == *old(self),
            old(self).active == Some(generation) && packet_type@ != "Cancel"@ && has_pending(
                old(self).pending@,
                uuid,
                generation,
            ) ==> (route matches Route::Resolve { entry, outcome } && entry.uuid == uuid && entry.generation
                == generation && old(self).pending@.contains(entry) && (if packet_type@ == "RemoteError"@ {
                outcome is RemoteError
            } else if packet_type@ != entry.expected@ {
                outcome matches Resolution::Mismatch(WsError::UnexpectedResponse { expected, actual })
                    && expected@ == entry.expected@ && actual@ == packet_type@
            } else {
                outcome is Payload
            })) && final(self).pending@ == old(self).pending@.filter(other_request(uuid))
                && final(self).inbound == old(self).inbound,
            old(self).active == Some(generation) && packet_type@ != "Cancel"@ && !has_pending(
                old(self).pending@,
                uuid,
                generation,
            ) && packet_type@ == "RemoteError"@ ==> route is ReportRemoteError && *final(self) == *old(self),
            old(self).active == Some(generation) && packet_type@ != "Cancel"@ && !has_pending(
                old(self).pending@,
                uuid,
                generation,
            ) && packet_type@ != "RemoteError"@ && old(self).tombstoned(uuid) ==> route is Discard && *final(self)
                == *old(self),
            old(self).active == Some(generation) && packet_type@ != "Cancel"@ && !has_pending(
                old(self).pending@,
                uuid,
                generation,
            ) && packet_type@ != "RemoteError"@ && !old(self).tombstoned(uuid) && !old(self).has_handler(
                packet_type@,
            ) ==> route is UnknownType && *final(self) == *old(self),
            old(self).active == Some(generation) && packet_type@ != "Cancel"@ && !has_pending(
                old(self).pending@,
                uuid,
                generation,
            ) && packet_type@ != "RemoteError"@ && !old(self).tombstoned(uuid) && old(self).has_handler(
                packet_type@,
            ) && old(self).inbound@.contains((generation, uuid)) ==> route is Duplicate && *final(self) == *old(self),
            old(self).active == Some(generation) && packet_type@ != "Cancel"@ && !has_pending(
                old(self).pending@,
                uuid,
                generation,
            ) && packet_type@ != "RemoteError"@ && !old(self).tombstoned(uuid) && old(self).has_handler(
                packet_type@,
            ) && !old(self).inbound@.contains((generation, uuid)) ==> route is StartHandler
                && final(self).inbound@ == old(self).inbound@.push((generation, uuid)) && final(self).pending
                == old(self).pending,
            final(self).active == old(self).active,
            final(self).next_generation == old(self).next_generation,
            final(self).shutting_down == old(self).shutting_down,
            final(self).timed_out == old(self).timed_out,
            final(self).timed_out_set == old(self).timed_out_set,
            final(self).handlers == old(self).handlers,
    {
        if !self.is_active(generation) {
            return Route::Stale;
        }
        let kind = chars_of(packet_type);
        let cancel = chars_of("Cancel");
        let remote_error = chars_of("RemoteError");
        if chars_equal(kind.as_slice(), cancel.as_slice()) {
            let found = holds_key(&self.inbound, generation, uuid);
            return Route::Cancel { found };
        }
        let is_remote_error = chars_equal(kind.as_slice(), remote_error.as_slice());
        let mut i: usize = 0;
        while i < self.pending.len()
            invariant
                i <= self.pending@.len(),
                forall|j: int| 0 <= j < i ==> !(self.pending@[j].uuid == uuid && self.pending@[j].generation == generation),
                *self == *old(self),
                self.wf(),
                self.active == Some(generation),
                kind@ == packet_type@,
                packet_type@ != "Cancel"@,
                is_remote_error == (packet_type@ == "RemoteError"@),
            decreases self.pending@.len() - i,
        {
            if self.pending[i].uuid == uuid && self.pending[i].generation == generation {
                let ghost before = self.pending@;
                let entry = self.pending.remove(i);
                proof {
                    assert(before.contains(entry)) by {
                        assert(before[i as int] == entry);
                    }
                    let key = |e: PendingEntry| e.uuid;
                    assert forall|j: int| 0 <= j < before.len() && j != i implies #[trigger] before[j].uuid != uuid by {
                        assert(key(before[j]) != key(before[i as int]));
                    }
                    lemma_removed_is_filtered(before, i as int, uuid);
                    lemma_filter_unique_keys(before, other_request(uuid), key);
                    lemma_filter_pending_bounded(before, other_request(uuid), self.next_generation);
                }
                let outcome = if is_remote_error {
                    Resolution::RemoteError
                } else {
                    let expected = chars_of(entry.expected.as_str());
                    if chars_equal(kind.as_slice(), expected.as_slice()) {
                        Resolution::Payload
                    } else {
                        Resolution::Mismatch(
                            WsError::UnexpectedResponse {
                                expected: entry.expected.clone(),
                                actual: String::from_str(packet_type),
                            },
                        )
                    }
                };
                return Route::Resolve { entry, outcome };
            }
            i = i + 1;
        }
        if is_remote_error {
            return Route::ReportRemoteError;
        }
        if holds_id(&self.timed_out_set, uuid) {
            return Route::Discard;
        }
        let mut h: usize = 0;
        let mut handled = false;
        while h < self.handlers.len() && !handled
            invariant
                h <= self.handlers@.len(),
                kind@ == packet_type@,
                handled ==> self.has_handler(packet_type@),
                !handled ==> forall|j: int| 0 <= j < h ==> self.handlers@[j]@ != packet_type@,
            decreases self.handlers@.len() - h + (if handled { 0int } else { 1int }),
        {
            let name = chars_of(self.handlers[h].as_str());
            if chars_equal(name.as_slice(), kind.as_slice()) {
                proof {
                    assert(string_views(self.handlers@)[h as int] == packet_type@);
                }
                handled = true;
            } else {
                h = h + 1;
            }
        }
        if !handled {
            proof {
                assert forall|j: int| 0 <= j < string_views(self.handlers@).len() implies string_views(
                    self.handlers@,
                )[j] != packet_type@ by {}
            }
            return Route::UnknownType;
        }
        if holds_key(&self.inbound, generation, uuid) {
            return Route::Duplicate;
        }
        let ghost keys = self.inbound@;
        self.inbound.push((generation, uuid));
        proof {
            assert forall|a: int, b: int|
                0 <= a < self.inbound@.len() && 0 <= b < self.inbound@.len() && a != b implies self.inbound@[a]
                    != self.inbound@[b] by {
                if a < keys.len() && b < keys.len() {
                } else if a < keys.len() {
                    assert(keys.contains(keys[a]));
                } else {
                    assert(keys.contains(keys[b]));
                }
            }
            assert forall|j: int| 0 <= j < self.inbound@.len() implies #[trigger] self.inbound@[j].0 <= self.next_generation by {
                if j < keys.len() {
                    assert(self.inbound@[j] == keys[j]);
                }
            }
        }
        Route::StartHandler
    }

    /// Forgets an inbound request once its task ends.
    pub fn release_inbound(&mut self, generation: u64, uuid: u128)
        requires
            old(self).wf(),
        ensures
            final(self).wf(),
            final(self).inbound@ == old(self).inbound@.filter(other_key(generation, uuid)),
            final(self).active == old(self).active,
            final(self).next_generation == old(self).next_generation,
            final(self).shutting_down == old(self).shutting_down,
            final(self).pending == old(self).pending,
            final(self).timed_out == old(self).timed_out,
            final(self).timed_out_set == old(self).timed_out_set,
            final(self).handlers == old(self).handlers,
    {
        let ghost keys = self.inbound@;
        let kept = without_key(&self.inbound, generation, uuid);
        proof {
            lemma_filter_no_duplicates(keys, other_key(generation, uuid));
            lemma_filter_inbound_bounded(keys, other_key(generation, uuid), self.next_generation);
        }
        self.inbound = kept;
    }

    /// Whether session `generation` may still send: the live session's
    /// handlers and required replies fail with `Closed` otherwise.
    pub fn check_live(&self, generation: u64) -> (checked: Result<(), WsError>)
        ensures
            checked is Ok == (!self.shutting_down && self.active == Some(generation)),
            checked is Err ==> checked == Err::<(), WsError>(WsError::Closed),
    {
        match self.active_generation() {
            Ok(current) => {
                if current == generation {
                    Ok(())
                } else {
                    Err(WsError::Closed)
                }
            },
            Err(_) => Err(WsError::Closed),
        }
    }
}

/// The predicate "is not the inbound key `(generation, uuid)`".
pub open spec fn other_key(generation: u64, uuid: u128) -> spec_fn((u64, u128)) -> bool {
    |k: (u64, u128)| k != (generation, uuid)
}

/// Drops the inbound key `(generation, uuid)`.
fn without_key(keys: &Vec<(u64, u128)>, generation: u64, uuid: u128) -> (kept: Vec<(u64, u128)>)
    ensures
        kept@ == keys@.filter(other_key(generation, uuid)),
{
    let mut kept: Vec<(u64, u128)> = Vec::new();
    let mut i: usize = 0;
    while i < keys.len()
        invariant
            i <= keys@.len(),
            kept@ == keys@.take(i as int).filter(other_key(generation, uuid)),
        decreases keys@.len() - i,
    {
        proof {
            reveal(Seq::filter);
            assert(keys@.take(i + 1).drop_last() == keys@.take(i as int));
            assert(keys@.take(i + 1).last() == keys@[i as int]);
        }
        let key = keys[i];
        if !(key.0 == generation && key.1 == uuid) {
            kept.push(key);
        }
        i = i + 1;
    }
    proof {
        assert(keys@.take(keys@.len() as int) == keys@);
    }
    kept
}

/// Removing the only entry with id `uuid` is filtering out that id.
proof fn lemma_removed_is_filtered(s: Seq<PendingEntry>, i: int, uuid: u128)
    requires
        0 <= i < s.len(),
        s[i].uuid == uuid,
        forall|j: int| 0 <= j < s.len() && j != i ==> #[trigger] s[j].uuid != uuid,
    ensures
        s.remove(i) == s.filter(other_request(uuid)),
    decreases s.len(),
{
    reveal(Seq::filter);
    let last = s.len() - 1;
    if i == last {
        assert(s.remove(i) == s.drop_last());
        lemma_filter_all_kept(s.drop_last(), uuid);
    } else {
        let rest = s.drop_last();
        assert forall|j: int| 0 <= j < rest.len() && j != i implies #[trigger] rest[j].uuid != uuid by {
            assert(rest[j] == s[j]);
        }
        lemma_removed_is_filtered(rest, i, uuid);
        assert(s[last].uuid != uuid);
        assert(s.remove(i) == rest.remove(i).push(s[last]));
    }
}

/// Filtering out an id that does not occur changes nothing.
proof fn lemma_filter_all_kept(s: Seq<PendingEntry>, uuid: u128)
    requires
        forall|j: int| 0 <= j < s.len() ==> #[trigger] s[j].uuid != uuid,
    ensures
        s.filter(other_request(uuid)) == s,
    decreases s.len(),
{
    reveal(Seq::filter);
    if s.len() > 0 {
        let rest = s.drop_last();
        assert forall|j: int| 0 <= j < rest.len() implies #[trigger] rest[j].uuid != uuid by {
            assert(rest[j] == s[j]);
        }
        lemma_filter_all_kept(rest, uuid);
        assert(s.last() == s[s.len() - 1]);
        assert(rest.push(s.last()) == s);
    }
}


/// Law: closing a session leaves none of its waiting or inbound requests
/// behind, and hands back every one of them to be failed or cancelled.
pub proof fn law_closed_session_leaves_nothing_behind(
    pending: Seq<PendingEntry>,
    inbound: Seq<(u64, u128)>,
    generation: u64,
)
    ensures
        forall|i: int|
            0 <= i < pending.filter(outside_generation(generation)).len() ==> (#[trigger] pending.filter(
                outside_generation(generation),
            )[i]).generation != generation,
        forall|i: int|
            0 <= i < pending.len() && (#[trigger] pending[i]).generation == generation ==> pending.filter(
                within_generation(generation),
            ).contains(pending[i]),
        forall|i: int|
            0 <= i < inbound.filter(inbound_outside(generation)).len() ==> (#[trigger] inbound.filter(
                inbound_outside(generation),
            )[i]).0 != generation,
        forall|i: int|
            0 <= i < inbound.len() && (#[trigger] inbound[i]).0 == generation ==> inbound.filter(
                inbound_within(generation),
            ).contains(inbound[i]),
{
    assert forall|i: int|
        0 <= i < pending.filter(outside_generation(generation)).len() implies (#[trigger] pending.filter(
            outside_generation(generation),
        )[i]).generation != generation by {
        lemma_filter_contains(pending, outside_generation(generation), i);
    }
    assert forall|i: int|
        0 <= i < pending.len() && (#[trigger] pending[i]).generation == generation implies pending.filter(
            within_generation(generation),
        ).contains(pending[i]) by {
        lemma_filter_keeps(pending, within_generation(generation), i);
    }
    assert forall|i: int|
        0 <= i < inbound.filter(inbound_outside(generation)).len() implies (#[trigger] inbound.filter(
            inbound_outside(generation),
        )[i]).0 != generation by {
        lemma_filter_contains(inbound, inbound_outside(generation), i);
    }
    assert forall|i: int|
        0 <= i < inbound.len() && (#[trigger] inbound[i]).0 == generation implies inbound.filter(
            inbound_within(generation),
        ).contains(inbound[i]) by {
        lemma_filter_keeps(inbound, inbound_within(generation), i);
    }
}

/// Law: once a response resolved its waiter, no request with that id waits
/// any more, so a repeated response cannot resolve anything.
pub proof fn law_a_response_resolves_once(pending: Seq<PendingEntry>, uuid: u128, generation: u64)
    ensures
        !has_pending(pending.filter(other_request(uuid)), uuid, generation),
{
    if has_pending(pending.filter(other_request(uuid)), uuid, generation) {
        let i = choose|i: int|
            0 <= i < pending.filter(other_request(uuid)).len() && pending.filter(other_request(uuid))[i].uuid
                == uuid && pending.filter(other_request(uuid))[i].generation == generation;
        lemma_filter_contains(pending, other_request(uuid), i);
    }
}

/// Law: a new session's generation is newer than every generation the
/// registry still holds, so nothing of an older session is taken for it.
pub proof fn law_new_sessions_are_newer(registry: Registry)
    requires
        registry.wf(),
    ensures
        registry.active matches Some(g) ==> g < registry.next_generation + 1,
        forall|i: int|
            0 <= i < registry.pending@.len() ==> #[trigger] registry.pending@[i].generation < registry.next_generation
                + 1,
        forall|i: int|
            0 <= i < registry.inbound@.len() ==> #[trigger] registry.inbound@[i].0 < registry.next_generation + 1,
{
}

/// Law: the timed-out queue stays within its capacity, and the newest id
/// is always kept; below capacity nothing is forgotten.
pub proof fn law_tombstones_keep_the_newest(queue: Seq<u128>, uuid: u128)
    requires
        queue.len() <= TIMED_OUT_CAPACITY,
    ensures
        tombstones_after(queue, uuid).len() <= TIMED_OUT_CAPACITY,
        tombstones_after(queue, uuid).last() == uuid,
        queue.len() < TIMED_OUT_CAPACITY ==> tombstones_after(queue, uuid) == queue.push(uuid),
        queue.len() == TIMED_OUT_CAPACITY ==> tombstones_after(queue, uuid) == queue.drop_first().push(uuid),
{
    if queue.len() == TIMED_OUT_CAPACITY {
        assert(queue.push(uuid).drop_first() == queue.drop_first().push(uuid));
    }
}


/// A fresh random request id: `uuid::Uuid::new_v4()` as its 128-bit value.
/// It is random, so nothing is claimed of it.
#[verifier::external_body]
fn random_request_id() -> (id: u128) {
    uuid::Uuid::new_v4().as_u128()
}

impl Registry {
    /// Opens a request of ours on the live session: picks a random id and
    /// records that it waits for a response of type `expected`. Without a
    /// live session it fails with `NotConnected` and records nothing.
    pub fn open_request(&mut self, expected: String) -> (opened: Result<(u64, u128), WsError>)
        requires
            old(self).wf(),
        ensures
            final(self).wf(),
            (old(self).shutting_down || old(self).active is None) ==> opened == Err::<(u64, u128), WsError>(
                WsError::NotConnected,
            ) && final(self).pending == old(self).pending,
            !old(self).shutting_down && old(self).active is Some ==> (opened matches Ok((generation, uuid))
                && old(self).active == Some(generation) && final(self).pending@ == old(self).pending@.filter(
                other_request(uuid),
            ).push(PendingEntry { uuid, generation, expected })),
            final(self).active == old(self).active,
            final(self).next_generation == old(self).next_generation,
            final(self).shutting_down == old(self).shutting_down,
            final(self).timed_out == old(self).timed_out,
            final(self).timed_out_set == old(self).timed_out_set,
            final(self).handlers == old(self).handlers,
            final(self).inbound == old(self).inbound,
    {
        let generation = match self.active_generation() {
            Ok(generation) => generation,
            Err(error) => return Err(error),
        };
        let uuid = random_request_id();
        match self.add_pending(uuid, generation, expected) {
            Ok(()) => Ok((generation, uuid)),
            Err(error) => Err(error),
        }
    }
}

} // verus!
