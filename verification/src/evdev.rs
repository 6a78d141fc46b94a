//! Multi-touch input: grouping raw input events into synchronised chunks and
//! turning those chunks into per-slot touch states.
use vstd::prelude::*;

verus! {

/// Number of multi-touch slots that the touch tracking keeps state for.
pub const SLOT_COUNT: usize = 10;

/// A point on the touch screen, in the touch device's coordinates.
#[derive(Clone, Copy, Debug, PartialEq, Eq, Structural)]
pub struct Position {
    pub x: i32,
    pub y: i32,
}

/// The input event codes that the touch tracking tells apart. Every other
/// code is carried along as `Other`, with its kernel type and code numbers.
#[derive(Clone, Copy, Debug, PartialEq, Eq, Structural)]
pub enum EventCode {
    SynReport,
    SynDropped,
    AbsMtSlot,
    AbsMtPositionX,
    AbsMtPositionY,
    AbsMtTrackingId,
    Other { event_type: u16, code: u16 },
}

/// One input event as read from the touch device.
#[derive(Clone, Copy, Debug, PartialEq, Eq, Structural)]
pub struct InputEvent {
    pub event_code: EventCode,
    pub value: i32,
}

/// What is known about one multi-touch slot: where it was touched, whether
/// it is touched now, and the tracking id of its latest touch (which a
/// lift, reported as tracking id -1, leaves in place).
#[derive(Clone, Copy, Debug, PartialEq, Eq, Structural)]
pub struct SlotState {
    pub position: Position,
    pub btn_touch: bool,
    pub tracking_id: i32,
}

/// The state of one slot after a synchronised chunk changed it, with the
/// tracking id of the slot's latest touch.
#[derive(Clone, Copy, Debug, PartialEq, Eq, Structural)]
pub enum TouchState {
    NoTouch { slot: usize, tracking_id: i32 },
    Touch { slot: usize, tracking_id: i32, position: Position },
}

// ---------------------------------------------------------------------------
// Grouping events into chunks
// ---------------------------------------------------------------------------

pub open spec fn is_syn_event(e: InputEvent) -> bool {
    e.event_code is SynReport || e.event_code is SynDropped
}

/// One step of the grouping: a dropped-events marker is skipped, a report
/// closes the pending chunk, every other event joins the pending chunk.
pub open spec fn chunk_step(
    chunks: Seq<Seq<InputEvent>>,
    pending: Seq<InputEvent>,
    e: InputEvent,
) -> (Seq<Seq<InputEvent>>, Seq<InputEvent>) {
    match e.event_code {
        EventCode::SynDropped => (chunks, pending),
        EventCode::SynReport => (chunks.push(pending), Seq::empty()),
        _ => (chunks, pending.push(e)),
    }
}

/// The closed chunks and the pending chunk after reading `events`.
pub open spec fn chunk_events(events: Seq<InputEvent>) -> (Seq<Seq<InputEvent>>, Seq<InputEvent>)
    decreases events.len(),
{
    if events.len() == 0 {
        (Seq::empty(), Seq::empty())
    } else {
        let prev = chunk_events(events.drop_last());
        chunk_step(prev.0, prev.1, events.last())
    }
}

/// All chunks of a finite event stream: the closed ones, then the pending
/// one when the stream ends in the middle of a non-empty chunk.
pub open spec fn syn_chunks_of(events: Seq<InputEvent>) -> Seq<Seq<InputEvent>> {
    let (chunks, pending) = chunk_events(events);
    if pending.len() == 0 {
        chunks
    } else {
        chunks.push(pending)
    }
}

pub fn is_syn_dropped_event(event: &InputEvent) -> (r: bool)
    ensures
        r == (event.event_code is SynDropped),
{
    match event.event_code {
        EventCode::SynDropped => true,
        _ => false,
    }
}

pub fn is_syn_report_event(event: &InputEvent) -> (r: bool)
    ensures
        r == (event.event_code is SynReport),
{
    match event.event_code {
        EventCode::SynReport => true,
        _ => false,
    }
}

/// Groups a stream of input events into chunks that end at each report.
pub struct SynChunkSource {
    pending: Vec<InputEvent>,
}

impl SynChunkSource {
    /// The events read since the last report (dropped-events markers left out).
    pub closed spec fn pending(&self) -> Seq<InputEvent> {
        self.pending@
    }

    pub fn new() -> (r: SynChunkSource)
        ensures
            r.pending() == Seq::<InputEvent>::empty(),
    {
        SynChunkSource { pending: Vec::new() }
    }

    /// Reads one event; returns the completed chunk when the event is a report.
    pub fn feed(&mut self, event: InputEvent) -> (r: Option<Vec<InputEvent>>)
        ensures
            ({
                let (chunks, pending) = chunk_step(Seq::empty(), old(self).pending(), event);
                &&& final(self).pending() == pending
                &&& r is Some <==> event.event_code is SynReport
                &&& r matches Some(chunk) ==> chunks == seq![chunk@]
            }),
    {
        if is_syn_dropped_event(&event) {
            None
        } else if is_syn_report_event(&event) {
            let mut chunk: Vec<InputEvent> = Vec::new();
            std::mem::swap(&mut chunk, &mut self.pending);
            Some(chunk)
        } else {
            self.pending.push(event);
            None
        }
    }

    /// The end of the stream: returns the pending chunk unless it is empty.
    pub fn finish(&mut self) -> (r: Option<Vec<InputEvent>>)
        ensures
            final(self).pending() == Seq::<InputEvent>::empty(),
            r is Some <==> old(self).pending().len() > 0,
            r matches Some(chunk) ==> chunk@ == old(self).pending(),
    {
        if self.pending.len() == 0 {
            None
        } else {
            let mut chunk: Vec<InputEvent> = Vec::new();
            std::mem::swap(&mut chunk, &mut self.pending);
            Some(chunk)
        }
    }
}

pub open spec fn chunk_views(chunks: Seq<Vec<InputEvent>>) -> Seq<Seq<InputEvent>> {
    chunks.map_values(|c: Vec<InputEvent>| c@)
}

/// All chunks of a finite event stream, in the order in which they end.
pub fn syn_chunks(events: &Vec<InputEvent>) -> (r: Vec<Vec<InputEvent>>)
    ensures
        chunk_views(r@) == syn_chunks_of(events@),
{
    let mut source = SynChunkSource::new();
    let mut out: Vec<Vec<InputEvent>> = Vec::new();
    let mut i: usize = 0;
    while i < events.len()
        invariant
            i <= events.len(),
            chunk_views(out@) == chunk_events(events@.take(i as int)).0,
            source.pending() == chunk_events(events@.take(i as int)).1,
        decreases events.len() - i,
    {
        let ghost prev = events@.take(i as int);
        let ghost next = events@.take(i as int + 1);
        assert(next.drop_last() =~= prev);
        let event = events[i];
        assert(chunk_events(next) == chunk_step(chunk_events(prev).0, chunk_events(prev).1, event));
        let ghost before = out@;
        match source.feed(event) {
            Some(chunk) => {
                assert(event.event_code is SynReport);
                assert(Seq::<Seq<InputEvent>>::empty().push(chunk_events(prev).1)[0] == chunk@);
                out.push(chunk);
                assert(chunk_views(out@) =~= chunk_views(before).push(chunk@));
            },
            None => {
                assert(!(event.event_code is SynReport));
            },
        }
        i += 1;
    }
    assert(events@.take(events.len() as int) =~= events@);
    match source.finish() {
        Some(chunk) => {
            let ghost before = out@;
            out.push(chunk);
            assert(chunk_views(out@) =~= chunk_views(before).push(chunk@));
        },
        None => {},
    }
    out
}

// ---------------------------------------------------------------------------
// Tracking the state of the touch slots
// ---------------------------------------------------------------------------

/// The slot that a slot-selection event selects: none when its value is
/// negative or not below the number of slots.
pub open spec fn slot_selection(value: i32) -> Option<usize> {
    if 0 <= value < SLOT_COUNT as i32 {
        Some(value as usize)
    } else {
        None
    }
}

pub open spec fn initial_slot() -> SlotState {
    SlotState { position: Position { x: 0, y: 0 }, btn_touch: false, tracking_id: 0 }
}

pub open spec fn initial_slots() -> Seq<SlotState> {
    Seq::new(SLOT_COUNT as nat, |i: int| initial_slot())
}

pub open spec fn no_changes() -> Seq<bool> {
    Seq::new(SLOT_COUNT as nat, |i: int| false)
}

/// The effect of one event on the slots, the selected slot and the set of
/// changed slots.
pub open spec fn apply_event(
    slots: Seq<SlotState>,
    active: Option<usize>,
    changed: Seq<bool>,
    e: InputEvent,
) -> (Seq<SlotState>, Option<usize>, Seq<bool>) {
    match e.event_code {
        EventCode::AbsMtSlot => (slots, slot_selection(e.value), changed),
        EventCode::AbsMtPositionX => match active {
            Some(s) => (
                slots.update(
                    s as int,
                    SlotState {
                        position: Position { x: e.value, y: slots[s as int].position.y },
                        btn_touch: slots[s as int].btn_touch,
                        tracking_id: slots[s as int].tracking_id,
                    },
                ),
                active,
                changed.update(s as int, true),
            ),
            None => (slots, active, changed),
        },
        EventCode::AbsMtPositionY => match active {
            Some(s) => (
                slots.update(
                    s as int,
                    SlotState {
                        position: Position { x: slots[s as int].position.x, y: e.value },
                        btn_touch: slots[s as int].btn_touch,
                        tracking_id: slots[s as int].tracking_id,
                    },
                ),
                active,
                changed.update(s as int, true),
            ),
            None => (slots, active, changed),
        },
        EventCode::AbsMtTrackingId => match active {
            Some(s) => (
                slots.update(
                    s as int,
                    SlotState {
                        position: slots[s as int].position,
                        btn_touch: e.value != -1,
                        tracking_id: if e.value != -1 {
                            e.value
                        } else {
                            slots[s as int].tracking_id
                        },
                    },
                ),
                active,
                changed.update(s as int, true),
            ),
            None => (slots, active, changed),
        },
        _ => (slots, active, changed),
    }
}

/// The effect of a sequence of events, applied in order.
pub open spec fn apply_events(
    slots: Seq<SlotState>,
    active: Option<usize>,
    changed: Seq<bool>,
    events: Seq<InputEvent>,
) -> (Seq<SlotState>, Option<usize>, Seq<bool>)
    decreases events.len(),
{
    if events.len() == 0 {
        (slots, active, changed)
    } else {
        let prev = apply_events(slots, active, changed, events.drop_last());
        apply_event(prev.0, prev.1, prev.2, events.last())
    }
}

/// The slot selected after `events`, starting from `active`.
pub open spec fn active_after(active: Option<usize>, events: Seq<InputEvent>) -> Option<usize>
    decreases events.len(),
{
    if events.len() == 0 {
        active
    } else if events.last().event_code is AbsMtSlot {
        slot_selection(events.last().value)
    } else {
        active_after(active, events.drop_last())
    }
}

/// A selected slot, if any, is one of the tracked slots.
pub open spec fn valid_active(active: Option<usize>) -> bool {
    active matches Some(s) ==> s < SLOT_COUNT
}

/// What a changed slot reports.
pub open spec fn slot_report(slots: Seq<SlotState>, slot: int) -> TouchState {
    if slots[slot].btn_touch {
        TouchState::Touch {
            slot: slot as usize,
            tracking_id: slots[slot].tracking_id,
            position: slots[slot].position,
        }
    } else {
        TouchState::NoTouch { slot: slot as usize, tracking_id: slots[slot].tracking_id }
    }
}

/// The reports of the changed slots among the first `n` slots, by slot.
pub open spec fn report(slots: Seq<SlotState>, changed: Seq<bool>, n: nat) -> Seq<TouchState>
    decreases n,
{
    if n == 0 {
        Seq::empty()
    } else {
        let prev = report(slots, changed, (n - 1) as nat);
        if changed[n - 1] {
            prev.push(slot_report(slots, n - 1))
        } else {
            prev
        }
    }
}

/// Slots, selected slot and reports after one synchronised chunk.
pub open spec fn process_chunk_spec(
    slots: Seq<SlotState>,
    active: Option<usize>,
    chunk: Seq<InputEvent>,
) -> (Seq<SlotState>, Option<usize>, Seq<TouchState>) {
    let (s, a, c) = apply_events(slots, active, no_changes(), chunk);
    (s, a, report(s, c, SLOT_COUNT as nat))
}

proof fn lemma_apply_events_shape(
    slots: Seq<SlotState>,
    active: Option<usize>,
    changed: Seq<bool>,
    events: Seq<InputEvent>,
)
    requires
        slots.len() == SLOT_COUNT,
        changed.len() == SLOT_COUNT,
        valid_active(active),
    ensures
        apply_events(slots, active, changed, events).0.len() == SLOT_COUNT,
        apply_events(slots, active, changed, events).2.len() == SLOT_COUNT,
        apply_events(slots, active, changed, events).1 == active_after(active, events),
        valid_active(active_after(active, events)),
    decreases events.len(),
{
    if events.len() > 0 {
        lemma_apply_events_shape(slots, active, changed, events.drop_last());
    }
}

/// Tracks the multi-touch slots from synchronised chunks of input events.
pub struct TouchStateChunkSource {
    slots: [SlotState; 10],
    active_slot: Option<usize>,
}

impl TouchStateChunkSource {
    pub closed spec fn slots(&self) -> Seq<SlotState> {
        self.slots@
    }

    pub closed spec fn active_slot(&self) -> Option<usize> {
        self.active_slot
    }

    #[verifier::type_invariant]
    spec fn selected_slot_exists(&self) -> bool {
        valid_active(self.active_slot)
    }

    /// No slot is touched and no slot is selected at startup.
    pub fn new() -> (r: TouchStateChunkSource)
        ensures
            r.slots() == initial_slots(),
            r.active_slot() is None,
    {
        let slot = SlotState { position: Position { x: 0, y: 0 }, btn_touch: false, tracking_id: 0 };
        let r = TouchStateChunkSource { slots: [slot; 10], active_slot: None };
        assert(r.slots@ =~= initial_slots());
        r
    }

    /// Applies one synchronised chunk and reports every slot that it changed,
    /// in the order of the slots.
    pub fn process_chunk(&mut self, chunk: &Vec<InputEvent>) -> (r: Vec<TouchState>)
        ensures
            ({
                let (slots, active, reports) = process_chunk_spec(
                    old(self).slots(),
                    old(self).active_slot(),
                    chunk@,
                );
                &&& final(self).slots() == slots
                &&& final(self).active_slot() == active
                &&& r@ == reports
            }),
    {
        let mut changed = [false; 10];
        let ghost slots0 = self.slots@;
        let ghost active0 = self.active_slot;
        proof {
            use_type_invariant(&*self);
        }
        assert(changed@ =~= no_changes());
        let mut i: usize = 0;
        while i < chunk.len()
            invariant
                i <= chunk.len(),
                slots0.len() == SLOT_COUNT,
                valid_active(active0),
                valid_active(self.active_slot),
                self.active_slot == active_after(active0, chunk@.take(i as int)),
                (self.slots@, self.active_slot, changed@) == apply_events(
                    slots0,
                    active0,
                    no_changes(),
                    chunk@.take(i as int),
                ),
            decreases chunk.len() - i,
        {
            let ghost prev = chunk@.take(i as int);
            let ghost next = chunk@.take(i as int + 1);
            assert(next.drop_last() =~= prev);
            let event = chunk[i];
            assert(next.last() == event);
            match event.event_code {
                EventCode::AbsMtSlot => {
                    self.active_slot = if 0 <= event.value && event.value < 10 {
                        Some(event.value as usize)
                    } else {
                        None
                    };
                },
                EventCode::AbsMtPositionX => {
                    match self.active_slot {
                        Some(s) => {
                            changed[s] = true;
                            self.slots[s].position.x = event.value;
                        },
                        None => {},
                    }
                },
                EventCode::AbsMtPositionY => {
                    match self.active_slot {
                        Some(s) => {
                            changed[s] = true;
                            self.slots[s].position.y = event.value;
                        },
                        None => {},
                    }
                },
                EventCode::AbsMtTrackingId => {
                    match self.active_slot {
                        Some(s) => {
                            changed[s] = true;
                            if event.value == -1 {
                                self.slots[s].btn_touch = false;
                            } else {
                                self.slots[s].btn_touch = true;
                                self.slots[s].tracking_id = event.value;
                            }
                        },
                        None => {},
                    }
                },
                _ => {},
            }
            i += 1;
        }
        assert(chunk@.take(chunk.len() as int) =~= chunk@);
        let mut result: Vec<TouchState> = Vec::new();
        let mut slot: usize = 0;
        while slot < 10
            invariant
                slot <= 10,
                result@ == report(self.slots@, changed@, slot as nat),
            decreases 10 - slot,
        {
            if changed[slot] {
                let state = if self.slots[slot].btn_touch {
                    TouchState::Touch {
                        slot,
                        tracking_id: self.slots[slot].tracking_id,
                        position: self.slots[slot].position,
                    }
                } else {
                    TouchState::NoTouch { slot, tracking_id: self.slots[slot].tracking_id }
                };
                result.push(state);
            }
            slot += 1;
        }
        result
    }
}

/// The reports of all chunks, one chunk after the other.
pub open spec fn stream_touch_states(
    slots: Seq<SlotState>,
    active: Option<usize>,
    chunks: Seq<Seq<InputEvent>>,
) -> Seq<TouchState>
    decreases chunks.len(),
{
    if chunks.len() == 0 {
        Seq::empty()
    } else {
        let (s, a, out) = process_chunk_spec(slots, active, chunks[0]);
        out + stream_touch_states(s, a, chunks.drop_first())
    }
}

/// The touch states that a finite stream of input events yields, starting
/// with no slot touched and no slot selected.
pub fn touch_states(events: &Vec<InputEvent>) -> (r: Vec<TouchState>)
    ensures
        r@ == stream_touch_states(initial_slots(), None, syn_chunks_of(events@)),
{
    let chunks = syn_chunks(events);
    let ghost all = syn_chunks_of(events@);
    let mut tracker = TouchStateChunkSource::new();
    let mut out: Vec<TouchState> = Vec::new();
    let mut k: usize = 0;
    assert(all.skip(0) =~= all);
    assert(out@ + stream_touch_states(initial_slots(), None, all) =~= stream_touch_states(initial_slots(), None, all));
    while k < chunks.len()
        invariant
            k <= chunks.len(),
            chunk_views(chunks@) == all,
            out@ + stream_touch_states(tracker.slots(), tracker.active_slot(), all.skip(k as int))
                == stream_touch_states(initial_slots(), None, all),
        decreases chunks.len() - k,
    {
        let ghost rest = all.skip(k as int);
        assert(rest[0] == chunks@[k as int]@);
        assert(rest.drop_first() =~= all.skip(k as int + 1));
        let reports = tracker.process_chunk(&chunks[k]);
        let ghost before = out@;
        out.append(&mut reports.clone());
        assert(out@ == before + reports@);
        assert(before + (reports@ + stream_touch_states(tracker.slots(), tracker.active_slot(), all.skip(k as int + 1)))
            =~= out@ + stream_touch_states(tracker.slots(), tracker.active_slot(), all.skip(k as int + 1)));
        k += 1;
    }
    assert(all.skip(chunks.len() as int) =~= Seq::<Seq<InputEvent>>::empty());
    assert(out@ + Seq::<TouchState>::empty() =~= out@);
    out
}

// ---------------------------------------------------------------------------
// Laws
// ---------------------------------------------------------------------------

pub open spec fn not_syn(e: InputEvent) -> bool {
    !is_syn_event(e)
}

/// No chunk, closed or pending, ever holds a report or a dropped-events marker.
pub proof fn lemma_chunks_hold_no_syn_events(events: Seq<InputEvent>)
    ensures
        forall|i: int, j: int|
            0 <= i < chunk_events(events).0.len() && 0 <= j < chunk_events(events).0[i].len()
                ==> !is_syn_event(#[trigger] chunk_events(events).0[i][j]),
        forall|j: int|
            0 <= j < chunk_events(events).1.len() ==> !is_syn_event(
                #[trigger] chunk_events(events).1[j],
            ),
    decreases events.len(),
{
    if events.len() > 0 {
        let prefix = events.drop_last();
        lemma_chunks_hold_no_syn_events(prefix);
        let (chunks, pending) = chunk_events(prefix);
        let e = events.last();
        match e.event_code {
            EventCode::SynDropped => {},
            EventCode::SynReport => {
                let next = chunks.push(pending);
                assert forall|i: int, j: int|
                    0 <= i < next.len() && 0 <= j < next[i].len() implies !is_syn_event(
                        #[trigger] next[i][j],
                    ) by {
                    if i < chunks.len() {
                        assert(next[i] == chunks[i]);
                    } else {
                        assert(next[i] == pending);
                    }
                }
            },
            _ => {
                let next = pending.push(e);
                assert forall|j: int| 0 <= j < next.len() implies !is_syn_event(
                    #[trigger] next[j],
                ) by {
                    if j < pending.len() {
                        assert(next[j] == pending[j]);
                    }
                }
            },
        }
    }
}

/// Grouping loses, duplicates and reorders no event: the chunks, read one
/// after the other, are exactly the events other than reports and
/// dropped-events markers.
pub proof fn lemma_chunks_partition_events(events: Seq<InputEvent>)
    ensures
        syn_chunks_of(events).flatten() == events.filter(|e: InputEvent| not_syn(e)),
{
    lemma_chunk_events_partition(events);
    let (chunks, pending) = chunk_events(events);
    chunks.lemma_flatten_and_flatten_alt_are_equivalent();
    if pending.len() == 0 {
        assert(chunks.flatten_alt() + pending =~= chunks.flatten_alt());
    } else {
        let all = chunks.push(pending);
        all.lemma_flatten_and_flatten_alt_are_equivalent();
        assert(all.drop_last() =~= chunks);
    }
}

proof fn lemma_chunk_events_partition(events: Seq<InputEvent>)
    ensures
        chunk_events(events).0.flatten_alt() + chunk_events(events).1 == events.filter(
            |e: InputEvent| not_syn(e),
        ),
    decreases events.len(),
{
    let pred = |e: InputEvent| not_syn(e);
    if events.len() == 0 {
        reveal(Seq::filter);
        assert(Seq::<Seq<InputEvent>>::empty().flatten_alt() + Seq::<InputEvent>::empty()
            =~= events.filter(pred));
    } else {
        let prefix = events.drop_last();
        let e = events.last();
        lemma_chunk_events_partition(prefix);
        assert(prefix.push(e) =~= events);
        prefix.lemma_filter_push(e, pred);
        let (chunks, pending) = chunk_events(prefix);
        match e.event_code {
            EventCode::SynDropped => {},
            EventCode::SynReport => {
                let next = chunks.push(pending);
                assert(next.drop_last() =~= chunks);
                assert(next.flatten_alt() == chunks.flatten_alt() + pending);
                assert(next.flatten_alt() + Seq::<InputEvent>::empty() =~= chunks.flatten_alt()
                    + pending);
            },
            _ => {
                assert(chunks.flatten_alt() + pending.push(e) =~= (chunks.flatten_alt()
                    + pending).push(e));
            },
        }
    }
}

/// The slot that a touch state belongs to.
pub open spec fn touch_slot(t: TouchState) -> usize {
    match t {
        TouchState::NoTouch { slot, .. } => slot,
        TouchState::Touch { slot, .. } => slot,
    }
}

proof fn lemma_report_facts(slots: Seq<SlotState>, changed: Seq<bool>, n: nat)
    requires
        n <= changed.len(),
        n <= slots.len(),
        n <= SLOT_COUNT,
    ensures
        forall|i: int, j: int|
            0 <= i < j < report(slots, changed, n).len() ==> touch_slot(
                #[trigger] report(slots, changed, n)[i],
            ) < touch_slot(#[trigger] report(slots, changed, n)[j]),
        forall|i: int|
            0 <= i < report(slots, changed, n).len() ==> {
                let t = #[trigger] report(slots, changed, n)[i];
                &&& touch_slot(t) < n
                &&& changed[touch_slot(t) as int]
                &&& t == slot_report(slots, touch_slot(t) as int)
            },
        forall|s: int|
            0 <= s < n && #[trigger] changed[s] ==> exists|i: int|
                0 <= i < report(slots, changed, n).len() && touch_slot(
                    report(slots, changed, n)[i],
                ) == s,
    decreases n,
{
    if n > 0 {
        lemma_report_facts(slots, changed, (n - 1) as nat);
        let prev = report(slots, changed, (n - 1) as nat);
        if changed[n - 1] {
            let r = prev.push(slot_report(slots, n - 1));
            assert(touch_slot(r[r.len() - 1]) == n - 1);
            assert forall|s: int| 0 <= s < n && #[trigger] changed[s] implies exists|i: int|
                0 <= i < r.len() && touch_slot(r[i]) == s by {
                if s == n - 1 {
                    assert(touch_slot(r[r.len() - 1]) == s);
                } else {
                    let i = choose|i: int| 0 <= i < prev.len() && touch_slot(prev[i]) == s;
                    assert(r[i] == prev[i]);
                }
            }
        }
    }
}

proof fn lemma_unchanged_slots_keep_state(
    slots: Seq<SlotState>,
    active: Option<usize>,
    events: Seq<InputEvent>,
)
    requires
        slots.len() == SLOT_COUNT,
        valid_active(active),
    ensures
        ({
            let (s, a, c) = apply_events(slots, active, no_changes(), events);
            forall|i: int| 0 <= i < SLOT_COUNT && !#[trigger] c[i] ==> s[i] == slots[i]
        }),
    decreases events.len(),
{
    if events.len() > 0 {
        let prefix = events.drop_last();
        lemma_unchanged_slots_keep_state(slots, active, prefix);
        lemma_apply_events_shape(slots, active, no_changes(), prefix);
    }
}

/// What a synchronised chunk reports: at most one state per slot, in
/// increasing slot order; each reported state is the slot's new state; and
/// every slot that is not reported keeps its old state.
pub proof fn lemma_chunk_reports(
    slots: Seq<SlotState>,
    active: Option<usize>,
    chunk: Seq<InputEvent>,
)
    requires
        slots.len() == SLOT_COUNT,
        valid_active(active),
    ensures
        ({
            let (s, a, r) = process_chunk_spec(slots, active, chunk);
            &&& forall|i: int, j: int|
                0 <= i < j < r.len() ==> touch_slot(#[trigger] r[i]) < touch_slot(#[trigger] r[j])
            &&& forall|i: int|
                0 <= i < r.len() ==> touch_slot(#[trigger] r[i]) < SLOT_COUNT && r[i]
                    == slot_report(s, touch_slot(r[i]) as int)
            &&& forall|k: int|
                0 <= k < SLOT_COUNT && (forall|i: int|
                    0 <= i < r.len() ==> touch_slot(#[trigger] r[i]) != k) ==> #[trigger] s[k]
                    == slots[k]
        }),
{
    lemma_apply_events_shape(slots, active, no_changes(), chunk);
    lemma_unchanged_slots_keep_state(slots, active, chunk);
    let (s, a, c) = apply_events(slots, active, no_changes(), chunk);
    lemma_report_facts(s, c, SLOT_COUNT as nat);
    let r = report(s, c, SLOT_COUNT as nat);
    assert forall|k: int|
        0 <= k < SLOT_COUNT && (forall|i: int|
            0 <= i < r.len() ==> touch_slot(#[trigger] r[i]) != k) implies #[trigger] s[k]
        == slots[k] by {
        if c[k] {
            let i = choose|i: int| 0 <= i < r.len() && touch_slot(r[i]) == k;
            assert(touch_slot(r[i]) != k);
        }
    }
}

} // verus!

verus! {

/// Whether an event is one that slot tracking does not read: anything but
/// a slot selection, a position or a tracking id.
pub open spec fn untracked(e: InputEvent) -> bool {
    !(e.event_code is AbsMtSlot || e.event_code is AbsMtPositionX
        || e.event_code is AbsMtPositionY || e.event_code is AbsMtTrackingId)
}

proof fn lemma_apply_events_append(
    slots: Seq<SlotState>,
    active: Option<usize>,
    changed: Seq<bool>,
    first: Seq<InputEvent>,
    rest: Seq<InputEvent>,
)
    ensures
        ({
            let (s, a, c) = apply_events(slots, active, changed, first);
            apply_events(slots, active, changed, first + rest) == apply_events(s, a, c, rest)
        }),
    decreases rest.len(),
{
    if rest.len() == 0 {
        assert(first + rest =~= first);
    } else {
        lemma_apply_events_append(slots, active, changed, first, rest.drop_last());
        assert((first + rest).drop_last() =~= first + rest.drop_last());
        assert((first + rest).last() == rest.last());
    }
}

/// An event that slot tracking does not read changes nothing, wherever it
/// stands in a chunk: the slots, the selected slot and the reports are
/// those of the chunk without it.
pub proof fn lemma_untracked_events_change_nothing(
    slots: Seq<SlotState>,
    active: Option<usize>,
    before: Seq<InputEvent>,
    e: InputEvent,
    after: Seq<InputEvent>,
)
    requires
        untracked(e),
    ensures
        process_chunk_spec(slots, active, before + seq![e] + after) == process_chunk_spec(
            slots,
            active,
            before + after,
        ),
{
    let with_e = before + seq![e] + after;
    lemma_apply_events_append(slots, active, no_changes(), before + seq![e], after);
    lemma_apply_events_append(slots, active, no_changes(), before, seq![e]);
    lemma_apply_events_append(slots, active, no_changes(), before, after);
    let mid = apply_events(slots, active, no_changes(), before);
    assert(seq![e].drop_last() =~= Seq::<InputEvent>::empty());
    assert(seq![e].last() == e);
    assert(apply_events(mid.0, mid.1, mid.2, Seq::<InputEvent>::empty()) == mid);
    assert(apply_event(mid.0, mid.1, mid.2, e) == mid);
    assert(apply_events(mid.0, mid.1, mid.2, seq![e]) == mid);
}

} // verus!
