//! Event records and the forwarding policy: which records are handed on,
//! which trigger an action, and which are dropped.

use crate::intercept::{Action, InterceptedKeys};
use vstd::prelude::*;

verus! {

/// Event type of key and button events.
pub const EV_KEY: u16 = 1;

/// Event type of movement on a relative axis.
pub const EV_REL: u16 = 2;

/// Event type of movement on an absolute axis.
pub const EV_ABS: u16 = 3;

/// The value with which a key event reports a press.
pub const KEY_PRESS: i32 = 1;

/// The broad kind of an event record.
#[derive(Clone, Copy, Debug, PartialEq, Eq, Structural)]
pub enum EventKind {
    Key,
    Axis,
    Other,
}

/// One observed input occurrence. Its arrival order is its position in the
/// batch that it came in.
#[derive(Clone, Copy, Debug, PartialEq, Eq, Structural)]
pub struct EventRecord {
    pub event_type: u16,
    pub code: u16,
    pub value: i32,
}

impl EventRecord {
    /// The kind that the event type stands for.
    pub open spec fn kind_of(self) -> EventKind {
        if self.event_type == EV_KEY {
            EventKind::Key
        } else if self.event_type == EV_REL || self.event_type == EV_ABS {
            EventKind::Axis
        } else {
            EventKind::Other
        }
    }

    /// Whether the value denotes a press.
    pub open spec fn is_press(self) -> bool {
        self.value == KEY_PRESS
    }

    /// The kind of this record.
    pub fn kind(&self) -> (kind: EventKind)
        ensures
            kind == self.kind_of(),
    {
        if self.event_type == EV_KEY {
            EventKind::Key
        } else if self.event_type == EV_REL || self.event_type == EV_ABS {
            EventKind::Axis
        } else {
            EventKind::Other
        }
    }
}

/// A record is intercepted if it is a key event whose code is an intercepted
/// key, whatever its value.
pub open spec fn is_intercepted(keys: Map<u16, Action>, record: EventRecord) -> bool {
    record.kind_of() == EventKind::Key && keys.contains_key(record.code)
}

/// What the pump does with one record.
#[derive(Clone, Copy, Debug, PartialEq, Eq, Structural)]
pub enum Disposition {
    /// Hand the record on to the synthetic device.
    Forward,
    /// Trigger the action and drop the record.
    Dispatch(Action),
    /// Drop the record.
    Suppress,
}

/// The policy: an intercepted press triggers its action, any other intercepted
/// record is dropped, and everything else is handed on.
pub open spec fn disposition(keys: Map<u16, Action>, record: EventRecord) -> Disposition {
    if is_intercepted(keys, record) {
        if record.is_press() {
            Disposition::Dispatch(keys[record.code])
        } else {
            Disposition::Suppress
        }
    } else {
        Disposition::Forward
    }
}

/// Decides what to do with `record`.
pub fn classify(keys: &InterceptedKeys, record: &EventRecord) -> (decision: Disposition)
    ensures
        decision == disposition(keys@, *record),
{
    match record.kind() {
        EventKind::Key => match keys.action_for(record.code) {
            Some(action) => if record.value == KEY_PRESS {
                Disposition::Dispatch(action)
            } else {
                Disposition::Suppress
            },
            None => Disposition::Forward,
        },
        _ => Disposition::Forward,
    }
}

/// One step that the pump takes for a batch.
#[derive(Clone, Copy, Debug, PartialEq, Eq, Structural)]
pub enum Effect {
    Forward(EventRecord),
    Dispatch(Action),
}

/// The steps for a batch, in arrival order. A dropped record leaves no step.
pub open spec fn effects(keys: Map<u16, Action>, batch: Seq<EventRecord>) -> Seq<Effect>
    decreases batch.len(),
{
    if batch.len() == 0 {
        Seq::empty()
    } else {
        let earlier = effects(keys, batch.drop_last());
        match disposition(keys, batch.last()) {
            Disposition::Forward => earlier.push(Effect::Forward(batch.last())),
            Disposition::Dispatch(action) => earlier.push(Effect::Dispatch(action)),
            Disposition::Suppress => earlier,
        }
    }
}

/// The records that a sequence of steps hands on, in order.
pub open spec fn forwarded(steps: Seq<Effect>) -> Seq<EventRecord>
    decreases steps.len(),
{
    if steps.len() == 0 {
        Seq::empty()
    } else {
        match steps.last() {
            Effect::Forward(record) => forwarded(steps.drop_last()).push(record),
            Effect::Dispatch(_) => forwarded(steps.drop_last()),
        }
    }
}

/// The actions that a sequence of steps triggers, in order.
pub open spec fn dispatched(steps: Seq<Effect>) -> Seq<Action>
    decreases steps.len(),
{
    if steps.len() == 0 {
        Seq::empty()
    } else {
        match steps.last() {
            Effect::Forward(_) => dispatched(steps.drop_last()),
            Effect::Dispatch(action) => dispatched(steps.drop_last()).push(action),
        }
    }
}

/// The intercepted presses of a batch, in arrival order.
pub open spec fn intercepted_presses(keys: Map<u16, Action>, batch: Seq<EventRecord>) -> Seq<
    EventRecord,
> {
    batch.filter(|record: EventRecord| is_intercepted(keys, record) && record.is_press())
}

/// The records of a batch that are not intercepted, in arrival order.
pub open spec fn passed_on(keys: Map<u16, Action>, batch: Seq<EventRecord>) -> Seq<EventRecord> {
    batch.filter(|record: EventRecord| !is_intercepted(keys, record))
}

/// The forwarded output of a batch is the subsequence of its records that are
/// not intercepted, unmodified and in arrival order.
pub proof fn law_forwarded_is_passed_on(keys: Map<u16, Action>, batch: Seq<EventRecord>)
    ensures
        forwarded(effects(keys, batch)) == passed_on(keys, batch),
    decreases batch.len(),
{
    reveal(Seq::filter);
    if batch.len() > 0 {
        law_forwarded_is_passed_on(keys, batch.drop_last());
        let earlier = effects(keys, batch.drop_last());
        match disposition(keys, batch.last()) {
            Disposition::Forward => {
                assert(earlier.push(Effect::Forward(batch.last())).drop_last() =~= earlier);
            },
            Disposition::Dispatch(action) => {
                assert(earlier.push(Effect::Dispatch(action)).drop_last() =~= earlier);
            },
            Disposition::Suppress => {},
        }
    }
}

/// No intercepted record is ever part of the forwarded output of a batch,
/// be it a press, a release or any other value.
pub proof fn law_forwarded_never_intercepted(
    keys: Map<u16, Action>,
    batch: Seq<EventRecord>,
    i: int,
)
    requires
        0 <= i < forwarded(effects(keys, batch)).len(),
    ensures
        !is_intercepted(keys, forwarded(effects(keys, batch))[i]),
        batch.contains(forwarded(effects(keys, batch))[i]),
{
    law_forwarded_is_passed_on(keys, batch);
    let keep = |record: EventRecord| !is_intercepted(keys, record);
    batch.lemma_filter_pred(keep, i);
    let record = batch.filter(keep)[i];
    assert(batch.filter(keep).contains(record));
    batch.lemma_filter_contains_rev(keep, record);
}

/// The actions triggered for a batch are those of its intercepted presses,
/// one for each and in arrival order.
pub proof fn law_dispatched_is_presses(keys: Map<u16, Action>, batch: Seq<EventRecord>)
    ensures
        dispatched(effects(keys, batch)) == intercepted_presses(keys, batch).map_values(
            |record: EventRecord| keys[record.code],
        ),
    decreases batch.len(),
{
    reveal(Seq::filter);
    let action_of = |record: EventRecord| keys[record.code];
    if batch.len() > 0 {
        law_dispatched_is_presses(keys, batch.drop_last());
        let earlier = effects(keys, batch.drop_last());
        let presses = intercepted_presses(keys, batch.drop_last());
        match disposition(keys, batch.last()) {
            Disposition::Forward => {
                assert(earlier.push(Effect::Forward(batch.last())).drop_last() =~= earlier);
            },
            Disposition::Dispatch(action) => {
                assert(earlier.push(Effect::Dispatch(action)).drop_last() =~= earlier);
                assert(presses.push(batch.last()).map_values(action_of) =~= presses.map_values(
                    action_of,
                ).push(action));
            },
            Disposition::Suppress => {},
        }
    } else {
        assert(intercepted_presses(keys, batch).map_values(action_of) =~= Seq::<Action>::empty());
    }
}

/// Every step for a batch either hands on a record that is not intercepted or
/// triggers an action.
pub proof fn lemma_effects_allowed(keys: Map<u16, Action>, batch: Seq<EventRecord>, i: int)
    requires
        0 <= i < effects(keys, batch).len(),
    ensures
        match effects(keys, batch)[i] {
            Effect::Forward(record) => !is_intercepted(keys, record) && batch.contains(record),
            Effect::Dispatch(action) => keys.values().contains(action),
        },
    decreases batch.len(),
{
    if batch.len() > 0 {
        let earlier = effects(keys, batch.drop_last());
        if i < earlier.len() {
            lemma_effects_allowed(keys, batch.drop_last(), i);
            match earlier[i] {
                Effect::Forward(record) => {
                    let j = choose|j: int|
                        0 <= j < batch.drop_last().len() && batch.drop_last()[j] == record;
                    assert(batch[j] == record);
                },
                Effect::Dispatch(_) => {},
            }
        } else {
            assert(batch[batch.len() - 1] == batch.last());
            match disposition(keys, batch.last()) {
                Disposition::Forward => {},
                Disposition::Dispatch(action) => {
                    assert(keys.contains_key(batch.last().code));
                },
                Disposition::Suppress => {},
            }
        }
    }
}

/// Works out the steps for a batch: one per record that is handed on or that
/// triggers an action, in arrival order.
pub fn plan_batch(keys: &InterceptedKeys, batch: &Vec<EventRecord>) -> (steps: Vec<Effect>)
    ensures
        steps@ == effects(keys@, batch@),
        forwarded(steps@) == passed_on(keys@, batch@),
        dispatched(steps@) == intercepted_presses(keys@, batch@).map_values(
            |record: EventRecord| keys@[record.code],
        ),
        steps@.len() <= batch@.len(),
{
    let mut steps: Vec<Effect> = Vec::new();
    let mut i: usize = 0;
    while i < batch.len()
        invariant
            i <= batch.len(),
            steps@ == effects(keys@, batch@.take(i as int)),
            steps@.len() <= i,
        decreases batch.len() - i,
    {
        let record = batch[i];
        proof {
            assert(batch@.take(i + 1).drop_last() =~= batch@.take(i as int));
        }
        match classify(keys, &record) {
            Disposition::Forward => {
                steps.push(Effect::Forward(record));
            },
            Disposition::Dispatch(action) => {
                steps.push(Effect::Dispatch(action));
            },
            Disposition::Suppress => {},
        }
        i = i + 1;
    }
    proof {
        assert(batch@.take(i as int) =~= batch@);
        law_forwarded_is_passed_on(keys@, batch@);
        law_dispatched_is_presses(keys@, batch@);
    }
    steps
}

} // verus!
