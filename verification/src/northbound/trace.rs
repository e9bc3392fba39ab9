//! Options that say what is traced.

use vstd::prelude::*;

verus! {

/// Whether packets are traced as they are sent and received.
#[derive(Clone, Copy, Debug, PartialEq, Eq, Structural)]
pub struct TraceOptionPacketType {
    pub tx: bool,
    pub rx: bool,
}

/// Change of a trace option.
#[derive(Clone, Copy, Debug, PartialEq, Eq, Structural)]
pub enum TraceFlagChange {
    Create,
    Delete,
    Entry(TraceFlagEntryChange),
}

/// Change within an existing trace option.
#[derive(Clone, Copy, Debug, PartialEq, Eq, Structural)]
pub enum TraceFlagEntryChange {
    Send(bool),
    Receive(bool),
}

/// An option that is on or off, after a change.
#[verifier::opaque]
pub open spec fn flag_changed(flag: bool, change: TraceFlagChange) -> bool {
    match change {
        TraceFlagChange::Create => true,
        TraceFlagChange::Delete => false,
        TraceFlagChange::Entry(_) => flag,
    }
}

/// An option on packets, after a change. Creating an option that exists leaves
/// it as it is.
#[verifier::opaque]
pub open spec fn slot_changed(
    slot: Option<TraceOptionPacketType>,
    change: TraceFlagChange,
    dflt: TraceOptionPacketType,
) -> Option<TraceOptionPacketType> {
    match (change, slot) {
        (TraceFlagChange::Create, Some(s)) => Some(s),
        (TraceFlagChange::Create, None) => Some(dflt),
        (TraceFlagChange::Delete, _) => None,
        (TraceFlagChange::Entry(TraceFlagEntryChange::Send(tx)), Some(s)) => Some(TraceOptionPacketType { tx, ..s }),
        (TraceFlagChange::Entry(TraceFlagEntryChange::Receive(rx)), Some(s)) => Some(TraceOptionPacketType { rx, ..s }),
        (TraceFlagChange::Entry(_), None) => None,
    }
}

/// Whether a change of an option on packets has any effect to announce.
#[verifier::opaque]
pub open spec fn slot_notes(slot: Option<TraceOptionPacketType>, change: TraceFlagChange) -> bool {
    change is Entry ==> slot is Some
}

/// Changes an option that is on or off, and says whether there is something to
/// announce.
pub(crate) fn apply_flag(flag: &mut bool, change: &TraceFlagChange) -> (notes: bool)
    ensures
        *final(flag) == flag_changed(*old(flag), *change),
        notes == !(change is Entry),
{
    reveal(flag_changed);
    match change {
        TraceFlagChange::Create => {
            *flag = true;
            true
        },
        TraceFlagChange::Delete => {
            *flag = false;
            true
        },
        TraceFlagChange::Entry(_) => false,
    }
}

/// Changes an option on packets, and says whether there is something to
/// announce.
pub(crate) fn apply_slot(
    slot: &mut Option<TraceOptionPacketType>,
    change: &TraceFlagChange,
    dflt: TraceOptionPacketType,
) -> (notes: bool)
    ensures
        *final(slot) == slot_changed(*old(slot), *change, dflt),
        notes == slot_notes(*old(slot), *change),
{
    reveal(slot_changed);
    reveal(slot_notes);
    match change {
        TraceFlagChange::Create => {
            if slot.is_none() {
                *slot = Some(dflt);
            }
            true
        },
        TraceFlagChange::Delete => {
            *slot = None;
            true
        },
        TraceFlagChange::Entry(change) => match slot {
            Some(s) => {
                match change {
                    TraceFlagEntryChange::Send(enable) => {
                        s.tx = *enable;
                    },
                    TraceFlagEntryChange::Receive(enable) => {
                        s.rx = *enable;
                    },
                }
                true
            },
            None => false,
        },
    }
}

/// The option on one kind of packets that is in force: its own option comes
/// first, then the one on all packets, then the two of the level above.
/// Without any, nothing is traced.
pub open spec fn resolved(
    own: Option<TraceOptionPacketType>,
    own_all: Option<TraceOptionPacketType>,
    above: Option<TraceOptionPacketType>,
    above_all: Option<TraceOptionPacketType>,
) -> TraceOptionPacketType {
    match (own, own_all, above, above_all) {
        (Some(t), _, _, _) => t,
        (None, Some(t), _, _) => t,
        (None, None, Some(t), _) => t,
        (None, None, None, Some(t)) => t,
        (None, None, None, None) => TraceOptionPacketType { tx: false, rx: false },
    }
}

pub(crate) fn resolve(
    own: Option<TraceOptionPacketType>,
    own_all: Option<TraceOptionPacketType>,
    above: Option<TraceOptionPacketType>,
    above_all: Option<TraceOptionPacketType>,
) -> (r: TraceOptionPacketType)
    ensures
        r == resolved(own, own_all, above, above_all),
{
    if let Some(t) = own {
        return t;
    }
    if let Some(t) = own_all {
        return t;
    }
    if let Some(t) = above {
        return t;
    }
    if let Some(t) = above_all {
        return t;
    }
    TraceOptionPacketType { tx: false, rx: false }
}

/// An option of one's own overrides whatever the level above says.
pub proof fn own_option_overrides(
    own: Option<TraceOptionPacketType>,
    own_all: Option<TraceOptionPacketType>,
    above: Option<TraceOptionPacketType>,
    above_all: Option<TraceOptionPacketType>,
    other: Option<TraceOptionPacketType>,
    other_all: Option<TraceOptionPacketType>,
)
    requires
        own is Some || own_all is Some,
    ensures
        resolved(own, own_all, above, above_all) == resolved(own, own_all, other, other_all),
{
}

/// Deleting an option that was just created leaves none.
pub proof fn delete_undoes_create(slot: Option<TraceOptionPacketType>, dflt: TraceOptionPacketType)
    ensures
        slot_changed(slot_changed(slot, TraceFlagChange::Create, dflt), TraceFlagChange::Delete, dflt) is None,
        !flag_changed(flag_changed(false, TraceFlagChange::Create), TraceFlagChange::Delete),
{
    reveal(slot_changed);
    reveal(flag_changed);
}

/// An option is on from its creation to its deletion; changes within it leave it as it is.
pub proof fn options_are_on_while_they_exist(flag: bool, entry: TraceFlagEntryChange)
    ensures
        flag_changed(flag, TraceFlagChange::Create),
        !flag_changed(flag, TraceFlagChange::Delete),
        flag_changed(flag, TraceFlagChange::Entry(entry)) == flag,
{
    reveal(flag_changed);
}

/// An option on packets starts out with the default unless it is there already, takes what
/// is configured for each direction, and goes as a whole. A change within one that is not
/// there has no effect, and is the only one not worth announcing.
pub proof fn packet_options_are_taken_as_configured(
    s: TraceOptionPacketType,
    dflt: TraceOptionPacketType,
    on: bool,
    slot: Option<TraceOptionPacketType>,
    entry: TraceFlagEntryChange,
)
    ensures
        slot_changed(None, TraceFlagChange::Create, dflt) == Some(dflt),
        slot_changed(Some(s), TraceFlagChange::Create, dflt) == Some(s),
        slot_changed(slot, TraceFlagChange::Delete, dflt) is None,
        slot_changed(Some(s), TraceFlagChange::Entry(TraceFlagEntryChange::Send(on)), dflt) == Some(
            TraceOptionPacketType { tx: on, rx: s.rx },
        ),
        slot_changed(Some(s), TraceFlagChange::Entry(TraceFlagEntryChange::Receive(on)), dflt) == Some(
            TraceOptionPacketType { tx: s.tx, rx: on },
        ),
        slot_changed(None, TraceFlagChange::Entry(entry), dflt) is None,
        slot_notes(slot, TraceFlagChange::Create),
        slot_notes(slot, TraceFlagChange::Delete),
        slot_notes(Some(s), TraceFlagChange::Entry(entry)),
        !slot_notes(None, TraceFlagChange::Entry(entry)),
{
    reveal(slot_changed);
    reveal(slot_notes);
}

/// The nearest option applies: that on the packet before that on all, and those of one's
/// own before those of the level above. Without any, nothing is traced.
pub proof fn nearest_option_applies(
    t: TraceOptionPacketType,
    own_all: Option<TraceOptionPacketType>,
    above: Option<TraceOptionPacketType>,
    above_all: Option<TraceOptionPacketType>,
)
    ensures
        resolved(Some(t), own_all, above, above_all) == t,
        resolved(None, Some(t), above, above_all) == t,
        resolved(None, None, Some(t), above_all) == t,
        resolved(None, None, None, Some(t)) == t,
        !resolved(None, None, None, None).tx && !resolved(None, None, None, None).rx,
{
}

} // verus!
