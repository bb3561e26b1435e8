//! The keyword-cast side of the integration loop: the registry mapping
//! trigger phrases to their payloads, and the Match Slot — a single-value
//! overwrite mailbox holding at most one unread keyword detection.
//!
//! The embedding application shares the slot between the worker and the
//! polling thread (for example behind a mutex held only for the instant of
//! the check); this module carries the slot's single-value semantics.

use vstd::prelude::*;

verus! {

/// A registered trigger phrase and the payload it casts.
pub struct SpellEntry {
    pub trigger: String,
    pub spell: String,
}

// ------------------------------------------------------------------
// The Match Slot.
// ------------------------------------------------------------------

/// The single-slot mailbox for the latest keyword detection: overwritten,
/// never queued; only the most recent value survives an overwrite.
pub struct MatchSlot {
    value: Option<String>,
}

/// Publication as a function of the slot content: the new keyword replaces
/// whatever was pending.
pub open spec fn spec_publish(slot: Option<Seq<char>>, keyword: Seq<char>) -> Option<Seq<char>> {
    Some(keyword)
}

impl MatchSlot {
    /// The pending, unread value.
    pub closed spec fn spec_value(&self) -> Option<Seq<char>> {
        match self.value {
            Some(s) => Some(s@),
            None => None,
        }
    }

    /// An empty slot.
    pub fn new() -> (slot: MatchSlot)
        ensures
            slot.spec_value() is None,
    {
        MatchSlot { value: None }
    }

    /// Publish a detection, overwriting any unread previous value.
    pub fn publish(&mut self, keyword: String)
        ensures
            final(self).spec_value() == spec_publish(old(self).spec_value(), keyword@),
    {
        self.value = Some(keyword);
    }

    /// Take the pending value, if any, leaving the slot empty.
    pub fn take(&mut self) -> (r: Option<String>)
        ensures
            final(self).spec_value() is None,
            r is Some <==> old(self).spec_value() is Some,
            r matches Some(k) ==> old(self).spec_value() == Some(k@),
    {
        let mut v: Option<String> = None;
        core::mem::swap(&mut v, &mut self.value);
        v
    }
}

/// Law: the slot never holds more than one unread value — of two
/// publications before a read, only the second survives.
pub proof fn lemma_slot_overwrites(slot: Option<Seq<char>>, first: Seq<char>, second: Seq<char>)
    ensures
        spec_publish(spec_publish(slot, first), second) == Some(second),
{
}

// ------------------------------------------------------------------
// The spell registry.
// ------------------------------------------------------------------

/// The registry of trigger phrases and their payloads. Registrations are
/// kept in order; on lookup the most recent registration of a trigger
/// wins, so re-registering a trigger replaces its payload.
pub struct SpellRegistry {
    entries: Vec<SpellEntry>,
}

/// The payload of the most recent entry for `trigger`, if any.
pub open spec fn spec_lookup(entries: Seq<(Seq<char>, Seq<char>)>, trigger: Seq<char>) -> Option<
    Seq<char>,
>
    decreases entries.len(),
{
    if entries.len() == 0 {
        None
    } else if entries.last().0 == trigger {
        Some(entries.last().1)
    } else {
        spec_lookup(entries.drop_last(), trigger)
    }
}

/// Triggers absent from a trailing segment do not affect lookup: it
/// behaves as on the prefix before that segment.
proof fn lemma_lookup_skip_tail(
    entries: Seq<(Seq<char>, Seq<char>)>,
    trigger: Seq<char>,
    i: int,
)
    requires
        0 <= i <= entries.len(),
        forall|j: int| i <= j < entries.len() ==> (#[trigger] entries[j]).0 != trigger,
    ensures
        spec_lookup(entries, trigger) == spec_lookup(entries.subrange(0, i), trigger),
    decreases entries.len() - i,
{
    if i == entries.len() {
        assert(entries.subrange(0, i) =~= entries);
    } else {
        assert(entries.last().0 != trigger);
        assert(entries.drop_last() =~= entries.subrange(0, entries.len() - 1));
        lemma_lookup_skip_tail(entries.subrange(0, entries.len() - 1), trigger, i);
        assert(entries.subrange(0, entries.len() - 1).subrange(0, i) =~= entries.subrange(0, i));
    }
}

impl SpellRegistry {
    /// The registered entries as (trigger, payload) pairs, oldest first.
    pub closed spec fn spec_entries(&self) -> Seq<(Seq<char>, Seq<char>)> {
        self.entries@.map(|i: int, e: SpellEntry| (e.trigger@, e.spell@))
    }

    /// An empty registry.
    pub fn new() -> (registry: SpellRegistry)
        ensures
            registry.spec_entries() == Seq::<(Seq<char>, Seq<char>)>::empty(),
    {
        let registry = SpellRegistry { entries: Vec::new() };
        proof {
            assert(registry.spec_entries() =~= Seq::<(Seq<char>, Seq<char>)>::empty());
        }
        registry
    }

    /// Register a trigger phrase with the payload it casts; a later
    /// registration of the same trigger replaces the payload on lookup.
    pub fn register_spell_trigger(&mut self, trigger_frase: String, spell: String)
        ensures
            final(self).spec_entries() == old(self).spec_entries().push(
                (trigger_frase@, spell@),
            ),
    {
        let ghost t = trigger_frase@;
        let ghost s = spell@;
        self.entries.push(SpellEntry { trigger: trigger_frase, spell });
        proof {
            assert(self.spec_entries() =~= old(self).spec_entries().push((t, s)));
        }
    }

    /// All registered trigger phrases in registration order: the keyword
    /// list handed to the keyword spotter.
    pub fn triggers(&self) -> (r: Vec<String>)
        ensures
            r@.len() == self.spec_entries().len(),
            forall|i: int| 0 <= i < r@.len() ==> r@[i]@ == self.spec_entries()[i].0,
    {
        let mut r: Vec<String> = Vec::new();
        let mut i: usize = 0;
        while i < self.entries.len()
            invariant
                i <= self.entries@.len(),
                r@.len() == i,
                forall|j: int| 0 <= j < i ==> r@[j]@ == self.spec_entries()[j].0,
            decreases self.entries@.len() - i,
        {
            r.push(self.entries[i].trigger.clone());
            i += 1;
        }
        r
    }

    /// The payload of the most recent registration of `trigger`, if any.
    pub fn lookup(&self, trigger: &String) -> (r: Option<String>)
        ensures
            r is Some <==> spec_lookup(self.spec_entries(), trigger@) is Some,
            r matches Some(s) ==> spec_lookup(self.spec_entries(), trigger@) == Some(s@),
    {
        let mut i: usize = self.entries.len();
        while i > 0
            invariant
                i <= self.entries@.len(),
                forall|j: int|
                    i <= j < self.entries@.len() ==> (#[trigger] self.spec_entries()[j]).0
                        != trigger@,
            decreases i,
        {
            i -= 1;
            if self.entries[i].trigger.eq(trigger) {
                proof {
                    lemma_lookup_skip_tail(self.spec_entries(), trigger@, i as int + 1);
                    assert(self.spec_entries().subrange(0, i as int + 1).last()
                        == self.spec_entries()[i as int]);
                }
                return Some(self.entries[i].spell.clone());
            }
        }
        proof {
            lemma_lookup_skip_tail(self.spec_entries(), trigger@, 0);
            assert(self.spec_entries().subrange(0, 0) =~= Seq::<(Seq<char>, Seq<char>)>::empty());
        }
        None
    }
}

/// One poll step of the integrating thread: take the latest detection out
/// of the slot and translate it to the payload to cast. An empty keyword
/// or an unregistered trigger casts nothing; either way the slot is left
/// empty.
pub fn next_cast(slot: &mut MatchSlot, registry: &SpellRegistry) -> (r: Option<String>)
    ensures
        final(slot).spec_value() is None,
        old(slot).spec_value() is None ==> r is None,
        old(slot).spec_value() matches Some(k) ==> {
            &&& k.len() == 0 ==> r is None
            &&& k.len() > 0 ==> {
                &&& (r is Some <==> spec_lookup(registry.spec_entries(), k) is Some)
                &&& (r matches Some(s) ==> spec_lookup(registry.spec_entries(), k) == Some(s@))
            }
        },
{
    match slot.take() {
        None => None,
        Some(magic) => {
            if magic.as_str().is_empty() {
                None
            } else {
                registry.lookup(&magic)
            }
        },
    }
}

} // verus!
