use voice_pipeline::spellbook::next_cast;
use voice_pipeline::spellbook::MatchSlot;
use voice_pipeline::spellbook::SpellRegistry;

#[test]
fn slot_overwrites_unread_value() {
    // Two detections published before a read: only the second survives.
    let mut slot = MatchSlot::new();
    slot.publish("first".to_string());
    slot.publish("second".to_string());
    assert_eq!(slot.take(), Some("second".to_string()));
    assert_eq!(slot.take(), None);
}

#[test]
fn slot_starts_empty() {
    let mut slot = MatchSlot::new();
    assert_eq!(slot.take(), None);
}

#[test]
fn registry_lookup_and_replace() {
    let mut registry = SpellRegistry::new();
    registry.register_spell_trigger("fire".to_string(), "fireball".to_string());
    registry.register_spell_trigger("ice".to_string(), "blizzard".to_string());
    assert_eq!(registry.lookup(&"fire".to_string()), Some("fireball".to_string()));
    assert_eq!(registry.lookup(&"ice".to_string()), Some("blizzard".to_string()));
    assert_eq!(registry.lookup(&"wind".to_string()), None);
    // A later registration of the same trigger replaces the payload.
    registry.register_spell_trigger("fire".to_string(), "inferno".to_string());
    assert_eq!(registry.lookup(&"fire".to_string()), Some("inferno".to_string()));
}

#[test]
fn registry_triggers_in_order() {
    let mut registry = SpellRegistry::new();
    registry.register_spell_trigger("fire".to_string(), "fireball".to_string());
    registry.register_spell_trigger("ice".to_string(), "blizzard".to_string());
    assert_eq!(registry.triggers(), vec!["fire".to_string(), "ice".to_string()]);
}

#[test]
fn next_cast_maps_detection_to_spell() {
    let mut registry = SpellRegistry::new();
    registry.register_spell_trigger("fire".to_string(), "fireball".to_string());
    let mut slot = MatchSlot::new();
    slot.publish("fire".to_string());
    assert_eq!(next_cast(&mut slot, &registry), Some("fireball".to_string()));
    // The slot is consumed by the poll.
    assert_eq!(next_cast(&mut slot, &registry), None);
}

#[test]
fn next_cast_ignores_empty_and_unregistered() {
    let mut registry = SpellRegistry::new();
    registry.register_spell_trigger("fire".to_string(), "fireball".to_string());
    let mut slot = MatchSlot::new();
    slot.publish("".to_string());
    assert_eq!(next_cast(&mut slot, &registry), None);
    slot.publish("wind".to_string());
    assert_eq!(next_cast(&mut slot, &registry), None);
}
