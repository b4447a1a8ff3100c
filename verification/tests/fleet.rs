use cosmic_sim::ai::companion::default_companions;
use cosmic_sim::fleet::{
    check_triggers, fire_trigger, latest_unread, mark_read, push_message, unread_count,
    CompanionMessage, Trigger,
};
use cosmic_sim::strset::StringSet;

#[test]
fn inbox_counts_unread_messages() {
    let mut inbox: Vec<CompanionMessage> = Vec::new();
    assert_eq!(unread_count(&inbox), 0);
    assert_eq!(latest_unread(&inbox), None);
    push_message(&mut inbox, "Dr. Yael Orin", "We made it out", "body");
    push_message(&mut inbox, "Reza Terani", "The fuel math", "body 2");
    assert_eq!(unread_count(&inbox), 2);
    assert_eq!(latest_unread(&inbox), Some(1));
    assert_eq!(inbox[1].from, "Reza Terani");
    assert!(!inbox[1].read);
}

#[test]
fn mark_read_lowers_the_unread_count_once() {
    let mut inbox: Vec<CompanionMessage> = Vec::new();
    push_message(&mut inbox, "A", "s1", "b1");
    push_message(&mut inbox, "B", "s2", "b2");
    mark_read(&mut inbox, 1);
    assert_eq!(unread_count(&inbox), 1);
    assert_eq!(latest_unread(&inbox), Some(0));
    assert_eq!(inbox[1].subject, "s2");
    mark_read(&mut inbox, 1);
    assert_eq!(unread_count(&inbox), 1);
    mark_read(&mut inbox, 0);
    assert_eq!(unread_count(&inbox), 0);
    assert_eq!(latest_unread(&inbox), None);
}

#[test]
fn nothing_is_due_at_home() {
    let mut fired = StringSet::new();
    assert!(check_triggers(&mut fired, 1, true).is_empty());
    assert_eq!(fired.len(), 0);
}

#[test]
fn first_arrival_and_low_fuel_letters() {
    let mut fired = StringSet::new();
    let due = check_triggers(&mut fired, 2, true);
    assert_eq!(due, vec![Trigger::FirstArrival, Trigger::LowFuel]);
    assert!(fired.contains("msg_first_arrival"));
    assert!(fired.contains("msg_low_fuel"));
}

#[test]
fn each_letter_is_sent_once() {
    let mut fired = StringSet::new();
    assert_eq!(check_triggers(&mut fired, 2, false), vec![Trigger::FirstArrival]);
    assert!(check_triggers(&mut fired, 3, false).is_empty());
    assert_eq!(check_triggers(&mut fired, 4, true), vec![Trigger::LowFuel, Trigger::FourSystems]);
    assert!(check_triggers(&mut fired, 9, true).is_empty());
}

#[test]
fn mining_events_lead_to_letters() {
    let mut fired = StringSet::new();
    fire_trigger(&mut fired, "gas_giant_mined");
    fire_trigger(&mut fired, "ocean_mined");
    fire_trigger(&mut fired, "ocean_mined");
    assert_eq!(fired.len(), 2);
    let due = check_triggers(&mut fired, 1, false);
    assert_eq!(due, vec![Trigger::GasGiantHint, Trigger::OceanWater]);
    assert!(check_triggers(&mut fired, 1, false).is_empty());
    assert_eq!(fired.len(), 4);
}

#[test]
fn all_letters_in_delivery_order() {
    let mut fired = StringSet::new();
    fire_trigger(&mut fired, "ocean_mined");
    fire_trigger(&mut fired, "gas_giant_mined");
    let due = check_triggers(&mut fired, 5, true);
    assert_eq!(
        due,
        vec![
            Trigger::FirstArrival,
            Trigger::GasGiantHint,
            Trigger::LowFuel,
            Trigger::FourSystems,
            Trigger::OceanWater
        ]
    );
}

#[test]
fn default_companions_are_yael_and_reza() {
    let cs = default_companions();
    assert_eq!(cs.len(), 2);
    assert_eq!(cs[0].name, "Dr. Yael Orin");
    assert_eq!(cs[0].ship_name, "Threshold");
    assert_eq!(cs[0].specialty, "Planetary physicist, true believer");
    assert_eq!(cs[1].name, "Reza Terani");
    assert_eq!(cs[1].ship_name, "Sable");
    assert_eq!(cs[1].pronoun, "he/him");
    assert!(cs[1].personality.starts_with("You are Reza Terani, a digital consciousness aboard the Sable."));
    assert!(cs[0].computer.full_log().is_empty());
}
