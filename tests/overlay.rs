use periscope::activation::{contains_value, is_active};
use periscope::color::{hex_digit, Color};
use periscope::condition::{tail_equals, Condition, ConditionValue, CONDITION_COUNT};
use periscope::config::{find_layout, Config, ControllerBinding, Item, Layout};
use periscope::error::ConfigError;
use periscope::frame::{find_state, plan_frame, Draw};
use periscope::state::{connected_flag_of, global_active_set, ControllerState, StickSide};
use periscope::store::{ControllerStore, MESSAGE_END, REQUEST_BYTE};
use std::sync::Arc;

fn reading(id: u8, connection: u8, buttons: u32) -> ControllerState<(f32, f32)> {
    ControllerState {
        id,
        connection,
        buttons,
        left_stick: (1.0, 2.0),
        right_stick: (3.0, 4.0),
    }
}

fn cond(text: &str) -> Condition {
    Condition::parse(text).unwrap()
}

fn item(look: &'static str, conditions: &[&str]) -> Item<&'static str> {
    Item {
        look,
        conditions: conditions.iter().map(|c| cond(c)).collect(),
    }
}

#[test]
fn mixed_conditions_follow_each_entry() {
    let conditions = vec![cond("ButtonA"), cond("!Connected1")];
    let a_held = vec![ConditionValue::ButtonA];
    let a_held_and_one_connected = vec![ConditionValue::ButtonA, ConditionValue::Connected1];
    let nothing: Vec<ConditionValue> = vec![];
    assert!(is_active(&a_held, &conditions));
    assert!(!is_active(&a_held_and_one_connected, &conditions));
    assert!(!is_active(&nothing, &conditions));
}

#[test]
fn plain_conditions_need_every_value() {
    let conditions = vec![cond("ButtonA"), cond("ButtonB")];
    assert!(is_active(&[ConditionValue::ButtonB, ConditionValue::ButtonA], &conditions));
    assert!(is_active(
        &[ConditionValue::ButtonA, ConditionValue::ButtonX, ConditionValue::ButtonB],
        &conditions
    ));
    assert!(!is_active(&[ConditionValue::ButtonA], &conditions));
}

#[test]
fn negated_conditions_need_no_value() {
    let conditions = vec![cond("!ButtonA"), cond("!Connected")];
    assert!(is_active(&[ConditionValue::ButtonB], &conditions));
    assert!(is_active(&[], &conditions));
    assert!(!is_active(&[ConditionValue::Connected], &conditions));
}

#[test]
fn empty_conditions_always_hold() {
    assert!(is_active(&[], &[]));
    assert!(is_active(
        &[ConditionValue::ButtonA, ConditionValue::Connected3, ConditionValue::ButtonHome],
        &[]
    ));
}

#[test]
fn order_of_conditions_does_not_matter() {
    let active = [ConditionValue::ButtonA];
    let a = vec![cond("ButtonA"), cond("!ButtonB")];
    let b = vec![cond("!ButtonB"), cond("ButtonA")];
    assert_eq!(is_active(&active, &a), is_active(&active, &b));
}

#[test]
fn contains_value_finds_members_only() {
    let active = [ConditionValue::ButtonL, ConditionValue::Connected7];
    assert!(contains_value(&active, ConditionValue::Connected7));
    assert!(!contains_value(&active, ConditionValue::Connected6));
}

#[test]
fn color_decodes_hex_channels() {
    assert_eq!(
        Color::from_hex("FF00807F"),
        Ok(Color { r: 255, g: 0, b: 128, a: 127 })
    );
    assert_eq!(
        Color::from_hex("0a1B2c3D"),
        Ok(Color { r: 10, g: 27, b: 44, a: 61 })
    );
}

#[test]
fn color_of_wrong_length_fails() {
    assert_eq!(Color::from_hex("FF00807"), Err(ConfigError::ColorLength));
    assert_eq!(Color::from_hex("FF00807F0"), Err(ConfigError::ColorLength));
    assert_eq!(Color::from_hex(""), Err(ConfigError::ColorLength));
}

#[test]
fn color_with_non_hex_digit_fails() {
    assert_eq!(Color::from_hex("FF0080G7"), Err(ConfigError::ColorDigit));
    assert_eq!(Color::from_hex("+F00807F"), Err(ConfigError::ColorDigit));
    assert_eq!(Color::from_hex("FF 0807F"), Err(ConfigError::ColorDigit));
}

#[test]
fn hex_digit_values() {
    assert_eq!(hex_digit(b'0'), Some(0));
    assert_eq!(hex_digit(b'9'), Some(9));
    assert_eq!(hex_digit(b'a'), Some(10));
    assert_eq!(hex_digit(b'F'), Some(15));
    assert_eq!(hex_digit(b'g'), None);
}

#[test]
fn condition_parses_with_and_without_negation() {
    assert_eq!(
        Condition::parse("ButtonZL"),
        Ok(Condition { not: false, value: ConditionValue::ButtonZL })
    );
    assert_eq!(
        Condition::parse("!Connected5"),
        Ok(Condition { not: true, value: ConditionValue::Connected5 })
    );
}

#[test]
fn unknown_condition_fails() {
    assert_eq!(Condition::parse("ButtonQ"), Err(ConfigError::UnknownCondition));
    assert_eq!(Condition::parse("!"), Err(ConfigError::UnknownCondition));
    assert_eq!(Condition::parse(""), Err(ConfigError::UnknownCondition));
    assert_eq!(Condition::parse("!!ButtonA"), Err(ConfigError::UnknownCondition));
    assert_eq!(Condition::parse("buttona"), Err(ConfigError::UnknownCondition));
    assert_eq!(Condition::parse("ButtonA "), Err(ConfigError::UnknownCondition));
}

#[test]
fn every_value_is_found_by_its_name() {
    for i in 0..CONDITION_COUNT {
        let v = ConditionValue::at(i);
        assert_eq!(ConditionValue::from_name(v.name()), Some(v));
    }
    assert_eq!(ConditionValue::from_name("Connected"), Some(ConditionValue::Connected));
    assert_eq!(ConditionValue::from_name("Connected8"), None);
}

#[test]
fn tail_equals_compares_suffix() {
    assert!(tail_equals(b"!ButtonA", 1, b"ButtonA"));
    assert!(!tail_equals(b"!ButtonA", 0, b"ButtonA"));
    assert!(tail_equals(b"abc", 3, b""));
}

#[test]
fn button_bits_map_to_buttons() {
    let a = reading(0, 0, 1).active_set();
    assert_eq!(a, vec![ConditionValue::ButtonA]);
    let down = reading(0, 0, 1 << 15).active_set();
    assert_eq!(down, vec![ConditionValue::ButtonDpadDown]);
    let high = reading(0, 0, 0xFFFF_0000).active_set();
    assert!(high.is_empty());
    let both = reading(0, 1, 0b101).active_set();
    assert_eq!(
        both,
        vec![ConditionValue::Connected, ConditionValue::ButtonA, ConditionValue::ButtonX]
    );
}

#[test]
fn global_set_holds_connected_ids() {
    let states = vec![reading(0, 1, 0), reading(1, 0, 0), reading(7, 1, 0), reading(9, 1, 0)];
    let active = global_active_set(&states);
    assert_eq!(active, vec![ConditionValue::Connected0, ConditionValue::Connected7]);
    assert_eq!(connected_flag_of(3), Some(ConditionValue::Connected3));
    assert_eq!(connected_flag_of(8), None);
}

#[test]
fn stick_side_selects_its_reading() {
    let s = reading(0, 1, 0);
    assert_eq!(*s.stick(StickSide::Left), (1.0, 2.0));
    assert_eq!(*s.stick(StickSide::Right), (3.0, 4.0));
}

fn sample_config() -> Config<&'static str, (f32, f32)> {
    let items = vec![item("p1", &["Connected0"]), item("p2", &["!Connected1"])];
    let layouts = vec![
        Layout { name: "pad".to_string(), items: vec![item("a", &["ButtonA"]), item("frame", &[])] },
        Layout { name: "other".to_string(), items: vec![item("b", &["ButtonB"])] },
    ];
    let controllers = vec![
        ControllerBinding { id: 0, layout: "pad".to_string(), position: (0.0, 0.0) },
        ControllerBinding { id: 3, layout: "other".to_string(), position: (10.0, 0.0) },
    ];
    Config::new(items, layouts, controllers).unwrap()
}

#[test]
fn frame_draws_active_items_in_order() {
    let config = sample_config();
    assert_eq!(config.controller_layouts, vec![0, 1]);
    let states = vec![reading(3, 1, 0b10), reading(0, 1, 0b1)];
    let draws = plan_frame(&config, &states);
    assert_eq!(
        draws,
        vec![
            Draw::Global { item: 0 },
            Draw::Global { item: 1 },
            Draw::Controller { controller: 0, state: 1, item: 0 },
            Draw::Controller { controller: 0, state: 1, item: 1 },
            Draw::Controller { controller: 1, state: 0, item: 0 },
        ]
    );
}

#[test]
fn missing_reading_draws_nothing_for_binding() {
    let config = sample_config();
    let states = vec![reading(0, 1, 0)];
    let draws = plan_frame(&config, &states);
    assert_eq!(
        draws,
        vec![
            Draw::Global { item: 0 },
            Draw::Global { item: 1 },
            Draw::Controller { controller: 0, state: 0, item: 1 },
        ]
    );
    let no_states: Vec<ControllerState<(f32, f32)>> = vec![];
    let none = plan_frame(&config, &no_states);
    assert_eq!(none, vec![Draw::Global { item: 1 }]);
}

#[test]
fn find_state_takes_first_reading() {
    let states = vec![reading(2, 0, 0), reading(5, 1, 0), reading(5, 0, 0)];
    assert_eq!(find_state(&states, 5), Some(1));
    assert_eq!(find_state(&states, 4), None);
}

#[test]
fn unknown_layout_fails_to_load() {
    let layouts = vec![Layout::<&'static str> { name: "pad".to_string(), items: vec![] }];
    let controllers = vec![
        ControllerBinding { id: 0, layout: "pad".to_string(), position: () },
        ControllerBinding { id: 1, layout: "missing".to_string(), position: () },
    ];
    let r = Config::new(vec![], layouts, controllers);
    assert!(matches!(r, Err(ConfigError::UnknownLayout)));
}

#[test]
fn find_layout_takes_first_of_name() {
    let layouts = vec![
        Layout::<()> { name: "a".to_string(), items: vec![] },
        Layout::<()> { name: "b".to_string(), items: vec![] },
        Layout::<()> { name: "b".to_string(), items: vec![] },
    ];
    assert_eq!(find_layout(&layouts, &"b".to_string()), Some(1));
    assert_eq!(find_layout(&layouts, &"c".to_string()), None);
}

#[test]
fn store_swaps_whole_collections() {
    let store: ControllerStore<(f32, f32)> = ControllerStore::new();
    assert!(store.latest().is_empty());
    store.publish(vec![reading(0, 1, 0), reading(1, 1, 0)]);
    let first = store.latest();
    assert_eq!(first.len(), 2);
    store.publish(vec![reading(2, 1, 0)]);
    let second = store.latest();
    assert_eq!(first.len(), 2);
    assert_eq!(first[1].id, 1);
    assert_eq!(second.len(), 1);
    assert_eq!(second[0].id, 2);
    assert!(Arc::ptr_eq(&second, &store.latest()));
    assert!(!Arc::ptr_eq(&first, &second));
}

#[test]
fn failed_decode_keeps_previous_readings() {
    let store: ControllerStore<(f32, f32)> = ControllerStore::new();
    assert!(store.update::<&str>(Ok(vec![reading(4, 1, 0)])));
    let before = store.latest();
    assert!(!store.update(Err("bad message")));
    assert!(Arc::ptr_eq(&before, &store.latest()));
    assert_eq!(REQUEST_BYTE, b'1');
    assert_eq!(MESSAGE_END, b']');
}

#[test]
fn error_messages() {
    assert_eq!(ConfigError::ColorLength.message(), "wrong length");
    assert_eq!(ConfigError::UnknownLayout.message(), "unknown layout");
}
