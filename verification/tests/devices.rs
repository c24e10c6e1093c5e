use catt::binding::{process_event, should_expose, CommandOutcome, DriverEvent, Notification, Step};
use catt::bridge::{
    handle_message, notification_actions, pump_notifications, update_message, BindingAction,
    BusAction,
};
use catt::bus::{
    item_base, parse_topic, publication, receive, topic_for, Inbound, Message, Payload, SubType,
};
use catt::class::{CommandClass, ValueGenre, ValueType};
use catt::config::{
    make_unbound_name, BrokerConfig, Config, DeviceConfig, ValueDescriptor, ZWaveConfig,
    MQTT_BASE_DEFAULT, MQTT_QOS_DEFAULT,
};
use catt::device::{NativeId, DB};
use catt::errors::DeviceError;
use catt::item::{ControllerCommand, ControllerItem, ControllerState, DriverWrite, Item, ZWaveItem};
use catt::recv_wrap::{message_of, Receiver};
use catt::util::{always_lock, CVar};
use catt::value::{ConversionError, NumberText, Value, ValueKind};

struct Decimal;

impl NumberText for Decimal {
    fn parse(&self, text: &str) -> Option<u64> {
        text.parse::<f64>().ok().map(f64::to_bits)
    }

    fn render(&self, bits: u64) -> String {
        format!("{}", f64::from_bits(bits))
    }
}

fn rule(name: &str, id: u64, class: Option<&str>, ty: Option<&str>, label: Option<&str>) -> DeviceConfig {
    DeviceConfig {
        name: name.to_string(),
        id,
        command_class: class.map(|s| s.to_string()),
        value_type: ty.map(|s| s.to_string()),
        label: label.map(|s| s.to_string()),
    }
}

fn config(rules: Vec<DeviceConfig>, expose_unbound: bool) -> ZWaveConfig {
    ZWaveConfig { port: None, sys_config: None, user_config: None, device: rules, expose_unbound }
}

fn level(id: u64, node_id: u8, value_type: ValueType) -> ValueDescriptor {
    ValueDescriptor {
        id,
        home_id: 7,
        node_id,
        genre: ValueGenre::User,
        command_class: Some(CommandClass::SwitchMultilevel),
        value_type,
        label: "Level".to_string(),
    }
}

fn names(step: &Step) -> Vec<(&'static str, String)> {
    step.notifications
        .iter()
        .map(|n| match n {
            Notification::Added(it) => ("added", it.get_name()),
            Notification::Changed(it) => ("changed", it.get_name()),
            Notification::Removed(it) => ("removed", it.get_name()),
        })
        .collect()
}

fn shown(actions: &[BusAction], base: &str) -> Vec<String> {
    actions
        .iter()
        .map(|a| match a {
            BusAction::Publish(m) => {
                format!("publish {}", publication(base, m.clone(), &Decimal).topic)
            }
            BusAction::Subscribe(n, s) => format!("subscribe {}", topic_for(base, n, *s)),
            BusAction::Unsubscribe(n, s) => format!("unsubscribe {}", topic_for(base, n, *s)),
            BusAction::ReadValue(it) => format!("read {}", it.get_name()),
        })
        .collect()
}

#[test]
fn strength_counts_the_fields_that_match() {
    let v = level(1, 2, ValueType::Byte);
    assert_eq!(rule("a", 2, None, None, None).strength(&v), 1);
    assert_eq!(rule("a", 2, None, None, Some("level")).strength(&v), 2);
    assert_eq!(rule("a", 2, Some("Switch_Multilevel"), None, Some("LEVEL")).strength(&v), 3);
    assert_eq!(rule("a", 2, Some("switch_multilevel"), Some("INT"), Some("Level")).strength(&v), 4);
    assert_eq!(rule("a", 3, None, None, None).strength(&v), 0);
    assert_eq!(rule("a", 2, Some("basic"), None, Some("Level")).strength(&v), 0);
    assert_eq!(rule("a", 2, Some("no_such_class"), None, None).strength(&v), 0);
    assert_eq!(rule("a", 2, None, None, Some("Other")).strength(&v), 0);
    assert!(rule("a", 2, None, None, None).matches(&v));
    assert!(!rule("a", 3, None, None, None).matches(&v));
    let mut basic = level(1, 2, ValueType::Byte);
    basic.genre = ValueGenre::Basic;
    assert_eq!(rule("a", 2, None, None, None).strength(&basic), 0);
    let mut unknown = level(1, 2, ValueType::Byte);
    unknown.command_class = None;
    assert_eq!(rule("a", 2, Some("basic"), None, None).strength(&unknown), 0);
}

#[test]
fn value_types_collapse_for_rules() {
    for (ty, name) in [
        (ValueType::Bool, "bool"),
        (ValueType::Byte, "int"),
        (ValueType::Short, "int"),
        (ValueType::Int, "int"),
        (ValueType::Decimal, "float"),
        (ValueType::String, "string"),
    ] {
        let v = level(1, 2, ty);
        assert_eq!(ty.to_rule_name(), name);
        assert_eq!(rule("a", 2, None, Some(name), None).strength(&v), 2);
    }
    assert_eq!(rule("a", 2, None, Some("byte"), None).strength(&level(1, 2, ValueType::Byte)), 0);
}

#[test]
fn bool_rule_never_matches_an_integer_value() {
    for ty in [ValueType::Byte, ValueType::Short, ValueType::Int] {
        let v = level(1, 2, ty);
        assert_eq!(rule("a", 2, None, Some("bool"), None).strength(&v), 0);
        assert_eq!(rule("a", 2, None, Some("BOOL"), Some("Level")).strength(&v), 0);
        let cfg = config(vec![rule("a", 2, None, Some("bool"), None)], false);
        assert_eq!(cfg.lookup_device(&v), None);
    }
}

#[test]
fn the_more_specific_rule_wins_in_either_order() {
    let v = level(1, 2, ValueType::Byte);
    let plain = rule("plain", 2, None, None, None);
    let specific = rule("specific", 2, Some("switch_multilevel"), None, Some("Level"));
    assert_eq!(plain.strength(&v), 1);
    assert_eq!(specific.strength(&v), 3);
    let one = config(vec![plain.clone(), specific.clone()], false);
    let other = config(vec![specific, plain], false);
    assert_eq!(one.lookup_device(&v), Some("specific".to_string()));
    assert_eq!(other.lookup_device(&v), Some("specific".to_string()));
}

#[test]
fn equal_rules_are_taken_in_order() {
    let v = level(1, 2, ValueType::Byte);
    let cfg = config(
        vec![
            rule("none", 9, None, None, None),
            rule("first", 2, None, None, Some("Level")),
            rule("second", 2, None, Some("int"), None),
        ],
        true,
    );
    assert_eq!(cfg.lookup_device(&v), Some("first".to_string()));
    assert_eq!(cfg.resolve_name(&v), Some("first".to_string()));
}

#[test]
fn unbound_values_follow_the_policy() {
    let v = level(1, 2, ValueType::Byte);
    let rules = vec![rule("other", 5, None, None, None)];
    assert_eq!(config(rules.clone(), false).resolve_name(&v), None);
    assert_eq!(config(rules, true).resolve_name(&v), Some("zwave_7_2_Level".to_string()));
    assert_eq!(config(vec![], true).resolve_name(&v), Some("zwave_7_2_Level".to_string()));
    assert_eq!(config(vec![], false).lookup_device(&v), None);
    let mut big = level(1, 255, ValueType::Byte);
    big.home_id = u32::MAX;
    big.label = String::new();
    assert_eq!(make_unbound_name(&big), "zwave_4294967295_255_");
}

#[test]
fn classes_and_types_by_name() {
    assert_eq!(CommandClass::from_str("basic"), Some(CommandClass::Basic));
    assert_eq!(CommandClass::from_str("Switch_Binary"), Some(CommandClass::SwitchBinary));
    assert_eq!(CommandClass::from_str("SWITCH_MULTILEVEL"), Some(CommandClass::SwitchMultilevel));
    assert_eq!(CommandClass::from_str("sensor_binary"), Some(CommandClass::SensorBinary));
    assert_eq!(CommandClass::from_str("sensor_multilevel"), Some(CommandClass::SensorMultilevel));
    assert_eq!(CommandClass::from_str("meter"), None);
    assert_eq!(CommandClass::from_str_default("meter"), CommandClass::Basic);
    assert_eq!(CommandClass::from_str_default("sensor_binary"), CommandClass::SensorBinary);
    assert_eq!(CommandClass::SwitchBinary.to_name(), "SwitchBinary");
    assert_eq!(ValueType::from_str("Bool"), Some(ValueType::Bool));
    assert_eq!(ValueType::from_str("byte"), Some(ValueType::Byte));
    assert_eq!(ValueType::from_str("decimal"), Some(ValueType::Decimal));
    assert_eq!(ValueType::from_str("int"), Some(ValueType::Int));
    assert_eq!(ValueType::from_str("short"), Some(ValueType::Short));
    assert_eq!(ValueType::from_str("string"), Some(ValueType::String));
    assert_eq!(ValueType::from_str("raw"), None);
    assert_eq!(ValueType::from_str_default("list"), ValueType::Raw);
    assert_eq!(ValueType::from_str_default("INT"), ValueType::Int);
    assert!(ValueType::Raw.is_supported());
    assert!(!ValueType::List.is_supported());
    assert!(!ValueType::Button.is_supported());
    assert!(!ValueType::Schedule.is_supported());
}

#[test]
fn only_basic_and_user_values_of_known_types_are_exposed() {
    let mut v = level(1, 2, ValueType::Byte);
    assert!(should_expose(&v));
    v.genre = ValueGenre::Basic;
    assert!(should_expose(&v));
    v.genre = ValueGenre::Config;
    assert!(!should_expose(&v));
    v.genre = ValueGenre::System;
    assert!(!should_expose(&v));
    v.genre = ValueGenre::User;
    v.value_type = ValueType::List;
    assert!(!should_expose(&v));
    v.value_type = ValueType::Raw;
    assert!(should_expose(&v));
}

#[test]
fn index_keeps_both_sides_together() {
    let mut db = DB::new();
    assert_eq!(db.len(), 0);
    let v = level(11, 2, ValueType::Byte);
    let w = level(12, 2, ValueType::Bool);
    let it = db.add_value("a".to_string(), v.clone());
    assert_eq!(it.get_name(), "a");
    db.add_value("b".to_string(), w.clone());
    db.add_item("c".to_string(), Item::controller("c", 7));
    assert_eq!(db.len(), 3);
    assert_eq!(db.get_name(&v.native_id()), Some(&"a".to_string()));
    assert_eq!(db.get_name(&w.native_id()), Some(&"b".to_string()));
    assert_eq!(db.get_name(&NativeId { home_id: 8, id: 11 }), None);
    assert_eq!(db.get_item(&"b".to_string()).map(|i| i.get_name()), Some("b".to_string()));
    assert!(db.get_item(&"d".to_string()).is_none());
    let gone = db.remove_value(&v.native_id());
    assert_eq!(gone.map(|i| i.get_name()), Some("a".to_string()));
    assert_eq!(db.get_name(&v.native_id()), None);
    assert!(db.get_item(&"a".to_string()).is_none());
    assert_eq!(db.len(), 2);
    assert!(db.remove_value(&v.native_id()).is_none());
    assert_eq!(db.remove_item(&"c".to_string()).map(|i| i.get_name()), Some("c".to_string()));
    assert!(db.remove_item(&"c".to_string()).is_none());
    assert_eq!(db.len(), 1);
    db.add_value("b2".to_string(), w.clone());
    assert_eq!(db.get_name(&w.native_id()), Some(&"b2".to_string()));
}

#[test]
fn scenario_switch() {
    let cfg = config(vec![rule("Switch", 2, None, None, Some("Level"))], false);
    let mut db = DB::new();
    let v = level(21, 2, ValueType::Byte);
    let step = process_event(&mut db, &cfg, DriverEvent::ValueAdded(v.clone()));
    assert_eq!(names(&step), vec![("added", "Switch".to_string())]);
    assert!(!step.fatal);
    let actions = pump_notifications(&step.notifications);
    assert_eq!(
        shown(&actions, MQTT_BASE_DEFAULT),
        vec!["publish catt/items/Switch/meta", "subscribe catt/items/Switch/command"]
    );
    match &actions[0] {
        BusAction::Publish(Message::Meta(name, meta)) => {
            assert_eq!(name, "Switch");
            assert_eq!(meta.backend, Some("zwave".to_string()));
            assert_eq!(meta.value_type, Some("int".to_string()));
            assert_eq!(
                meta.ext,
                Some(vec![
                    ("label".to_string(), "Level".to_string()),
                    ("node_id".to_string(), "2".to_string()),
                    ("command_class".to_string(), "SwitchMultilevel".to_string()),
                ])
            );
        }
        other => panic!("unexpected action {:?}", other),
    }
    let command = Message::Command("Switch".to_string(), Value::String("0".to_string()));
    match handle_message(&db, &command, &Decimal) {
        BindingAction::Write(native, write) => {
            assert_eq!(native, v.native_id());
            assert_eq!(write, DriverWrite::Byte(0));
        }
        other => panic!("unexpected action {:?}", other),
    }
    let inbound = receive("catt/items/Switch/command", b"99.7", &Decimal);
    match inbound {
        Some(Inbound::Message(m)) => match handle_message(&db, &m, &Decimal) {
            BindingAction::Write(_, write) => assert_eq!(write, DriverWrite::Byte(99)),
            other => panic!("unexpected action {:?}", other),
        },
        other => panic!("unexpected inbound {:?}", other),
    }
}

#[test]
fn duplicate_discovery_reuses_the_first_item() {
    let cfg = config(vec![rule("Switch", 2, None, None, None)], false);
    let mut db = DB::new();
    let first = level(31, 2, ValueType::Byte);
    let mut second = level(32, 2, ValueType::Bool);
    second.label = "Other".to_string();
    let one = process_event(&mut db, &cfg, DriverEvent::ValueAdded(first.clone()));
    let two = process_event(&mut db, &cfg, DriverEvent::ValueAdded(second.clone()));
    assert_eq!(names(&one), vec![("added", "Switch".to_string())]);
    assert_eq!(names(&two), vec![("added", "Switch".to_string())]);
    match &two.notifications[0] {
        Notification::Added(Item::Value(z)) => {
            assert_eq!(z.value.native_id(), first.native_id());
            assert_eq!(z.value.label, "Level");
        }
        other => panic!("unexpected notification {:?}", other),
    }
    assert_eq!(db.len(), 1);
    assert_eq!(db.get_name(&first.native_id()), Some(&"Switch".to_string()));
    assert_eq!(db.get_name(&second.native_id()), None);
    let changed = process_event(&mut db, &cfg, DriverEvent::ValueChanged(second.clone()));
    assert!(changed.notifications.is_empty());
    let again = process_event(&mut db, &cfg, DriverEvent::ValueAdded(first));
    assert_eq!(names(&again), vec![("added", "Switch".to_string())]);
    assert_eq!(db.len(), 1);
}

#[test]
fn life_of_a_value_in_order() {
    let cfg = config(vec![rule("Switch", 2, None, None, None)], false);
    let mut db = DB::new();
    let v = level(41, 2, ValueType::Byte);
    let mut all = Vec::new();
    for event in [
        DriverEvent::ValueAdded(v.clone()),
        DriverEvent::ValueChanged(v.clone()),
        DriverEvent::ValueRemoved(v.clone()),
    ] {
        let step = process_event(&mut db, &cfg, event);
        all.extend(step.notifications);
    }
    let actions = pump_notifications(&all);
    assert_eq!(
        shown(&actions, "home"),
        vec![
            "publish home/Switch/meta",
            "subscribe home/Switch/command",
            "read Switch",
            "unsubscribe home/Switch/command",
        ]
    );
    assert_eq!(db.len(), 0);
    assert_eq!(db.get_name(&v.native_id()), None);
    let late = process_event(&mut db, &cfg, DriverEvent::ValueChanged(v.clone()));
    assert!(late.notifications.is_empty());
    let gone = process_event(&mut db, &cfg, DriverEvent::ValueRemoved(v));
    assert!(gone.notifications.is_empty());
    assert_eq!(notification_actions(&all[1]).len(), 1);
}

#[test]
fn values_that_are_not_bound_are_dropped() {
    let cfg = config(vec![rule("Switch", 9, None, None, None)], false);
    let mut db = DB::new();
    let v = level(51, 2, ValueType::Byte);
    assert!(process_event(&mut db, &cfg, DriverEvent::ValueAdded(v.clone())).notifications.is_empty());
    let mut list = level(52, 9, ValueType::List);
    assert!(process_event(&mut db, &cfg, DriverEvent::ValueAdded(list.clone())).notifications.is_empty());
    list.value_type = ValueType::Byte;
    list.genre = ValueGenre::System;
    assert!(process_event(&mut db, &cfg, DriverEvent::ValueAdded(list)).notifications.is_empty());
    assert!(process_event(&mut db, &cfg, DriverEvent::Other).notifications.is_empty());
    assert_eq!(db.len(), 0);
    let open = config(vec![], true);
    let step = process_event(&mut db, &open, DriverEvent::ValueAdded(v));
    assert_eq!(names(&step), vec![("added", "zwave_7_2_Level".to_string())]);
}

#[test]
fn controller_events() {
    let cfg = config(vec![], false);
    let mut db = DB::new();
    let none = process_event(&mut db, &cfg, DriverEvent::ControllerCommand(7, CommandOutcome::Completed));
    assert!(none.notifications.is_empty());
    assert_eq!(none.controller_state, None);
    let ready = process_event(&mut db, &cfg, DriverEvent::DriverReady(7));
    assert_eq!(
        names(&ready),
        vec![("added", "zwave_7_Controller".to_string()), ("changed", "zwave_7_Controller".to_string())]
    );
    assert_eq!(ready.controller_state, Some(ControllerState::Idle));
    assert_eq!(db.len(), 1);
    let again = process_event(&mut db, &cfg, DriverEvent::DriverReady(7));
    assert_eq!(again.notifications.len(), 2);
    assert_eq!(db.len(), 1);
    for (outcome, state, count) in [
        (CommandOutcome::Completed, Some(ControllerState::Idle), 1),
        (CommandOutcome::Failed, Some(ControllerState::Failed), 1),
        (CommandOutcome::Starting, None, 1),
        (CommandOutcome::Other, None, 0),
    ] {
        let step = process_event(&mut db, &cfg, DriverEvent::ControllerCommand(7, outcome));
        assert_eq!(step.controller_state, state);
        assert_eq!(step.notifications.len(), count);
    }
    let removed = process_event(&mut db, &cfg, DriverEvent::DriverRemoved);
    assert!(removed.fatal);
    assert!(removed.notifications.is_empty());
    let actions = pump_notifications(&ready.notifications);
    assert_eq!(
        shown(&actions, "catt/items"),
        vec![
            "publish catt/items/zwave_7_Controller/meta",
            "subscribe catt/items/zwave_7_Controller/command",
            "read zwave_7_Controller",
        ]
    );
    let adding = Message::Command("zwave_7_Controller".to_string(), Value::String(" Include ".to_string()));
    match handle_message(&db, &adding, &Decimal) {
        BindingAction::Control(7, state) => {
            assert_eq!(state, ControllerState::Include);
            assert_eq!(state.driver_command(), Some(ControllerCommand::AddNode));
            assert_eq!(state.as_str(), "include");
        }
        other => panic!("unexpected action {:?}", other),
    }
    let bad = Message::Command("zwave_7_Controller".to_string(), Value::String(" reboot ".to_string()));
    match handle_message(&db, &bad, &Decimal) {
        BindingAction::Reject(e) => assert_eq!(e, DeviceError::InvalidCommand("reboot".to_string())),
        other => panic!("unexpected action {:?}", other),
    }
    assert_eq!(ControllerState::from_command("EXCLUDE"), Some(ControllerState::Exclude));
    assert_eq!(ControllerState::Exclude.driver_command(), Some(ControllerCommand::RemoveNode));
    assert_eq!(ControllerState::Idle.driver_command(), None);
    assert_eq!(ControllerState::from_command("failed"), Some(ControllerState::Failed));
    assert_eq!(ControllerState::from_command("idle"), Some(ControllerState::Idle));
    let c = ControllerItem::new("c", 7);
    assert_eq!(c.get_state(), ControllerState::Idle);
    assert_eq!(c.get_value(ControllerState::Failed), Value::String("failed".to_string()));
    assert_eq!(c.get_meta().unwrap().value_type, Some("string".to_string()));
}

#[test]
fn unknown_commands_change_nothing() {
    let cfg = config(vec![rule("Switch", 2, None, None, None)], false);
    let mut db = DB::new();
    let v = level(61, 2, ValueType::Bool);
    process_event(&mut db, &cfg, DriverEvent::ValueAdded(v.clone()));
    let unknown = Message::Command("Lamp".to_string(), Value::Bool(true));
    assert!(matches!(handle_message(&db, &unknown, &Decimal), BindingAction::Drop));
    assert_eq!(db.len(), 1);
    assert_eq!(db.get_name(&v.native_id()), Some(&"Switch".to_string()));
    let update = Message::Update("Switch".to_string(), Value::Bool(true));
    assert!(matches!(handle_message(&db, &update, &Decimal), BindingAction::Drop));
    let known = Message::Command("Switch".to_string(), Value::String("on".to_string()));
    match handle_message(&db, &known, &Decimal) {
        BindingAction::Write(_, write) => assert_eq!(write, DriverWrite::Bool(true)),
        other => panic!("unexpected action {:?}", other),
    }
    let bad = Message::Command("Switch".to_string(), Value::String("perhaps".to_string()));
    match handle_message(&db, &bad, &Decimal) {
        BindingAction::Reject(DeviceError::Conversion(ConversionError::InvalidConversion(_, kind))) => {
            assert_eq!(kind, ValueKind::Bool)
        }
        other => panic!("unexpected action {:?}", other),
    }
}

#[test]
fn writes_follow_the_native_type() {
    let bits = |x: f64| x.to_bits();
    let item = |ty| ZWaveItem::new("x", level(1, 2, ty));
    assert_eq!(
        item(ValueType::Byte).set_value(&Value::Number(bits(300.0)), &Decimal),
        Ok(DriverWrite::Byte(255))
    );
    assert_eq!(
        item(ValueType::Short).set_value(&Value::String("-12.9".to_string()), &Decimal),
        Ok(DriverWrite::Short(-12))
    );
    assert_eq!(
        item(ValueType::Int).set_value(&Value::Bool(true), &Decimal),
        Ok(DriverWrite::Int(1))
    );
    assert_eq!(
        item(ValueType::Decimal).set_value(&Value::String("2.5".to_string()), &Decimal),
        Ok(DriverWrite::Decimal(bits(2.5)))
    );
    assert_eq!(
        item(ValueType::String).set_value(&Value::Number(bits(2.5)), &Decimal),
        Ok(DriverWrite::Text("2.5".to_string()))
    );
    assert_eq!(
        item(ValueType::String).set_value(&Value::Bool(false), &Decimal),
        Ok(DriverWrite::Text("OFF".to_string()))
    );
    assert_eq!(
        item(ValueType::Raw).set_value(&Value::String("ab".to_string()), &Decimal),
        Ok(DriverWrite::Raw(vec![b'a', b'b']))
    );
    assert_eq!(
        item(ValueType::Bool).set_value(&Value::Raw(vec![3]), &Decimal),
        Ok(DriverWrite::Bool(true))
    );
    assert_eq!(
        item(ValueType::List).set_value(&Value::Bool(true), &Decimal),
        Err(DeviceError::Unimplemented("x".to_string(), ValueType::List))
    );
    assert_eq!(
        item(ValueType::Byte).set_value(&Value::String("high".to_string()), &Decimal),
        Err(DeviceError::Conversion(ConversionError::ParseNumber("high".to_string())))
    );
    assert_eq!(
        item(ValueType::Bool).set_number(bits(1.0)),
        Err(DeviceError::InvalidType("x".to_string(), ValueKind::Number, ValueType::Bool))
    );
    assert_eq!(item(ValueType::Bool).set_bool(true), Ok(DriverWrite::Bool(true)));
    assert_eq!(item(ValueType::Bool).set_string("s"), Ok(DriverWrite::Text("s".to_string())));
    assert_eq!(item(ValueType::Bool).set_raw(&vec![1]), Ok(DriverWrite::Raw(vec![1])));
    assert_eq!(
        item(ValueType::Byte).write_given(&Value::String("1".to_string()), Some(bits(1.0)), String::new()),
        Ok(DriverWrite::Byte(1))
    );
}

#[test]
fn readings_follow_the_native_type() {
    let item = |ty| ZWaveItem::new("x", level(1, 2, ty));
    assert_eq!(item(ValueType::Bool).get_value(Value::Bool(true)), Ok(Value::Bool(true)));
    assert_eq!(item(ValueType::Byte).get_value(Value::Number(5)), Ok(Value::Number(5)));
    assert_eq!(
        item(ValueType::String).get_value(Value::String("s".to_string())),
        Ok(Value::String("s".to_string()))
    );
    assert_eq!(item(ValueType::Raw).get_value(Value::Raw(vec![1])), Ok(Value::Raw(vec![1])));
    assert_eq!(
        item(ValueType::Button).get_value(Value::Bool(true)),
        Err(DeviceError::Unimplemented("x".to_string(), ValueType::Button))
    );
    assert_eq!(
        item(ValueType::Int).get_value(Value::Bool(true)),
        Err(DeviceError::InvalidType("x".to_string(), ValueKind::Bool, ValueType::Int))
    );
    assert!(item(ValueType::Schedule).get_meta().is_none());
    let it = Item::item("x", level(1, 2, ValueType::Decimal));
    match update_message(&it, Some(Value::Number(9))) {
        Some(Message::Update(name, value)) => {
            assert_eq!(name, "x");
            assert_eq!(value, Value::Number(9));
        }
        other => panic!("unexpected update {:?}", other),
    }
    assert!(update_message(&it, None).is_none());
    assert!(update_message(&it, Some(Value::Bool(true))).is_none());
    let c = Item::controller("c", 1);
    assert!(update_message(&c, Some(Value::String("idle".to_string()))).is_some());
}

#[test]
fn topics() {
    assert_eq!(topic_for("catt/items", "Lamp", SubType::Update), "catt/items/Lamp/state");
    assert_eq!(topic_for("catt/items", "Lamp", SubType::Command), "catt/items/Lamp/command");
    assert_eq!(topic_for("catt/items", "Lamp", SubType::Meta), "catt/items/Lamp/meta");
    assert_eq!(topic_for("b", "Lamp", SubType::All), "b/Lamp/#");
    let mut broker = BrokerConfig {
        broker: "127.0.0.1:1883".to_string(),
        item_base: None,
        client_id: None,
        qos: None,
        tls: None,
    };
    assert_eq!(item_base(&broker), "catt/items");
    assert_eq!(MQTT_QOS_DEFAULT, 0);
    broker.item_base = Some("home".to_string());
    assert_eq!(item_base(&broker), "home");
    let whole = Config { bus: Some(broker), binding: Some(config(vec![], true)) };
    assert!(whole.binding.unwrap().expose_unbound);
    assert_eq!(parse_topic("catt/items/Lamp/state"), Some(("Lamp".to_string(), SubType::Update)));
    assert_eq!(parse_topic("Lamp/command"), Some(("Lamp".to_string(), SubType::Command)));
    assert_eq!(parse_topic("/meta"), Some((String::new(), SubType::Meta)));
    assert_eq!(parse_topic("a/b/c/meta"), Some(("c".to_string(), SubType::Meta)));
    assert_eq!(parse_topic("state"), None);
    assert_eq!(parse_topic(""), None);
    assert_eq!(parse_topic("catt/items/Lamp/State"), None);
    assert_eq!(parse_topic("catt/items/Lamp/#"), None);
    assert_eq!(parse_topic("catt/items/Lamp/"), None);
}

#[test]
fn publications_and_inbound_messages() {
    let p = publication("catt/items", Message::Update("Lamp".to_string(), Value::Bool(true)), &Decimal);
    assert_eq!(p.topic, "catt/items/Lamp/state");
    assert!(matches!(p.payload, Payload::Text(ref t) if t == "ON"));
    let p = publication("catt/items", Message::Command("Lamp".to_string(), Value::Raw(vec![0xff])), &Decimal);
    assert_eq!(p.topic, "catt/items/Lamp/command");
    assert!(matches!(p.payload, Payload::Text(ref t) if t == "/w=="));
    let meta = Item::controller("c", 1).get_meta().unwrap();
    let p = publication("b", Message::Meta("c".to_string(), meta.clone()), &Decimal);
    assert_eq!(p.topic, "b/c/meta");
    assert!(matches!(p.payload, Payload::Meta(ref m) if *m == meta));
    match receive("catt/items/Lamp/state", b"21.5", &Decimal) {
        Some(Inbound::Message(Message::Update(name, value))) => {
            assert_eq!(name, "Lamp");
            assert_eq!(value, Value::Number(21.5f64.to_bits()));
        }
        other => panic!("unexpected inbound {:?}", other),
    }
    match receive("catt/items/Lamp/command", b"OFF", &Decimal) {
        Some(Inbound::Message(Message::Command(name, value))) => {
            assert_eq!(name, "Lamp");
            assert_eq!(value, Value::Bool(false));
        }
        other => panic!("unexpected inbound {:?}", other),
    }
    match receive("catt/items/Lamp/meta", b"backend = \"zwave\"", &Decimal) {
        Some(Inbound::MetaDocument(name, text)) => {
            assert_eq!(name, "Lamp");
            assert_eq!(text, "backend = \"zwave\"");
        }
        other => panic!("unexpected inbound {:?}", other),
    }
    assert!(receive("catt/items/Lamp/meta", &[0xff], &Decimal).is_none());
    assert!(receive("Lamp", b"ON", &Decimal).is_none());
    assert!(receive("catt/items/Lamp/other", b"ON", &Decimal).is_none());
}

#[test]
fn flag_and_channel() {
    let flag = CVar::new();
    flag.notify_one();
    assert!(*flag.wait());
    flag.reset();
    let other = flag.clone();
    other.notify_all();
    assert!(*flag.wait());
    let lock = std::sync::Mutex::new(5);
    assert_eq!(*always_lock(lock.lock()), 5);
    let (tx, rx) = std::sync::mpsc::channel();
    let rx = Receiver::new(rx);
    assert_eq!(rx.try_recv(), Err(std::sync::mpsc::TryRecvError::Empty));
    tx.send(1).unwrap();
    tx.send(2).unwrap();
    assert_eq!(rx.try_recv(), Ok(1));
    assert_eq!(rx.recv(), Ok(2));
    tx.send(3).unwrap();
    drop(tx);
    let mut rest = rx.into_iter();
    assert_eq!(rest.next(), Some(3));
    assert_eq!(rest.next(), None);
    assert_eq!(message_of(Ok(4)), Some(4));
    assert_eq!(message_of::<u8>(Err(std::sync::mpsc::RecvError)), None);
}

#[test]
fn items_take_values_and_readings() {
    let it = Item::item("x", level(1, 2, ValueType::Byte));
    assert!(matches!(
        it.set_value(&Value::Number(3.0f64.to_bits()), &Decimal),
        BindingAction::Write(NativeId { home_id: 7, id: 1 }, DriverWrite::Byte(3))
    ));
    assert_eq!(it.get_value(Value::Number(7)), Ok(Value::Number(7)));
    assert_eq!(
        it.get_value(Value::Bool(true)),
        Err(DeviceError::InvalidType("x".to_string(), ValueKind::Bool, ValueType::Byte))
    );
    let c = Item::controller("c", 9);
    assert!(matches!(
        c.set_value(&Value::String("exclude".to_string()), &Decimal),
        BindingAction::Control(9, ControllerState::Exclude)
    ));
    assert!(matches!(
        c.set_value(&Value::Number(1.0f64.to_bits()), &Decimal),
        BindingAction::Reject(DeviceError::InvalidCommand(_))
    ));
    assert_eq!(
        c.get_value(Value::String("idle".to_string())),
        Ok(Value::String("idle".to_string()))
    );
    assert_eq!(c.get_name(), "c");
    assert_eq!(it.duplicate().get_name(), "x");
}
