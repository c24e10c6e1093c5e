use catt::bus::Message;
use catt::config::{BrokerConfig, Config, DeviceConfig, ZWaveConfig};
use catt::device::{DeviceDesc, DeviceState, DeviceType, DB};
use catt::driver::{customary_devices, get_default_devices, is_usb_zwave_device, ListPortInfo};
use catt::event::{to_event_source, value_eq, Event, EventSource};
use catt::item::Meta;
use catt::number::number_eq;
use catt::value::Value;

fn update(name: &str, v: Value) -> Message {
    Message::Update(name.to_string(), v)
}

fn shown(e: &Event) -> String {
    match e {
        Event::State { item_name, prev_state, new_state } => {
            format!("state {} {:?} -> {:?}", item_name, prev_state, new_state)
        }
        Event::Command { item_name, command } => format!("command {} {:?}", item_name, command),
        Event::Time { timestamp } => format!("time {}", timestamp),
    }
}

#[test]
fn updates_tell_the_state_they_replace() {
    let messages = vec![
        update("a", Value::Bool(true)),
        update("b", Value::Number(1.5f64.to_bits())),
        update("a", Value::Bool(true)),
        Message::Command("a".to_string(), Value::String("go".to_string())),
        Message::Meta("a".to_string(), Meta::default()),
        update("a", Value::Bool(false)),
        update("b", Value::Number(1.5f64.to_bits())),
        update("b", Value::String("x".to_string())),
    ];
    let events: Vec<String> = to_event_source(&messages).iter().map(shown).collect();
    assert_eq!(
        events,
        vec![
            "state a None -> Bool(true)".to_string(),
            format!("state b None -> Number({})", 1.5f64.to_bits()),
            "state a None -> Bool(true)".to_string(),
            "command a String(\"go\")".to_string(),
            "state a Some(Bool(true)) -> Bool(false)".to_string(),
            format!("state b None -> Number({})", 1.5f64.to_bits()),
            format!("state b Some(Number({})) -> String(\"x\")", 1.5f64.to_bits()),
        ]
    );
    assert!(to_event_source(&Vec::new()).is_empty());
}

#[test]
fn event_source_step_by_step() {
    let mut source = EventSource::new();
    let first = source.next_event(&update("a", Value::Raw(vec![1])));
    assert!(matches!(first, Some(Event::State { prev_state: None, .. })));
    let second = source.next_event(&update("a", Value::Raw(vec![2])));
    match second {
        Some(Event::State { item_name, prev_state, new_state }) => {
            assert_eq!(item_name, "a");
            assert_eq!(prev_state, Some(Value::Raw(vec![1])));
            assert_eq!(new_state, Value::Raw(vec![2]));
        }
        other => panic!("unexpected event {:?}", other),
    }
    assert!(source.next_event(&Message::Meta("a".to_string(), Meta::default())).is_none());
}

#[test]
fn values_compare_as_numbers() {
    let n = |x: f64| Value::Number(x.to_bits());
    assert!(value_eq(&n(0.0), &n(-0.0)));
    assert!(value_eq(&n(2.5), &n(2.5)));
    assert!(!value_eq(&n(2.5), &n(2.25)));
    assert!(!value_eq(&n(f64::NAN), &n(f64::NAN)));
    assert!(!value_eq(&n(1.0), &Value::Bool(true)));
    assert!(value_eq(&Value::String("a".to_string()), &Value::String("a".to_string())));
    assert!(!value_eq(&Value::String("a".to_string()), &Value::String("b".to_string())));
    assert!(value_eq(&Value::Raw(vec![1, 2]), &Value::Raw(vec![1, 2])));
    assert!(!value_eq(&Value::Raw(vec![1, 2]), &Value::Raw(vec![1])));
    assert!(!value_eq(&Value::Raw(vec![1, 2]), &Value::Raw(vec![1, 3])));
    assert!(value_eq(&Value::Bool(false), &Value::Bool(false)));
    for (a, b) in [
        (0.0, -0.0),
        (1.0, 1.0),
        (1.0, 2.0),
        (f64::NAN, 1.0),
        (f64::NAN, f64::NAN),
        (f64::INFINITY, f64::INFINITY),
        (f64::INFINITY, f64::NEG_INFINITY),
        (5e-324, 0.0),
    ] {
        assert_eq!(number_eq(f64::to_bits(a), f64::to_bits(b)), a == b);
    }
}

#[test]
fn controllers_are_looked_for_on_known_ports() {
    let port = |device: &str, vid, pid| ListPortInfo { device: device.to_string(), vid, pid };
    assert!(is_usb_zwave_device(&port("a", 0x0658, 0x0200)));
    assert!(is_usb_zwave_device(&port("a", 0x0658, 0x0280)));
    assert!(is_usb_zwave_device(&port("a", 0x10c4, 0xea60)));
    assert!(!is_usb_zwave_device(&port("a", 0x10c4, 0x0200)));
    assert!(!is_usb_zwave_device(&port("a", 0x0658, 0xea60)));
    let ports = vec![
        port("/dev/ttyUSB3", 1, 2),
        port("/dev/ttyACM1", 0x0658, 0x0200),
        port("/dev/ttyUSB4", 0x10c4, 0xea60),
    ];
    assert_eq!(
        get_default_devices(&ports, Some("/dev/ttyUSB0".to_string())),
        vec!["/dev/ttyACM1".to_string(), "/dev/ttyUSB4".to_string()]
    );
    let none = vec![port("/dev/ttyUSB3", 1, 2)];
    assert_eq!(
        get_default_devices(&none, Some("/dev/ttyUSB0".to_string())),
        vec!["/dev/ttyUSB0".to_string()]
    );
    assert!(get_default_devices(&none, None).is_empty());
    assert_eq!(
        customary_devices(),
        vec![
            "/dev/cu.usbserial",
            "/dev/cu.SLAB_USBtoUART",
            "/dev/cu.usbmodem14211",
            "/dev/cu.usbmodem1421",
            "/dev/ttyUSB0",
            "/dev/ttyACM0",
        ]
    );
}

#[test]
fn device_states_by_command() {
    assert_eq!(DeviceState::default(), DeviceState::Basic(0));
    assert_eq!(DeviceState::from_command("basic"), DeviceState::Basic(0));
    assert_eq!(DeviceState::from_command("switch_binary"), DeviceState::BinarySwitch(false));
    assert_eq!(DeviceState::from_command("sensor_binary"), DeviceState::BinarySensor(false));
    assert_eq!(DeviceState::from_command("switch_multilevel"), DeviceState::Multilevel(0));
    assert_eq!(DeviceState::from_command("Switch_Binary"), DeviceState::Basic(0));
    assert_eq!(DeviceState::from_command(""), DeviceState::Basic(0));
    let desc = DeviceDesc { id: 3, endpoint: None, command: "basic".to_string() };
    assert_eq!(desc.clone(), desc);
    assert_ne!(DeviceType::Basic, DeviceType::Multilevel);
}

#[test]
fn defaults() {
    let cfg: Config<BrokerConfig, ZWaveConfig> = Config::default();
    assert!(cfg.bus.is_none());
    assert!(cfg.binding.is_none());
    let broker = BrokerConfig::default();
    assert_eq!(broker.broker, "");
    assert_eq!(broker.item_base, None);
    assert_eq!(broker.qos, None);
    let zwave = ZWaveConfig::default();
    assert!(zwave.expose_unbound);
    assert!(zwave.device.is_empty());
    assert_eq!(zwave.port, None);
    let rule = DeviceConfig::default();
    assert_eq!(rule.id, 0);
    assert_eq!(rule.name, "");
    assert_eq!(rule.label, None);
    assert_eq!(Meta::default(), Meta { backend: None, value_type: None, ext: None });
    assert_eq!(DB::default().len(), 0);
}
