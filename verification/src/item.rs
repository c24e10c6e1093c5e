//! Items: named handles on one device attribute each. An item decides
//! what is written to the driver for a value from the bus, and what a
//! reading of the driver is worth on the bus.
use vstd::prelude::*;
use vstd::slice::slice_to_vec;
use crate::class::ValueType;
use crate::config::{DescriptorView, ValueDescriptor};
use crate::errors::{DeviceError, DeviceErrorView};
use crate::number::{saturate, to_i16, to_i32, to_u8, truncated};
use crate::text::{
    chars_eq_ignore_case, chars_of, decimal, push_decimal, same_ignoring_case, string_of, trim,
    trimmed,
};
use crate::value::{
    bool_of, number_of, raw_of, text_of, NumberText, Value, ValueKind, ValueView,
};

verus! {

/// What describes an item to the consumers of the bus.
#[derive(Clone, Debug, PartialEq, Eq)]
pub struct Meta {
    pub backend: Option<String>,
    pub value_type: Option<String>,
    /// Further keys with their texts, each key once.
    pub ext: Option<Vec<(String, String)>>,
}

/// What a `Meta` holds.
pub struct MetaView {
    pub backend: Option<Seq<char>>,
    pub value_type: Option<Seq<char>>,
    pub ext: Option<Seq<(Seq<char>, Seq<char>)>>,
}

impl View for Meta {
    type V = MetaView;

    open spec fn view(&self) -> MetaView {
        MetaView {
            backend: self.backend.deep_view(),
            value_type: self.value_type.deep_view(),
            ext: match self.ext {
                Some(pairs) => Some(pairs@.map_values(|p: (String, String)| (p.0@, p.1@))),
                None => None,
            },
        }
    }
}

impl Default for Meta {
    fn default() -> (r: Meta)
        ensures
            r@ == (MetaView { backend: None, value_type: None, ext: None }),
    {
        Meta { backend: None, value_type: None, ext: None }
    }
}

/// What is to be written to the driver for a device value.
#[derive(Clone, Debug, PartialEq, Eq)]
pub enum DriverWrite {
    Bool(bool),
    Byte(u8),
    Short(i16),
    Int(i32),
    /// A decimal, as the bit pattern of the number.
    Decimal(u64),
    Text(String),
    Raw(Vec<u8>),
}

/// What a `DriverWrite` holds.
pub enum DriverWriteView {
    Bool(bool),
    Byte(u8),
    Short(i16),
    Int(i32),
    Decimal(u64),
    Text(Seq<char>),
    Raw(Seq<u8>),
}

impl View for DriverWrite {
    type V = DriverWriteView;

    open spec fn view(&self) -> DriverWriteView {
        match self {
            DriverWrite::Bool(b) => DriverWriteView::Bool(*b),
            DriverWrite::Byte(n) => DriverWriteView::Byte(*n),
            DriverWrite::Short(n) => DriverWriteView::Short(*n),
            DriverWrite::Int(n) => DriverWriteView::Int(*n),
            DriverWrite::Decimal(n) => DriverWriteView::Decimal(*n),
            DriverWrite::Text(s) => DriverWriteView::Text(s@),
            DriverWrite::Raw(b) => DriverWriteView::Raw(b@),
        }
    }
}

/// A write of the library holds what the model says.
pub open spec fn write_agrees(
    r: Result<DriverWrite, DeviceError>,
    m: Result<DriverWriteView, DeviceErrorView>,
) -> bool {
    match m {
        Ok(w) => r is Ok && r->Ok_0@ == w,
        Err(e) => r is Err && r->Err_0@ == e,
    }
}

/// The item of one native device value.
#[derive(Clone, Debug)]
pub struct ZWaveItem {
    pub name: String,
    pub value: ValueDescriptor,
}

/// What a `ZWaveItem` holds.
pub struct ZWaveItemView {
    pub name: Seq<char>,
    pub value: DescriptorView,
}

impl View for ZWaveItem {
    type V = ZWaveItemView;

    open spec fn view(&self) -> ZWaveItemView {
        ZWaveItemView { name: self.name@, value: self.value@ }
    }
}

/// The write that sets a device value of the given type to a number.
pub open spec fn number_write(name: Seq<char>, t: ValueType, bits: u64) -> Result<
    DriverWriteView,
    DeviceErrorView,
> {
    match t {
        ValueType::Byte => Ok(DriverWriteView::Byte(saturate(truncated(bits), 0, 255) as u8)),
        ValueType::Short => Ok(
            DriverWriteView::Short(saturate(truncated(bits), i16::MIN as int, i16::MAX as int) as i16),
        ),
        ValueType::Int => Ok(
            DriverWriteView::Int(saturate(truncated(bits), i32::MIN as int, i32::MAX as int) as i32),
        ),
        ValueType::Decimal => Ok(DriverWriteView::Decimal(bits)),
        _ => Err(DeviceErrorView::InvalidType(name, ValueKind::Number, t)),
    }
}

/// The write that sets the device value of an item to a value, where
/// `parsed` is what the decimal parse of a trimmed text gave and
/// `rendered` is the decimal text of a number.
pub open spec fn write_of(
    item: ZWaveItemView,
    v: ValueView,
    parsed: Option<u64>,
    rendered: Seq<char>,
) -> Result<DriverWriteView, DeviceErrorView> {
    match item.value.value_type {
        ValueType::Raw => Ok(DriverWriteView::Raw(raw_of(v))),
        ValueType::Button | ValueType::List | ValueType::Schedule => Err(
            DeviceErrorView::Unimplemented(item.name, item.value.value_type),
        ),
        ValueType::Bool => match bool_of(v) {
            Ok(b) => Ok(DriverWriteView::Bool(b)),
            Err(e) => Err(DeviceErrorView::Conversion(e)),
        },
        ValueType::Byte | ValueType::Short | ValueType::Int | ValueType::Decimal => match number_of(
            v,
            parsed,
        ) {
            Ok(n) => number_write(item.name, item.value.value_type, n),
            Err(e) => Err(DeviceErrorView::Conversion(e)),
        },
        ValueType::String => Ok(DriverWriteView::Text(text_of(v, rendered))),
    }
}

/// What a reading of the driver is worth: the reading itself where its
/// form is that of the native type.
pub open spec fn reading_of(item: ZWaveItemView, reading: ValueView) -> Result<
    ValueView,
    DeviceErrorView,
> {
    let t = item.value.value_type;
    if !t.supported() {
        Err(DeviceErrorView::Unimplemented(item.name, t))
    } else if form_of(t) == kind_of(reading) {
        Ok(reading)
    } else {
        Err(DeviceErrorView::InvalidType(item.name, kind_of(reading), t))
    }
}

/// The form in which values of a native type are read.
pub open spec fn form_of(t: ValueType) -> ValueKind {
    match t {
        ValueType::Bool => ValueKind::Bool,
        ValueType::String => ValueKind::String,
        ValueType::Raw => ValueKind::Raw,
        _ => ValueKind::Number,
    }
}

/// The form that a value is held in.
pub open spec fn kind_of(v: ValueView) -> ValueKind {
    match v {
        ValueView::Number(_) => ValueKind::Number,
        ValueView::Text(_) => ValueKind::String,
        ValueView::Raw(_) => ValueKind::Raw,
        ValueView::Bool(_) => ValueKind::Bool,
    }
}

/// The metadata of the item of a device value; none where the native
/// type cannot be carried.
pub open spec fn value_meta(item: ZWaveItemView) -> Option<MetaView> {
    if item.value.value_type.supported() {
        Some(
            MetaView {
                backend: Some("zwave"@),
                value_type: Some(item.value.value_type.rule_name()),
                ext: Some(
                    seq![
                        ("label"@, item.value.label),
                        ("node_id"@, decimal(item.value.node_id as nat)),
                        (
                            "command_class"@,
                            match item.value.command_class {
                                Some(c) => c.name(),
                                None => "???"@,
                            },
                        ),
                    ],
                ),
            },
        )
    } else {
        None
    }
}

impl ZWaveItem {
    pub fn new(name: &str, value: ValueDescriptor) -> (r: Self)
        ensures
            r@ == (ZWaveItemView { name: name@, value: value@ }),
    {
        ZWaveItem { name: String::from_str(name), value }
    }

    /// A copy of the item.
    pub fn duplicate(&self) -> (r: ZWaveItem)
        ensures
            r@ == self@,
    {
        ZWaveItem { name: self.name.clone(), value: self.value.duplicate() }
    }

    pub fn get_name(&self) -> (r: String)
        ensures
            r@ == self@.name,
    {
        self.name.clone()
    }

    /// The write that sets the device value to a number.
    pub fn set_number(&self, number: u64) -> (r: Result<DriverWrite, DeviceError>)
        ensures
            write_agrees(r, number_write(self@.name, self@.value.value_type, number)),
    {
        match self.value.value_type {
            ValueType::Byte => Ok(DriverWrite::Byte(to_u8(number))),
            ValueType::Short => Ok(DriverWrite::Short(to_i16(number))),
            ValueType::Int => Ok(DriverWrite::Int(to_i32(number))),
            ValueType::Decimal => Ok(DriverWrite::Decimal(number)),
            _ => Err(
                DeviceError::InvalidType(self.name.clone(), ValueKind::Number, self.value.value_type),
            ),
        }
    }

    /// The write that sets the device value to a boolean.
    pub fn set_bool(&self, val: bool) -> (r: Result<DriverWrite, DeviceError>)
        ensures
            r is Ok,
            r->Ok_0@ == DriverWriteView::Bool(val),
    {
        Ok(DriverWrite::Bool(val))
    }

    /// The write that sets the device value to a text.
    pub fn set_string(&self, val: &str) -> (r: Result<DriverWrite, DeviceError>)
        ensures
            r is Ok,
            r->Ok_0@ == DriverWriteView::Text(val@),
    {
        Ok(DriverWrite::Text(String::from_str(val)))
    }

    /// The write that sets the device value to raw bytes.
    pub fn set_raw(&self, val: &Vec<u8>) -> (r: Result<DriverWrite, DeviceError>)
        ensures
            r is Ok,
            r->Ok_0@ == DriverWriteView::Raw(val@),
    {
        Ok(DriverWrite::Raw(slice_to_vec(val.as_slice())))
    }

    /// The write that sets the device value to `value`, where `parsed`
    /// is what the decimal parse of a trimmed text gave and `rendered`
    /// the decimal text of a number.
    pub fn write_given(&self, value: &Value, parsed: Option<u64>, rendered: String) -> (r: Result<
        DriverWrite,
        DeviceError,
    >)
        ensures
            write_agrees(r, write_of(self@, value@, parsed, rendered@)),
    {
        match self.value.value_type {
            ValueType::Raw => match value.as_raw() {
                Ok(b) => self.set_raw(&b),
                Err(e) => Err(DeviceError::Conversion(e)),
            },
            ValueType::Button | ValueType::List | ValueType::Schedule => Err(
                DeviceError::Unimplemented(self.name.clone(), self.value.value_type),
            ),
            ValueType::Bool => match value.as_bool() {
                Ok(b) => self.set_bool(b),
                Err(e) => Err(DeviceError::Conversion(e)),
            },
            ValueType::Byte | ValueType::Short | ValueType::Int | ValueType::Decimal => match value.number_given(
                parsed,
            ) {
                Ok(n) => self.set_number(n),
                Err(e) => Err(DeviceError::Conversion(e)),
            },
            ValueType::String => {
                let s = value.string_given(rendered);
                self.set_string(s.as_str())
            },
        }
    }

    /// The write that sets the device value to `value`.
    pub fn set_value<C: NumberText>(&self, value: &Value, codec: &C) -> (r: Result<
        DriverWrite,
        DeviceError,
    >)
        ensures
            exists|parsed: Option<u64>, rendered: Seq<char>|
                write_agrees(r, #[trigger] write_of(self@, value@, parsed, rendered)),
    {
        let numeric = match self.value.value_type {
            ValueType::Byte | ValueType::Short | ValueType::Int | ValueType::Decimal => true,
            _ => false,
        };
        let parsed = match value {
            Value::String(s) => if numeric {
                codec.parse(crate::value::trimmed_text(s.as_str()).as_str())
            } else {
                None
            },
            _ => None,
        };
        let rendered = match value {
            Value::Number(n) => match self.value.value_type {
                ValueType::String => codec.render(*n),
                _ => String::new(),
            },
            _ => String::new(),
        };
        let ghost shown = rendered@;
        let r = self.write_given(value, parsed, rendered);
        assert(write_agrees(r, write_of(self@, value@, parsed, shown)));
        r
    }

    /// What a reading of the driver is worth on the bus.
    pub fn get_value(&self, reading: Value) -> (r: Result<Value, DeviceError>)
        ensures
            match reading_of(self@, reading@) {
                Ok(v) => r is Ok && r->Ok_0@ == v,
                Err(e) => r is Err && r->Err_0@ == e,
            },
    {
        let t = self.value.value_type;
        if !t.is_supported() {
            return Err(DeviceError::Unimplemented(self.name.clone(), t));
        }
        let form = match t {
            ValueType::Bool => ValueKind::Bool,
            ValueType::String => ValueKind::String,
            ValueType::Raw => ValueKind::Raw,
            _ => ValueKind::Number,
        };
        let kind = reading.kind();
        if form == kind {
            Ok(reading)
        } else {
            Err(DeviceError::InvalidType(self.name.clone(), kind, t))
        }
    }

    pub fn get_meta(&self) -> (r: Option<Meta>)
        ensures
            r.is_some() == value_meta(self@).is_some(),
            r matches Some(m) ==> m@ == value_meta(self@)->Some_0,
    {
        if !self.value.value_type.is_supported() {
            return None;
        }
        let mut digits: Vec<char> = Vec::new();
        push_decimal(&mut digits, self.value.node_id as u64);
        let class = match self.value.command_class {
            Some(c) => c.to_name(),
            None => "???",
        };
        let mut ext: Vec<(String, String)> = Vec::new();
        ext.push((String::from_str("label"), self.value.label.clone()));
        ext.push((String::from_str("node_id"), string_of(&digits)));
        ext.push((String::from_str("command_class"), String::from_str(class)));
        let m = Meta {
            backend: Some(String::from_str("zwave")),
            value_type: Some(String::from_str(self.value.value_type.to_rule_name())),
            ext: Some(ext),
        };
        assert(m@.ext->Some_0 =~= value_meta(self@)->Some_0.ext->Some_0);
        Some(m)
    }
}

/// The states of a controller.
#[derive(Clone, Copy, Debug, PartialEq, Eq, Structural)]
pub enum ControllerState {
    Idle,
    Include,
    Exclude,
    Failed,
}

impl ControllerState {
    /// The text of the state.
    pub open spec fn text(self) -> Seq<char> {
        match self {
            ControllerState::Idle => "idle"@,
            ControllerState::Include => "include"@,
            ControllerState::Exclude => "exclude"@,
            ControllerState::Failed => "failed"@,
        }
    }

    pub fn as_str(self) -> (r: &'static str)
        ensures
            r@ == self.text(),
    {
        match self {
            ControllerState::Idle => "idle",
            ControllerState::Include => "include",
            ControllerState::Exclude => "exclude",
            ControllerState::Failed => "failed",
        }
    }

    /// The state that a command names, whatever the case of its letters
    /// and the white space around it.
    pub open spec fn commanded(s: Seq<char>) -> Option<ControllerState> {
        let t = trimmed(s);
        if same_ignoring_case(t, "idle"@) {
            Some(ControllerState::Idle)
        } else if same_ignoring_case(t, "include"@) {
            Some(ControllerState::Include)
        } else if same_ignoring_case(t, "exclude"@) {
            Some(ControllerState::Exclude)
        } else if same_ignoring_case(t, "failed"@) {
            Some(ControllerState::Failed)
        } else {
            None
        }
    }

    pub fn from_command(s: &str) -> (r: Option<ControllerState>)
        ensures
            r == Self::commanded(s@),
    {
        let t = trim(&chars_of(s));
        if chars_eq_ignore_case(&t, &chars_of("idle")) {
            Some(ControllerState::Idle)
        } else if chars_eq_ignore_case(&t, &chars_of("include")) {
            Some(ControllerState::Include)
        } else if chars_eq_ignore_case(&t, &chars_of("exclude")) {
            Some(ControllerState::Exclude)
        } else if chars_eq_ignore_case(&t, &chars_of("failed")) {
            Some(ControllerState::Failed)
        } else {
            None
        }
    }

    /// What the driver is asked to do on entering the state.
    pub open spec fn command(self) -> Option<ControllerCommand> {
        match self {
            ControllerState::Include => Some(ControllerCommand::AddNode),
            ControllerState::Exclude => Some(ControllerCommand::RemoveNode),
            _ => None,
        }
    }

    pub fn driver_command(self) -> (r: Option<ControllerCommand>)
        ensures
            r == self.command(),
    {
        match self {
            ControllerState::Include => Some(ControllerCommand::AddNode),
            ControllerState::Exclude => Some(ControllerCommand::RemoveNode),
            _ => None,
        }
    }
}

/// What a controller can be asked to do.
#[derive(Clone, Copy, Debug, PartialEq, Eq, Structural)]
pub enum ControllerCommand {
    AddNode,
    RemoveNode,
}

/// The item of a controller. Its value is the text of its state.
#[derive(Clone, Debug)]
pub struct ControllerItem {
    pub name: String,
    pub home_id: u32,
}

/// What a `ControllerItem` holds.
pub struct ControllerItemView {
    pub name: Seq<char>,
    pub home_id: u32,
}

impl View for ControllerItem {
    type V = ControllerItemView;

    open spec fn view(&self) -> ControllerItemView {
        ControllerItemView { name: self.name@, home_id: self.home_id }
    }
}

/// The state that a value puts a controller in, where `rendered` is the
/// decimal text of a number.
pub open spec fn controller_state_of(v: ValueView, rendered: Seq<char>) -> Result<
    ControllerState,
    DeviceErrorView,
> {
    match ControllerState::commanded(text_of(v, rendered)) {
        Some(s) => Ok(s),
        None => Err(DeviceErrorView::InvalidCommand(trimmed(text_of(v, rendered)))),
    }
}

impl ControllerItem {
    pub fn new(name: &str, home_id: u32) -> (r: Self)
        ensures
            r@ == (ControllerItemView { name: name@, home_id }),
    {
        ControllerItem { name: String::from_str(name), home_id }
    }

    /// A copy of the item.
    pub fn duplicate(&self) -> (r: ControllerItem)
        ensures
            r@ == self@,
    {
        ControllerItem { name: self.name.clone(), home_id: self.home_id }
    }

    pub fn get_name(&self) -> (r: String)
        ensures
            r@ == self@.name,
    {
        self.name.clone()
    }

    pub fn get_meta(&self) -> (r: Option<Meta>)
        ensures
            r is Some,
            r->Some_0@ == (MetaView {
                backend: Some("zwave"@),
                value_type: Some("string"@),
                ext: None,
            }),
    {
        Some(
            Meta {
                backend: Some(String::from_str("zwave")),
                value_type: Some(String::from_str("string")),
                ext: None,
            },
        )
    }

    /// The state of a controller that was just made.
    pub fn get_state(&self) -> (r: ControllerState)
        ensures
            r == ControllerState::Idle,
    {
        ControllerState::Idle
    }

    /// The value of the controller in a state.
    pub fn get_value(&self, state: ControllerState) -> (r: Value)
        ensures
            r@ == ValueView::Text(state.text()),
    {
        Value::String(String::from_str(state.as_str()))
    }

    /// The state that the text of a command puts the controller in.
    pub fn state_given(&self, value: &Value, rendered: String) -> (r: Result<
        ControllerState,
        DeviceError,
    >)
        ensures
            match controller_state_of(value@, rendered@) {
                Ok(s) => r == Ok::<ControllerState, DeviceError>(s),
                Err(e) => r is Err && r->Err_0@ == e,
            },
    {
        let text = value.string_given(rendered);
        match ControllerState::from_command(text.as_str()) {
            Some(s) => Ok(s),
            None => Err(DeviceError::InvalidCommand(crate::value::trimmed_text(text.as_str()))),
        }
    }

    /// The state that a value puts the controller in. The driver is then
    /// asked what the state's command says.
    pub fn set_value<C: NumberText>(&self, value: &Value, codec: &C) -> (r: Result<
        ControllerState,
        DeviceError,
    >)
        ensures
            exists|rendered: Seq<char>|
                match #[trigger] controller_state_of(value@, rendered) {
                    Ok(s) => r == Ok::<ControllerState, DeviceError>(s),
                    Err(e) => r is Err && r->Err_0@ == e,
                },
    {
        let rendered = match value {
            Value::Number(n) => codec.render(*n),
            _ => String::new(),
        };
        let ghost shown = rendered@;
        let r = self.state_given(value, rendered);
        assert(match controller_state_of(value@, shown) {
            Ok(s) => r == Ok::<ControllerState, DeviceError>(s),
            Err(e) => r is Err && r->Err_0@ == e,
        });
        r
    }
}

/// An item of the Z-Wave binding: a controller or a device value.
#[derive(Clone, Debug)]
pub enum Item {
    Controller(ControllerItem),
    Value(ZWaveItem),
}

/// What an `Item` holds.
pub enum ItemView {
    Controller(ControllerItemView),
    Value(ZWaveItemView),
}

impl View for Item {
    type V = ItemView;

    open spec fn view(&self) -> ItemView {
        match self {
            Item::Controller(c) => ItemView::Controller(c@),
            Item::Value(z) => ItemView::Value(z@),
        }
    }
}

impl ItemView {
    /// The name of the item.
    pub open spec fn name(self) -> Seq<char> {
        match self {
            ItemView::Controller(c) => c.name,
            ItemView::Value(z) => z.name,
        }
    }

    /// The metadata of the item.
    pub open spec fn meta(self) -> Option<MetaView> {
        match self {
            ItemView::Controller(_) => Some(
                MetaView { backend: Some("zwave"@), value_type: Some("string"@), ext: None },
            ),
            ItemView::Value(z) => value_meta(z),
        }
    }
}

impl Item {
    pub fn controller(name: &str, home_id: u32) -> (r: Self)
        ensures
            r@ == ItemView::Controller(ControllerItemView { name: name@, home_id }),
    {
        Item::Controller(ControllerItem::new(name, home_id))
    }

    pub fn item(name: &str, value: ValueDescriptor) -> (r: Self)
        ensures
            r@ == ItemView::Value(ZWaveItemView { name: name@, value: value@ }),
    {
        Item::Value(ZWaveItem::new(name, value))
    }

    /// A copy of the item.
    pub fn duplicate(&self) -> (r: Item)
        ensures
            r@ == self@,
    {
        match self {
            Item::Controller(c) => Item::Controller(c.duplicate()),
            Item::Value(z) => Item::Value(z.duplicate()),
        }
    }

    pub fn get_name(&self) -> (r: String)
        ensures
            r@ == self@.name(),
    {
        match self {
            Item::Controller(c) => c.get_name(),
            Item::Value(z) => z.get_name(),
        }
    }

    pub fn get_meta(&self) -> (r: Option<Meta>)
        ensures
            r.is_some() == self@.meta().is_some(),
            r matches Some(m) ==> m@ == self@.meta()->Some_0,
    {
        match self {
            Item::Controller(c) => c.get_meta(),
            Item::Value(z) => z.get_meta(),
        }
    }
}

} // verus!
