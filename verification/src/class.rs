//! The classes, types and genres of native device values, as far as the
//! bridge tells them apart.
use vstd::prelude::*;
use crate::text::{eq_ignore_case, same_ignoring_case};

verus! {

/// The command classes that a rule can name.
#[derive(Clone, Copy, Debug, PartialEq, Eq, Structural)]
pub enum CommandClass {
    Basic,
    SwitchBinary,
    SwitchMultilevel,
    SensorBinary,
    SensorMultilevel,
}

impl CommandClass {
    /// The class of a name, whatever the case of its letters.
    pub open spec fn named(s: Seq<char>) -> Option<CommandClass> {
        if same_ignoring_case(s, "basic"@) {
            Some(CommandClass::Basic)
        } else if same_ignoring_case(s, "switch_binary"@) {
            Some(CommandClass::SwitchBinary)
        } else if same_ignoring_case(s, "switch_multilevel"@) {
            Some(CommandClass::SwitchMultilevel)
        } else if same_ignoring_case(s, "sensor_binary"@) {
            Some(CommandClass::SensorBinary)
        } else if same_ignoring_case(s, "sensor_multilevel"@) {
            Some(CommandClass::SensorMultilevel)
        } else {
            None
        }
    }

    pub fn from_str(s: &str) -> (r: Option<CommandClass>)
        ensures
            r == Self::named(s@),
    {
        if eq_ignore_case(s, "basic") {
            Some(CommandClass::Basic)
        } else if eq_ignore_case(s, "switch_binary") {
            Some(CommandClass::SwitchBinary)
        } else if eq_ignore_case(s, "switch_multilevel") {
            Some(CommandClass::SwitchMultilevel)
        } else if eq_ignore_case(s, "sensor_binary") {
            Some(CommandClass::SensorBinary)
        } else if eq_ignore_case(s, "sensor_multilevel") {
            Some(CommandClass::SensorMultilevel)
        } else {
            None
        }
    }

    /// The class of a name; `Basic` where the name is unknown.
    pub fn from_str_default(s: &str) -> (r: CommandClass)
        ensures
            r == match Self::named(s@) {
                Some(c) => c,
                None => CommandClass::Basic,
            },
    {
        match CommandClass::from_str(s) {
            Some(c) => c,
            None => CommandClass::Basic,
        }
    }

    /// The name that the metadata of an item shows for the class.
    pub open spec fn name(self) -> Seq<char> {
        match self {
            CommandClass::Basic => "Basic"@,
            CommandClass::SwitchBinary => "SwitchBinary"@,
            CommandClass::SwitchMultilevel => "SwitchMultilevel"@,
            CommandClass::SensorBinary => "SensorBinary"@,
            CommandClass::SensorMultilevel => "SensorMultilevel"@,
        }
    }

    pub fn to_name(self) -> (r: &'static str)
        ensures
            r@ == self.name(),
    {
        match self {
            CommandClass::Basic => "Basic",
            CommandClass::SwitchBinary => "SwitchBinary",
            CommandClass::SwitchMultilevel => "SwitchMultilevel",
            CommandClass::SensorBinary => "SensorBinary",
            CommandClass::SensorMultilevel => "SensorMultilevel",
        }
    }
}

/// The native types of device values.
#[derive(Clone, Copy, Debug, PartialEq, Eq, Structural)]
pub enum ValueType {
    Bool,
    Byte,
    Decimal,
    Int,
    List,
    Schedule,
    Short,
    String,
    Button,
    Raw,
}

impl ValueType {
    /// The type of a name, whatever the case of its letters.
    pub open spec fn named(s: Seq<char>) -> Option<ValueType> {
        if same_ignoring_case(s, "bool"@) {
            Some(ValueType::Bool)
        } else if same_ignoring_case(s, "byte"@) {
            Some(ValueType::Byte)
        } else if same_ignoring_case(s, "decimal"@) {
            Some(ValueType::Decimal)
        } else if same_ignoring_case(s, "int"@) {
            Some(ValueType::Int)
        } else if same_ignoring_case(s, "short"@) {
            Some(ValueType::Short)
        } else if same_ignoring_case(s, "string"@) {
            Some(ValueType::String)
        } else {
            None
        }
    }

    pub fn from_str(s: &str) -> (r: Option<ValueType>)
        ensures
            r == Self::named(s@),
    {
        if eq_ignore_case(s, "bool") {
            Some(ValueType::Bool)
        } else if eq_ignore_case(s, "byte") {
            Some(ValueType::Byte)
        } else if eq_ignore_case(s, "decimal") {
            Some(ValueType::Decimal)
        } else if eq_ignore_case(s, "int") {
            Some(ValueType::Int)
        } else if eq_ignore_case(s, "short") {
            Some(ValueType::Short)
        } else if eq_ignore_case(s, "string") {
            Some(ValueType::String)
        } else {
            None
        }
    }

    /// The type of a name; `Raw` where the name is unknown.
    pub fn from_str_default(s: &str) -> (r: ValueType)
        ensures
            r == match Self::named(s@) {
                Some(t) => t,
                None => ValueType::Raw,
            },
    {
        match ValueType::from_str(s) {
            Some(t) => t,
            None => ValueType::Raw,
        }
    }

    /// The name that rules use for the type: the integer types share
    /// one name, a decimal is a float.
    pub open spec fn rule_name(self) -> Seq<char> {
        match self {
            ValueType::Bool => "bool"@,
            ValueType::Byte | ValueType::Short | ValueType::Int => "int"@,
            ValueType::Decimal => "float"@,
            ValueType::String => "string"@,
            ValueType::Raw => "raw"@,
            ValueType::List => "list"@,
            ValueType::Schedule => "schedule"@,
            ValueType::Button => "button"@,
        }
    }

    pub fn to_rule_name(self) -> (r: &'static str)
        ensures
            r@ == self.rule_name(),
    {
        match self {
            ValueType::Bool => "bool",
            ValueType::Byte | ValueType::Short | ValueType::Int => "int",
            ValueType::Decimal => "float",
            ValueType::String => "string",
            ValueType::Raw => "raw",
            ValueType::List => "list",
            ValueType::Schedule => "schedule",
            ValueType::Button => "button",
        }
    }

    /// The types that the coercion layer can carry.
    pub open spec fn supported(self) -> bool {
        !(self is List || self is Schedule || self is Button)
    }

    pub fn is_supported(self) -> (r: bool)
        ensures
            r == self.supported(),
    {
        match self {
            ValueType::List | ValueType::Schedule | ValueType::Button => false,
            _ => true,
        }
    }
}

/// The genres of native device values.
#[derive(Clone, Copy, Debug, PartialEq, Eq, Structural)]
pub enum ValueGenre {
    Basic,
    User,
    Config,
    System,
}

} // verus!
