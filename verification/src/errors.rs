//! The errors of the device side.
use vstd::prelude::*;
use crate::class::ValueType;
use crate::value::{ConversionError, ConversionErrorView, ValueKind};

verus! {

/// Why an operation on an item failed.
#[derive(Clone, Debug, PartialEq, Eq)]
pub enum DeviceError {
    /// The value could not be brought into the form the device needs.
    Conversion(ConversionError),
    /// The native type of the item is one that cannot be carried.
    Unimplemented(String, ValueType),
    /// The value offered has a form that the native type does not take.
    InvalidType(String, ValueKind, ValueType),
    /// The controller knows no such command.
    InvalidCommand(String),
}

/// What a `DeviceError` holds.
pub enum DeviceErrorView {
    Conversion(ConversionErrorView),
    Unimplemented(Seq<char>, ValueType),
    InvalidType(Seq<char>, ValueKind, ValueType),
    InvalidCommand(Seq<char>),
}

impl View for DeviceError {
    type V = DeviceErrorView;

    open spec fn view(&self) -> DeviceErrorView {
        match self {
            DeviceError::Conversion(e) => DeviceErrorView::Conversion(e@),
            DeviceError::Unimplemented(n, t) => DeviceErrorView::Unimplemented(n@, *t),
            DeviceError::InvalidType(n, k, t) => DeviceErrorView::InvalidType(n@, *k, *t),
            DeviceError::InvalidCommand(c) => DeviceErrorView::InvalidCommand(c@),
        }
    }
}

} // verus!
