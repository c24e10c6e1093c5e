//! A bridge engine between a device driver (a Z-Wave controller) and a
//! publish/subscribe bus: value coercion, identity resolution of native
//! device values, the device index, and the decisions of both pumps.
pub mod text;
pub mod number;
pub mod value;
pub mod util;
pub mod recv_wrap;
pub mod class;
pub mod config;
pub mod errors;
pub mod item;
pub mod table;
pub mod device;
pub mod binding;
pub mod bus;
pub mod bridge;
pub mod event;
pub mod driver;
