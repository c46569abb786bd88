//! Display brightness control over DDC/CI: decoding of the brightness VCP
//! feature, percentage arithmetic, brightness tokens, and resolution of a
//! display output to the I2C bus that carries its DDC channel.

pub mod codec;
pub mod command;
pub mod error;
pub mod resolver;
pub mod session;
