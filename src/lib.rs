//! Decoding of integer timestamps kept under several epoch conventions
//! into proleptic Gregorian calendar date-times.
pub mod calendar;
pub mod epoch;
pub mod convert;
pub mod encode;
pub mod laws;
pub mod app_state;

pub use app_state::TemplateApp;
pub use calendar::CalendarDateTime;
pub use convert::{convert, ConversionError};
pub use encode::to_raw;
pub use epoch::{all_schemes, Epoch, TimeUnit};
