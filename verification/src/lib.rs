//! Located errors: error values that remember where in the source they were raised.
//!
//! An error type is declared once with [`define_error`]: a name and a closed list of
//! variants, each with named fields and a message template. A [`Constructor`] of one of
//! the variants builds errors with [`create_err`] or [`err`]. Every error carries the place
//! it was raised at, an [`ErrorInfo`] or another record that implements
//! [`ErrorInfoTrait`], and shows it at the head of its message and of its diagnostic.
//!
//! Failures travel upwards in three ways. [`attempt`] wraps the cause of a failed
//! operation into an error of a declared type. A [`Conversion`], declared with
//! [`impl_from_error`], wraps an error of one declared type into a variant of another and
//! keeps the first error whole, so that the chain of places can be walked back.
//! [`guard`] turns the failure of a lock or a channel into an error of the caller's
//! choosing.

pub mod convert;
pub mod decimal;
pub mod declare;
pub mod error;
pub mod guard;
pub mod info;
pub mod propagate;
pub mod template;
pub mod text;

pub use convert::{impl_from_error, impl_from_error_into, Conversion};
pub use declare::{define_error, Constructor, ErrorType, Rejected, Variant};
pub use error::{create_err, Error, Field};
pub use guard::{broken_channel, guard, poisoned};
pub use info::{ErrorInfo, ErrorInfoTrait, Location};
pub use propagate::{attempt, err, ok, Outcome};
pub use template::{Template, TemplateError};
