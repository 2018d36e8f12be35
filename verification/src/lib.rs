//! TCP sockets and JSON decoding for an embedded scripting runtime.
//!
//! The library holds every decision of the bridge between scripts, sockets
//! and JSON text, and proves what each decision is:
//!
//! - [`surface`] finds the entry point behind a name, checks the arguments
//!   of a call and starts the call;
//! - [`socket`] keeps the record of each handle, says what to do on the
//!   operating system for each operation, and turns what the system gave
//!   into what the script sees;
//! - [`decoder`] decodes JSON text, [`bridge`] maps a JSON value to a value
//!   of the runtime, and [`marshal`] plans the steps that build such a value
//!   inside the runtime;
//! - [`json_value`], [`dynamic`], [`number`], [`address`], [`endpoint`],
//!   [`fraction`], [`text`] and [`error`] hold the data that these work on.
//!
//! The blocking calls themselves, and the calls into the runtime, are made
//! by the caller: the library never touches a socket or an interpreter.

pub mod address;
pub mod bridge;
pub mod decoder;
pub mod dynamic;
pub mod endpoint;
pub mod error;
pub mod fraction;
pub mod json_value;
pub mod marshal;
pub mod number;
pub mod socket;
pub mod surface;
pub mod text;
