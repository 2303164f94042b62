//! Fatal-error reporting for a bare-metal kernel: symbolication of code
//! addresses, rendering of the report lines, and the decisions of the panic
//! path from the first message to the final halt.

pub mod symbols;
pub mod render;
pub mod reporter;
pub mod layout;
