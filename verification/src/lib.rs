//! Building blocks for extracting isolated digits of constants: an exact
//! modular exponentiation at two integer widths, and a hexadecimal viewer
//! for the buffers that such computations fill.

pub mod digits;
pub mod hexview;
pub mod modexp;
pub mod order_2;
