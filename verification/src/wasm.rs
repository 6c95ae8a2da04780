//! The host side of the machine that evaluates rule conditions: the layout
//! of its memory, the functions it calls back, and how their arguments and
//! results cross the boundary.

pub mod bitmap;
pub mod bytes;
pub mod exports;
pub mod host;
pub mod layout;
pub mod linker;
pub mod lookup;
pub mod string;
pub mod strops;
pub mod types;
pub mod values;
