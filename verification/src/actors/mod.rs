//! The kinds of actor that the library knows.

pub mod dactor;
pub mod dyn_actor;
pub mod io_actor;
