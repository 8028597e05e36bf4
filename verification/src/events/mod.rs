//! Runtime events: their stream and their JSON form.

pub mod stream;
pub mod wire;
