//! What a GPU is given: the bytes of structures that it reads, and the steps of a dispatch.
pub mod accel;
pub mod binding;
pub mod device;
pub mod dispatch;
pub mod layout;
pub mod shader_table;
pub mod window;
