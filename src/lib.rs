pub mod text;
pub mod codegen;
pub mod slab;
pub mod wire;
pub mod request;
pub mod context;
pub mod connection;
pub mod registry;
pub mod frame;
