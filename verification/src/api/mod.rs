//! What users of the library work with.

pub mod async_transfers;
pub mod context;
pub mod device_handle;
