pub mod config;
pub mod frame;
pub mod history;
pub mod model;
pub mod session;
pub mod sysfs;
