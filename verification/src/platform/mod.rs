//! Platform-specific logic. Only Windows is supported.

pub mod windows;
