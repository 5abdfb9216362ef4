//! The error kinds this crate surfaces: transport failures, protocol-level
//! rejections (bad status, wrong schema, malformed body), filesystem
//! failures, and a missing target file. A filename that merely fails to
//! decode is not an error anywhere in this crate; such files are skipped.

use vstd::prelude::*;
use vstd::string::*;

verus! {

#[derive(Debug)]
pub enum PluginError {
    /// Unreachable host, timeout, or transport failure.
    Network(String),
    /// Non-success status or state, schema mismatch, malformed body.
    Protocol(String),
    /// Create, read, write, rename or delete failure.
    Io(String),
    /// The operation targets a local file that does not exist.
    NotFound,
}

impl Clone for PluginError {
    fn clone(&self) -> (r: Self)
        ensures
            r == *self,
    {
        match self {
            PluginError::Network(m) => PluginError::Network(m.clone()),
            PluginError::Protocol(m) => PluginError::Protocol(m.clone()),
            PluginError::Io(m) => PluginError::Io(m.clone()),
            PluginError::NotFound => PluginError::NotFound,
        }
    }
}

impl PluginError {
    /// The text shown for this error.
    pub fn message(&self) -> (r: String)
        ensures
            match self {
                PluginError::Network(m) => r@ == m@,
                PluginError::Protocol(m) => r@ == m@,
                PluginError::Io(m) => r@ == m@,
                PluginError::NotFound => r@ == "文件不存在"@,
            },
    {
        match self {
            PluginError::Network(m) => m.clone(),
            PluginError::Protocol(m) => m.clone(),
            PluginError::Io(m) => m.clone(),
            PluginError::NotFound => String::from_str("文件不存在"),
        }
    }
}

} // verus!
