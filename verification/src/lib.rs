//! Verified core of the Unlim participant connector and the server manager:
//! parsing what the Unlim CLI prints, choosing which instance to report,
//! checking invite keys and downloads, and the decisions of the install,
//! connect and disconnect procedures.
#![allow(unused_imports)]

pub mod text;
pub mod instances;
pub mod status;
pub mod paths;
pub mod install;
pub mod credential;
pub mod connect;
pub mod host;
