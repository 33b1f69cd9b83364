//! Core engine of a multi-version runtime manager: version-token resolution
//! against a release index, install/uninstall and activation bookkeeping over
//! an inventory of installed versions, the privileged filesystem-helper
//! protocol, and download/redirect handling.

pub mod activate;
pub mod arch;
pub mod current;
pub mod daemon;
pub mod elevate;
pub mod fetch;
pub mod install;
pub mod index;
pub mod inventory;
pub mod listing;
pub mod manifest;
pub mod paths;
pub mod resolve;
pub mod settings;
pub mod strings;
pub mod version;
