//! The decisions of a desktop shell for notes, apart from the shell itself:
//! the scan of a directory tree, the settings and their updates, the
//! notifications that follow an update, and what the window commands decide.
//!
//! Nothing here touches the file system, the window system or the user
//! interface. A caller reads, hands in what it read, and carries out what
//! comes back.

pub mod commands;
pub mod config;
pub mod events;
pub mod files;
pub mod ignore;
pub mod order;
pub mod scan;
pub mod siblings;
pub mod snapshot;
pub mod text;
pub mod tree;
pub mod window;
