//! Encrypted single-file store for a device's settings and its event log.
//!
//! A *generation* is one header, a sequence of timestamped events and one
//! settings block. It is framed as bytes by [`codec`], sealed with
//! AES-128 in CBC mode by [`cipher`], and loaded or bootstrapped by
//! [`store`], which also fills the [`cache`] that the rest of an application
//! reads its settings from. Reading and writing the file itself is left to
//! the caller: every function here works on bytes.

pub mod cache;
pub mod cipher;
pub mod codec;
pub mod error;
pub mod record;
pub mod store;
pub mod wire;

pub use crate::cache::{get_settings, store_settings_in_global_state, SettingsCache};
pub use crate::cipher::{open, seal, AES_IV};
pub use crate::codec::{decode, encode};
pub use crate::error::DatError;
pub use crate::record::{Event, Header, Settings};
pub use crate::store::{
    complete_bootstrap, default_header, default_settings, read_encrypted_dat, write_encrypted_dat,
    Bootstrap, FileState, LoadStep,
};
