//! A store of passphrase-encrypted secrets in a JSON tree.
//!
//! A can file holds a tree of secrets, each sealed with AES-256-GCM-SIV under
//! a key that Argon2id derives from a passphrase. JSON pointers name the
//! places in the tree. The library decides what each operation does; reading
//! and writing files, prompts and pipes is left to the program around it.

use vstd::prelude::*;

pub mod b64;
pub mod can;
pub mod cipher;
pub mod cli;
pub mod error;
pub mod hex;
pub mod input;
pub mod kdf;
pub mod laws;
pub mod opener;
pub mod operations;
pub mod pointer;
pub mod save;
pub mod secret;
pub mod text;
pub mod tree;
pub mod value;

pub use crate::can::{Can, CanFile, Loaded, SavedFile};
pub use crate::cli::{start, Actions, Cli, Reading, Step, WriteMode, Writing};
pub use crate::error::{CanError, Failure, SCHEMA_VERSION};
pub use crate::hex::{hex_decode, hex_encode, hex_value};
pub use crate::input::{prompt_passphrase, read_secret};
pub use crate::kdf::make_salt;
pub use crate::opener::CanOpener;
pub use crate::pointer::{decode_pointer_tokens, ensure_non_root_pointer};
pub use crate::save::{SaveStep, Saving};
pub use crate::secret::{make_random, SecretBytes};
pub use crate::tree::{remove_value_at_pointer, upsert_value_at_pointer};
pub use crate::value::{Number, Object, Value};

verus! {

} // verus!
