//! A file-security toolkit core: size-string parsing, random and
//! password-derived key material generation, one-time-pad XOR transforms,
//! byte scrambling, and multi-pass overwrite planning.
//!
//! All file and terminal I/O is left to the surrounding binary; this crate
//! works on plain byte buffers and states what each operation returns.

pub mod errors;
pub mod keygen;
pub mod keystream;
pub mod random;
pub mod scramble;
pub mod size;
pub mod xor;

pub use errors::CryptError;
