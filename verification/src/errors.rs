//! The error taxonomy shared by every operation of the crate.

use vstd::prelude::*;

verus! {

/// Every way an operation of this crate can refuse its input, plus the one
/// post-write integrity failure the XOR transform can detect.
#[derive(Clone, Copy, Debug, PartialEq, Eq, Structural)]
pub enum CryptError {
    /// The magnitude of a size string is not a non-negative integer that
    /// fits the machine, or is absent.
    InvalidNumber,
    /// The unit of a size string is not one of the recognized tokens.
    UnknownUnit,
    /// The size string names more bytes than the machine can count.
    SizeOverflow,
    /// The key-generation mode is neither random nor deterministic.
    InvalidMode,
    /// Deterministic key generation was asked for without a password.
    MissingPassword,
    /// The destination file already exists.
    AlreadyExists,
    /// The key buffer is empty.
    EmptyKey,
    /// The input buffer is empty.
    EmptyInput,
    /// The key is shorter than the input it must cover.
    KeyTooShort,
    /// After a write, the output length does not match the input length.
    SizeMismatch,
    /// Scrambling was asked for with neither an output file nor leave to
    /// overwrite in place.
    NoDestination,
    /// An erase was asked for with zero passes.
    ZeroPasses,
}

impl CryptError {
    /// The human-readable message of each error, for the surrounding binary
    /// to print.
    pub open spec fn message_spec(self) -> Seq<char> {
        match self {
            CryptError::InvalidNumber => "Invalid number format"@,
            CryptError::UnknownUnit => "Unknown unit"@,
            CryptError::SizeOverflow => "Size does not fit in this machine's byte count"@,
            CryptError::InvalidMode => "Mode must be 'random' or 'deterministic'"@,
            CryptError::MissingPassword => "--password is required in deterministic mode"@,
            CryptError::AlreadyExists => "File already exists"@,
            CryptError::EmptyKey => "Key file is empty. Please provide a valid key."@,
            CryptError::EmptyInput => "Input file is empty. Nothing to process."@,
            CryptError::KeyTooShort => "Key is shorter than input data. Please provide a key of sufficient length."@,
            CryptError::SizeMismatch => "Output file size does not match input file size."@,
            CryptError::NoDestination => "Either specify an output file or use the --overwrite flag."@,
            CryptError::ZeroPasses => "Number of passes must be at least 1."@,
        }
    }

    /// Renders the message named by `message_spec`.
    pub fn message(self) -> (r: String)
        ensures
            r@ == self.message_spec(),
    {
        match self {
            CryptError::InvalidNumber => "Invalid number format".to_owned(),
            CryptError::UnknownUnit => "Unknown unit".to_owned(),
            CryptError::SizeOverflow => "Size does not fit in this machine's byte count".to_owned(),
            CryptError::InvalidMode => "Mode must be 'random' or 'deterministic'".to_owned(),
            CryptError::MissingPassword => "--password is required in deterministic mode".to_owned(),
            CryptError::AlreadyExists => "File already exists".to_owned(),
            CryptError::EmptyKey => "Key file is empty. Please provide a valid key.".to_owned(),
            CryptError::EmptyInput => "Input file is empty. Nothing to process.".to_owned(),
            CryptError::KeyTooShort => "Key is shorter than input data. Please provide a key of sufficient length.".to_owned(),
            CryptError::SizeMismatch => "Output file size does not match input file size.".to_owned(),
            CryptError::NoDestination => "Either specify an output file or use the --overwrite flag.".to_owned(),
            CryptError::ZeroPasses => "Number of passes must be at least 1.".to_owned(),
        }
    }
}

} // verus!
