//! The error taxonomy of a read.  Every hard failure is terminal; each
//! variant carries enough context (a byte offset or an identifier) to render
//! a stable, human-readable message.  The exact message text is a durable
//! contract: consumers diff against it byte for byte.

use vstd::prelude::*;

use crate::textfmt::dec_of;
use crate::textfmt::push_decimal;

verus! {

/// A truncated or malformed length-delimited record in the plaintext stream.
#[derive(Clone, Copy, Debug, PartialEq, Eq, Structural)]
pub enum FramingError {
    /// The stream ended inside the frame that starts at `offset`.
    Truncated { offset: u64 },
    /// The payload of the frame that starts at `offset` is not a well-formed
    /// sequence of length-delimited fields.
    Malformed { offset: u64 },
}

/// A structural or semantic violation found while consuming frames.
#[derive(Clone, Copy, Debug, PartialEq, Eq, Structural)]
pub enum ValidationError {
    /// The stream does not begin with a version frame.
    MissingVersionFrame,
    /// A second version frame appeared after the first.
    DuplicateVersionFrame,
    /// The version frame has no version field.
    MissingVersionField,
    /// The version field is not eight bytes wide.
    MalformedVersionField,
    /// The container was written by a schema version this reader does not
    /// support.
    UnsupportedVersion { version: u64 },
    /// A declaration frame has no identifier field.
    MissingIdentifierField,
    /// The identifier field is not eight bytes wide.
    MalformedIdentifierField,
    /// The same identifier was declared twice.
    DuplicateIdentifier { id: u64 },
    /// A reference frame has no target field.
    MissingReferenceField,
    /// The target field is not eight bytes wide.
    MalformedReferenceField,
    /// A reference names an identifier that no earlier frame declared
    /// (a forward reference is equally invalid).
    DanglingReference { id: u64 },
    /// A frame carries a type tag outside the schema.
    UnrecognizedFrameType { tag: u8 },
}

/// A terminal failure of `read_all`: the read returns either a fully
/// validated backup or exactly one of these.
#[derive(Clone, Copy, Debug, PartialEq, Eq, Structural)]
pub enum ReadError {
    /// The origin was unavailable or broke mid-read.
    Io,
    /// The trailing integrity tag did not match the keyed MAC of the
    /// protected bytes; evaluated before any decryption is attempted.
    Authentication,
    /// The container is too short to carry its header and trailing tag, or
    /// its header is not the expected magic.
    Cipher,
    /// The decrypted payload is not a well-formed compressed stream.
    Decompression,
    /// A frame could not be decoded from the plaintext stream.
    Framing(FramingError),
    /// A frame violated a structural or semantic rule.
    Validation(ValidationError),
}

impl FramingError {
    /// The stable message text of this error.
    pub open spec fn spec_message(self) -> Seq<char> {
        match self {
            FramingError::Truncated { offset } => "truncated frame at offset "@ + dec_of(
                offset as nat,
            ),
            FramingError::Malformed { offset } => "malformed frame payload at offset "@ + dec_of(
                offset as nat,
            ),
        }
    }

    /// Renders the stable message text of this error.
    pub fn message(&self) -> (r: String)
        ensures
            r@ == self.spec_message(),
    {
        match self {
            FramingError::Truncated { offset } => {
                let mut s = String::from_str("truncated frame at offset ");
                push_decimal(&mut s, *offset);
                s
            },
            FramingError::Malformed { offset } => {
                let mut s = String::from_str("malformed frame payload at offset ");
                push_decimal(&mut s, *offset);
                s
            },
        }
    }
}

impl ValidationError {
    /// The stable message text of this error.
    pub open spec fn spec_message(self) -> Seq<char> {
        match self {
            ValidationError::MissingVersionFrame => "missing version frame"@,
            ValidationError::DuplicateVersionFrame => "duplicate version frame"@,
            ValidationError::MissingVersionField => "missing version field"@,
            ValidationError::MalformedVersionField => "malformed version field"@,
            ValidationError::UnsupportedVersion { version } => "unsupported version: "@ + dec_of(
                version as nat,
            ),
            ValidationError::MissingIdentifierField => "missing identifier field"@,
            ValidationError::MalformedIdentifierField => "malformed identifier field"@,
            ValidationError::DuplicateIdentifier { id } => "duplicate identifier: "@ + dec_of(
                id as nat,
            ),
            ValidationError::MissingReferenceField => "missing reference field"@,
            ValidationError::MalformedReferenceField => "malformed reference field"@,
            ValidationError::DanglingReference { id } => "dangling reference: "@ + dec_of(id as nat),
            ValidationError::UnrecognizedFrameType { tag } => "unrecognized frame type: "@ + dec_of(
                tag as nat,
            ),
        }
    }

    /// Renders the stable message text of this error.
    pub fn message(&self) -> (r: String)
        ensures
            r@ == self.spec_message(),
    {
        match self {
            ValidationError::MissingVersionFrame => String::from_str("missing version frame"),
            ValidationError::DuplicateVersionFrame => String::from_str("duplicate version frame"),
            ValidationError::MissingVersionField => String::from_str("missing version field"),
            ValidationError::MalformedVersionField => String::from_str("malformed version field"),
            ValidationError::UnsupportedVersion { version } => {
                let mut s = String::from_str("unsupported version: ");
                push_decimal(&mut s, *version);
                s
            },
            ValidationError::MissingIdentifierField => String::from_str(
                "missing identifier field",
            ),
            ValidationError::MalformedIdentifierField => String::from_str(
                "malformed identifier field",
            ),
            ValidationError::DuplicateIdentifier { id } => {
                let mut s = String::from_str("duplicate identifier: ");
                push_decimal(&mut s, *id);
                s
            },
            ValidationError::MissingReferenceField => String::from_str("missing reference field"),
            ValidationError::MalformedReferenceField => String::from_str(
                "malformed reference field",
            ),
            ValidationError::DanglingReference { id } => {
                let mut s = String::from_str("dangling reference: ");
                push_decimal(&mut s, *id);
                s
            },
            ValidationError::UnrecognizedFrameType { tag } => {
                let mut s = String::from_str("unrecognized frame type: ");
                push_decimal(&mut s, *tag as u64);
                s
            },
        }
    }
}

impl ReadError {
    /// The stable message text of this error.
    pub open spec fn spec_message(self) -> Seq<char> {
        match self {
            ReadError::Io => "input/output error: origin unavailable"@,
            ReadError::Authentication => "authentication failed: integrity tag mismatch"@,
            ReadError::Cipher => "malformed ciphertext framing"@,
            ReadError::Decompression => "corrupt compressed payload"@,
            ReadError::Framing(e) => e.spec_message(),
            ReadError::Validation(e) => e.spec_message(),
        }
    }

    /// Renders the stable message text of this error.
    pub fn message(&self) -> (r: String)
        ensures
            r@ == self.spec_message(),
    {
        match self {
            ReadError::Io => String::from_str("input/output error: origin unavailable"),
            ReadError::Authentication => String::from_str(
                "authentication failed: integrity tag mismatch",
            ),
            ReadError::Cipher => String::from_str("malformed ciphertext framing"),
            ReadError::Decompression => String::from_str("corrupt compressed payload"),
            ReadError::Framing(e) => e.message(),
            ReadError::Validation(e) => e.message(),
        }
    }
}

} // verus!
