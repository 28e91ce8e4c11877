//! A binary-buffer decoding and encoding toolkit.
//!
//! A [`ByteReader`] extracts typed values (fixed-width integers,
//! null-terminated strings, homogeneous runs, length-prefixed collections)
//! from an immutable byte buffer at a cursor, honouring a chosen
//! [`Endianness`]. A [`ByteWriter`] performs the inverse: it appends or
//! patches encoded values in a growable byte buffer.
//!
//! Every operation carries a contract: what it decodes or encodes, when it
//! fails, and how the cursor moves.

pub mod base256;
pub mod bytereader;
pub mod bytewriter;
pub mod chomp;
pub mod laws;
pub mod primitives;
pub mod transmutable;

pub use bytereader::ByteReader;
pub use bytereader::ByteReaderError;
pub use bytereader::ByteReaderErrorKind;
pub use bytereader::ByteReaderIterator;
pub use bytewriter::ByteWriter;
pub use bytewriter::ByteWriterError;
pub use chomp::Chomp;
pub use chomp::ChompFlatten;
pub use transmutable::ByteError;
pub use transmutable::Endianness;
pub use transmutable::FixedSize;
pub use transmutable::ToBytes;
pub use transmutable::TryFromBytes;
pub use transmutable::TryFromBytesError;
