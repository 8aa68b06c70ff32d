//! BCBC: a compact, self-describing binary codec for a closed universe of
//! typed values, together with the byte-buffer abstractions it reads from
//! and writes to.
//!
//! Every executable function is verified against a mathematical model of the
//! wire format: [`wire`] defines what a value encodes to, [`grammar`] defines
//! what a byte sequence decodes to (including every error), and [`laws`]
//! proves that the two are inverse to each other.

pub mod storage;
pub mod header;
pub mod error;
pub mod bigend;
pub mod typeid;
pub mod value;
pub mod casting;
pub mod schema;
pub mod access;
pub mod wire;
pub mod grammar;
pub mod reader;
pub mod writer;
pub mod proofs;
pub mod laws;

pub use storage::bytestr::ByteStr;
pub use storage::input::{BytesInput, Input, ReadError, Reader, SliceInput};
pub use storage::marker::ByteStorage;
pub use storage::output::{Output, VecOutput};
pub use storage::utf8::Utf8Error;
pub use header::{Ext1, Tag, EXT16, EXT32, EXT64, EXT8, H4, L4};
pub use error::{Error, Fatal};
pub use typeid::{HashId, StdId, TypeId, TypeIdView, SCHEMA_ANONYMOUS, SCHEMA_HASH};
pub use value::{EnumVariantId, TupleItemId, Type, TypeView, Value, ValueView, SIZE_MAX};
pub use schema::Schema;
