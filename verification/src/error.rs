//! What can go wrong in the storage, and how raft is told.
use vstd::prelude::*;

verus! {

/// Errors of the storage. Those of the database, of the value codecs and of the outer layers
/// come as their messages.
#[derive(Debug)]
pub enum Error {
    /// Writing to the database failed.
    RocksDb(String),
    /// Reading from the database failed.
    RocksDbRaw(String),
    /// A record is no valid protobuf message, or a message could not be written.
    EncodeProto(protobuf::ProtobufError),
    /// The log ends before the index.
    IndexOutOfBounds { index: u64, last_index: u64 },
    /// The log starts behind the index.
    Compacted(u64),
    /// A record that is not protobuf could not be decoded.
    Decode(String),
    /// A record that is not protobuf could not be encoded.
    Encode(String),
}

/// What lies behind an error that raft does not know.
#[derive(Debug)]
pub enum Cause {
    /// An error of the storage.
    Storage(Error),
    /// An error of the database while it iterated.
    Database(String),
}

/// The errors that raft expects of a storage.
#[derive(Debug)]
pub enum StorageError {
    /// The entries were compacted away.
    Compacted,
    /// Entries are missing.
    Unavailable,
    /// There is no recent enough snapshot yet.
    SnapshotTemporarilyUnavailable,
    /// Anything else.
    Other(Cause),
}

/// The errors that raft expects of a storage's methods.
#[derive(Debug)]
pub enum RaftError {
    /// A record is no valid message.
    CodecError(protobuf::ProtobufError),
    /// The storage could not serve the call.
    Store(StorageError),
}

/// How raft is told of an error of the storage.
pub open spec fn raft_error(error: Error) -> RaftError {
    match error {
        Error::EncodeProto(err) => RaftError::CodecError(err),
        Error::Compacted(_) => RaftError::Store(StorageError::Compacted),
        _ => RaftError::Store(StorageError::Other(Cause::Storage(error))),
    }
}

fn other_error(error: Error) -> (e: RaftError)
    ensures
        e == RaftError::Store(StorageError::Other(Cause::Storage(error))),
{
    RaftError::Store(StorageError::Other(Cause::Storage(error)))
}

impl From<Error> for RaftError {
    fn from(value: Error) -> (e: Self) {
        match value {
            Error::EncodeProto(err) => RaftError::CodecError(err),
            Error::Compacted(_) => RaftError::Store(StorageError::Compacted),
            err => other_error(err),
        }
    }
}

impl vstd::std_specs::convert::FromSpecImpl<Error> for RaftError {
    open spec fn obeys_from_spec() -> bool {
        true
    }

    open spec fn from_spec(v: Error) -> Self {
        raft_error(v)
    }
}

} // verus!
