//! Reading and writing the entry of one partition of the data file.

use crate::entry::{Entry, EntryPreface, EntryUpdate};
use vstd::prelude::*;

verus! {

/// Why a partition could not be read or written.
#[derive(Debug)]
pub enum FileHandleError {
    ReadIntoBufferFailed,
    ReadIntoHeaderBufferFailed,
    WriteBufferFailed,
}

pub type FhResult<T> = Result<T, FileHandleError>;

/// Access to the entry of one partition.
pub trait FileHandle<K, V> {
    fn read(&mut self) -> FhResult<Option<Entry<K, V>>>;

    fn read_value(&self) -> FhResult<Option<V>>;

    fn read_preface(&mut self) -> FhResult<Option<EntryPreface<K>>>;

    fn write(&mut self, entry: Entry<K, V>) -> FhResult<()>;

    fn write_update(&self, update: EntryUpdate<V>) -> FhResult<()>;
}

} // verus!
