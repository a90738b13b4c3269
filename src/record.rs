use vstd::prelude::*;

verus! {

/// Records per batch used by a typical deployment: half of what the store accepts.
pub const PAIRS_MAX_COUNT: usize = 5000;

/// Bytes per batch used by a typical deployment: half of what the store accepts.
pub const UPLOAD_MAX_SIZE: usize = 50 * 1024 * 1024;

/// One key/value pair to write, with the store's optional per-key settings.
#[derive(Debug, PartialEq, Eq)]
pub struct Record {
    pub key: Vec<u8>,
    pub value: Vec<u8>,
    pub expiration: Option<i64>,
    pub expiration_ttl: Option<i64>,
    pub base64: Option<bool>,
}

/// The two bounds on one batch: how many records and how many bytes.
#[derive(Clone, Copy, Debug, PartialEq, Eq, Structural)]
pub struct Limits {
    pub max_count: usize,
    pub max_bytes: usize,
}

/// The size of a record: the bytes of its key and of its value.
pub open spec fn size(r: Record) -> int {
    r.key@.len() as int + r.value@.len() as int
}

/// The summed size of a sequence of records.
pub open spec fn bytes_of(b: Seq<Record>) -> int
    decreases b.len(),
{
    if b.len() == 0 {
        0
    } else {
        bytes_of(b.drop_last()) + size(b.last())
    }
}

impl Record {
    /// A record with the given key and value and no per-key settings.
    pub fn new(key: Vec<u8>, value: Vec<u8>) -> (r: Record)
        ensures
            r.key@ == key@,
            r.value@ == value@,
            r.expiration is None,
            r.expiration_ttl is None,
            r.base64 is None,
    {
        Record { key, value, expiration: None, expiration_ttl: None, base64: None }
    }
}

impl Limits {
    /// The limits of a typical deployment.
    pub fn standard() -> (l: Limits)
        ensures
            l.max_count == PAIRS_MAX_COUNT,
            l.max_bytes == UPLOAD_MAX_SIZE,
    {
        Limits { max_count: PAIRS_MAX_COUNT, max_bytes: UPLOAD_MAX_SIZE }
    }
}

} // verus!
