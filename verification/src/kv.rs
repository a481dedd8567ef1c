use vstd::prelude::*;
use vstd::std_specs::convert::IntoSpec;

use crate::bytes::{append_bytes, copy_range, le_bytes_u16, u16_from_le, u16_to_le};
use crate::error::{str_context, ContextSource, StringContext};

verus! {

/// An error of the SQLite binding.
#[verifier::external_type_specification]
#[verifier::external_body]
pub struct ExSqliteError(rusqlite::Error);

/// Opaque error that hides the storage engine from the public API.
#[derive(Debug)]
pub struct OpaqueDbError(pub ContextSource<rusqlite::Error>);

/// Errors of the key-value store.
#[derive(Debug)]
pub enum KvError {
    SqliteError(OpaqueDbError),
    InvalidMetadata(StringContext),
}

/// Wraps the storage engine error of a result as a key-value error with a message.
pub trait WrapSqliteError<T> {
    fn to_kv_err<S: Into<String>>(self, message: S) -> Result<T, KvError>;
}

impl<T> WrapSqliteError<T> for Result<T, rusqlite::Error> {
    fn to_kv_err<S: Into<String>>(self, message: S) -> (r: Result<T, KvError>)
        ensures
            self matches Ok(v) ==> r == Ok::<T, KvError>(v),
            self is Err ==> (r matches Err(KvError::SqliteError(e)) && (S::obeys_into_spec()
                ==> (*e.0.0).0 == message.into_spec())),
    {
        match self {
            Ok(v) => Ok(v),
            Err(e) => Err(KvError::SqliteError(OpaqueDbError(ContextSource::new(message, e)))),
        }
    }
}

/// A stored key with its metadata.
pub struct KvMetaKey {
    pub metadata: Vec<u8>,
    pub key: Vec<u8>,
}

/// A stored value with its metadata.
pub struct KvMetaValue {
    pub metadata: Vec<u8>,
    pub value: Vec<u8>,
}

/// Metadata split into its parts.
pub struct KvMetadata {
    pub prefix: [u8; 3],
    pub search_bytes: Vec<u8>,
    pub meta_bytes: Vec<u8>,
}

/// Metadata layout: a 3-byte prefix, the length of the search bytes (2 bytes, little
/// endian), the search bytes, then the other metadata bytes.
pub open spec fn metadata_layout(prefix: Seq<u8>, search_bytes: Seq<u8>, meta_bytes: Seq<u8>) -> Seq<u8> {
    prefix + le_bytes_u16(search_bytes.len() as u16) + search_bytes + meta_bytes
}

/// Builds metadata of the form a 3-byte prefix, up to 64 kB of search bytes and other
/// metadata.
pub fn join_prefix_with_meta(prefix: &[u8; 3], search_bytes: &[u8], meta_bytes: Option<&[u8]>) -> (v: Vec<u8>)
    requires
        search_bytes@.len() <= u16::MAX,
    ensures
        v@ == metadata_layout(
            prefix@,
            search_bytes@,
            match meta_bytes {
                Some(m) => m@,
                None => Seq::empty(),
            },
        ),
{
    let mut final_bytes: Vec<u8> = Vec::new();
    append_bytes(&mut final_bytes, prefix.as_slice());
    let len_bytes = u16_to_le(search_bytes.len() as u16);
    append_bytes(&mut final_bytes, len_bytes.as_slice());
    append_bytes(&mut final_bytes, search_bytes);
    match meta_bytes {
        Some(m) => {
            append_bytes(&mut final_bytes, m);
        },
        None => {
            assert(final_bytes@ =~= final_bytes@ + Seq::<u8>::empty());
        },
    }
    final_bytes
}

/// Whether every byte is 255.
pub open spec fn all_max(s: Seq<u8>) -> bool {
    forall|i: int| 0 <= i < s.len() ==> s[i] == 255
}

/// The byte string right after all strings that start with `start`: the last byte below
/// 255 incremented and the bytes after it zeroed; when every byte is 255, a 1 followed by
/// that many zeros.
pub open spec fn prefix_range_end(start: Seq<u8>) -> Seq<u8>
    decreases start.len(),
{
    if start.len() == 0 {
        seq![1u8]
    } else if start.last() < 255 {
        start.drop_last().push((start.last() + 1) as u8)
    } else {
        prefix_range_end(start.drop_last()).push(0u8)
    }
}

/// The exclusive end of the range of byte strings that start with `start`.
pub fn prefix_range(start: &[u8]) -> (r: Vec<u8>)
    ensures
        r@ == prefix_range_end(start@),
{
    let mut result = copy_range(start, 0, start.len());
    let mut i = result.len();
    proof {
        assert(start@.subrange(0, start@.len() as int) =~= start@);
    }
    while i > 0
        invariant
            i <= start@.len(),
            result@.len() == start@.len(),
            result@.take(i as int) == start@.take(i as int),
            forall|j: int| i <= j < result@.len() ==> result@[j] == 0u8,
            all_max(start@.skip(i as int)),
            prefix_range_end(start@) == prefix_range_end(start@.take(i as int)) + Seq::new(
                (start@.len() - i) as nat,
                |j: int| 0u8,
            ),
        decreases i,
    {
        let k = i - 1;
        if result[k] < 255 {
            let v = result[k] + 1;
            result[k] = v;
            proof {
                let t = start@.take(i as int);
                assert(t.last() == start@[k as int]);
                assert(t.drop_last() =~= start@.take(k as int));
                assert(result@ =~= start@.take(k as int).push(v) + Seq::new(
                    (start@.len() - i) as nat,
                    |j: int| 0u8,
                ));
            }
            return result;
        } else {
            result[k] = 0;
            proof {
                let t = start@.take(i as int);
                assert(t.last() == start@[k as int]);
                assert(t.drop_last() =~= start@.take(k as int));
                assert(prefix_range_end(t) == prefix_range_end(t.drop_last()).push(0u8));
                assert(prefix_range_end(start@.take(k as int)) + Seq::new(
                    (start@.len() - k) as nat,
                    |j: int| 0u8,
                ) =~= prefix_range_end(t.drop_last()).push(0u8) + Seq::new(
                    (start@.len() - i) as nat,
                    |j: int| 0u8,
                ));
                assert(result@.take(k as int) =~= start@.take(k as int));
                assert forall|j: int| 0 <= j < start@.skip(k as int).len() implies start@.skip(
                    k as int,
                )[j] == 255 by {
                    if j > 0 {
                        assert(start@.skip(k as int)[j] == start@.skip(i as int)[j - 1]);
                    }
                }
            }
            i = k;
        }
    }
    let mut extended_result: Vec<u8> = Vec::new();
    extended_result.push(1);
    append_bytes(&mut extended_result, result.as_slice());
    proof {
        assert(start@.take(0) =~= Seq::<u8>::empty());
        assert(result@ =~= Seq::new(start@.len(), |j: int| 0u8));
        assert(extended_result@ =~= prefix_range_end(start@));
    }
    extended_result
}

/// The message for metadata shorter than its fixed part.
pub open spec fn short_meta_message() -> Seq<char> {
    "Meta should be at least 5 bytes due to prefix and search byte length!"@
}

/// The message for metadata shorter than its search length says.
pub open spec fn truncated_meta_message() -> Seq<char> {
    "Metadata is not at least length given in search length!"@
}

/// The search length stored in metadata (bytes 3 and 4, little endian).
pub open spec fn stored_search_len(meta: Seq<u8>) -> int {
    meta[3] as int + 256 * meta[4] as int
}

/// Splits metadata into its prefix, search bytes and other bytes.
pub fn read_meta(meta: &[u8]) -> (r: Result<KvMetadata, KvError>)
    ensures
        r is Ok <==> meta@.len() >= 5 && meta@.len() >= 5 + stored_search_len(meta@),
        r matches Ok(m) ==> metadata_layout(m.prefix@, m.search_bytes@, m.meta_bytes@) == meta@,
        r matches Ok(m) ==> m.prefix@ == meta@.take(3) && m.search_bytes@ == meta@.subrange(
            5,
            5 + stored_search_len(meta@),
        ) && m.meta_bytes@ == meta@.skip(5 + stored_search_len(meta@)),
        r matches Err(e) ==> (e matches KvError::InvalidMetadata(c) && (*c.0)@ == (if meta@.len()
            < 5 {
            short_meta_message()
        } else {
            truncated_meta_message()
        })),
{
    if meta.len() < 5 {
        return Err(
            KvError::InvalidMetadata(
                str_context("Meta should be at least 5 bytes due to prefix and search byte length!"),
            ),
        );
    }
    let prefix: [u8; 3] = [meta[0], meta[1], meta[2]];
    let search_length_u16 = u16_from_le(meta[3], meta[4]);
    let search_length = search_length_u16 as usize;
    if meta.len() < 5 + search_length {
        return Err(
            KvError::InvalidMetadata(
                str_context("Metadata is not at least length given in search length!"),
            ),
        );
    }
    let search_bytes = copy_range(meta, 5, 5 + search_length);
    let meta_bytes = copy_range(meta, 5 + search_length, meta.len());
    proof {
        assert(prefix@ =~= meta@.take(3));
        assert(meta_bytes@ =~= meta@.skip(5 + stored_search_len(meta@)));
        assert(search_length_u16 == search_bytes@.len() as u16);
        assert(le_bytes_u16(search_bytes@.len() as u16) == meta@.subrange(3, 5));
        assert(metadata_layout(prefix@, search_bytes@, meta_bytes@) =~= meta@);
    }
    Ok(KvMetadata { prefix, search_bytes, meta_bytes })
}

} // verus!
