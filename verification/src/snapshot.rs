use crate::archive::collection_name;
use crate::archive::find_member_named;
use crate::archive::member_names;
use crate::archive::Archive;
use crate::archive::ArchiveVariant;
use crate::archive::MemberView;
use crate::model::DeckError;
use crate::seek::first_index;
use vstd::prelude::*;
use vstd::slice::slice_to_vec;

verus! {

/// `std::io::Error`, what the decompressor reports of a failure.
#[verifier::external_type_specification]
#[verifier::external_body]
pub struct ExIoError(std::io::Error);

/// What decompressing the zstd frames `data` gives; nothing where `data`
/// is not in the zstd frame format.
pub uninterp spec fn zstd_decoded(data: Seq<u8>) -> Option<Seq<u8>>;

/// Calls `zstd::stream::decode_all` on the bytes. The outcome is a function
/// of the bytes alone.
#[verifier::external_body]
fn zstd_decode(data: &[u8]) -> (r: Result<Vec<u8>, std::io::Error>)
    ensures
        match r {
            Ok(out) => zstd_decoded(data@) == Some(out@),
            Err(_) => zstd_decoded(data@) is None,
        },
{
    zstd::stream::decode_all(data)
}

/// The bytes of the collection store, given the stored bytes `data` of the
/// collection member and what decompressing them gives: the decompressed
/// bytes for the compressed generation, which fails with `Decompression`
/// where there are none; the stored bytes for the other two.
pub open spec fn snapshot_from(v: ArchiveVariant, data: Seq<u8>, decoded: Option<Seq<u8>>) -> Result<
    Seq<u8>,
    DeckError,
> {
    if v == ArchiveVariant::CompressedModern {
        match decoded {
            Some(out) => Ok(out),
            None => Err(DeckError::Decompression),
        }
    } else {
        Ok(data)
    }
}

/// The bytes of the collection store of an archive of generation `v`. It
/// fails with `ArchiveFormat` where the collection member is missing or
/// its payload could not be read.
pub open spec fn snapshot_of(members: Seq<MemberView>, v: ArchiveVariant) -> Result<
    Seq<u8>,
    DeckError,
> {
    match first_index(member_names(members), collection_name(v)) {
        Some(i) => match members[i].data {
            Some(data) => snapshot_from(v, data, zstd_decoded(data)),
            None => Err(DeckError::ArchiveFormat),
        },
        None => Err(DeckError::ArchiveFormat),
    }
}

/// The view of bytes or an error.
pub open spec fn bytes_result(r: Result<Vec<u8>, DeckError>) -> Result<Seq<u8>, DeckError> {
    match r {
        Ok(v) => Ok(v@),
        Err(e) => Err(e),
    }
}

/// Extracts the bytes of the collection store from an archive of
/// generation `variant`, decompressing them where that generation stores
/// them compressed.
pub fn decode_snapshot(archive: &Archive, variant: ArchiveVariant) -> (r: Result<
    Vec<u8>,
    DeckError,
>)
    ensures
        bytes_result(r) == snapshot_of(archive@.members, variant),
{
    let i = match find_member_named(&archive.members, variant.collection()) {
        Some(i) => i,
        None => {
            return Err(DeckError::ArchiveFormat);
        },
    };
    match &archive.members[i].data {
        Some(data) => {
            if variant == ArchiveVariant::CompressedModern {
                match zstd_decode(data.as_slice()) {
                    Ok(out) => Ok(out),
                    Err(_) => Err(DeckError::Decompression),
                }
            } else {
                Ok(slice_to_vec(data.as_slice()))
            }
        },
        None => Err(DeckError::ArchiveFormat),
    }
}

/// A compressed-modern archive always takes the decompression path: its
/// store is what decompressing the compressed collection gives, and
/// nothing else. A legacy archive never does: its store is the legacy
/// collection as it is stored.
pub proof fn lemma_decode_path(members: Seq<MemberView>, v: ArchiveVariant, i: int, data: Seq<u8>)
    requires
        first_index(member_names(members), collection_name(v)) == Some(i),
        members[i].data == Some(data),
    ensures
        v == ArchiveVariant::CompressedModern ==> snapshot_of(members, v) == match zstd_decoded(
            data,
        ) {
            Some(out) => Ok::<Seq<u8>, DeckError>(out),
            None => Err::<Seq<u8>, DeckError>(DeckError::Decompression),
        },
        v != ArchiveVariant::CompressedModern ==> snapshot_of(members, v) == Ok::<
            Seq<u8>,
            DeckError,
        >(data),
{
}

} // verus!
