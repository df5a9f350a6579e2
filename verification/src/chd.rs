//! Reading the SHA-1 of a CHD (MAME's compressed hunks of data) file from its header.
use vstd::prelude::*;

use crate::assethash::AssetHash;

verus! {

/// Why a CHD header could not be read.
#[derive(Debug, Clone, Copy, PartialEq, Eq)]
pub enum ChdError {
    InvalidChdMagicNumber,
    UnknownChdVersion,
}

/// The most bytes of a header that reading the SHA-1 needs (that of version 5).
pub const MAX_CHD_HEADER_SIZE: usize = 104;

/// `MComprHD`, the tag that starts every CHD file.
pub open spec fn chd_tag() -> Seq<u8> {
    seq![0x4d, 0x43, 0x6f, 0x6d, 0x70, 0x72, 0x48, 0x44]
}

/// The header version: big-endian, at bytes 12 to 15.
pub open spec fn chd_version(h: Seq<u8>) -> int {
    h[12] as int * 16777216 + h[13] as int * 65536 + h[14] as int * 256 + h[15] as int
}

/// Where the SHA-1 lies in a header of the given version, and the size of that header.
pub open spec fn sha1_offset(version: int) -> Option<int> {
    if version == 3 {
        Some(80)
    } else if version == 4 {
        Some(48)
    } else if version == 5 {
        Some(84)
    } else {
        None
    }
}

/// The header holds all the bytes that reading it looks at: the tag and version, and for a
/// known version the SHA-1.
pub open spec fn chd_header_complete(h: Seq<u8>) -> bool {
    h.len() >= 16 && (h.take(8) == chd_tag() ==> match sha1_offset(chd_version(h)) {
        Some(off) => h.len() >= off + 20,
        None => true,
    })
}

/// The SHA-1 that a header records, or why it records none.
pub open spec fn chd_sha1(h: Seq<u8>) -> Result<Seq<u8>, ChdError> {
    if h.take(8) != chd_tag() {
        Err(ChdError::InvalidChdMagicNumber)
    } else {
        match sha1_offset(chd_version(h)) {
            Some(off) => Ok(h.subrange(off, off + 20)),
            None => Err(ChdError::UnknownChdVersion),
        }
    }
}

/// The checksums that a CHD file's header gives: the SHA-1 of the uncompressed data (the CRC is
/// not known). `header` holds the start of the file, up to `MAX_CHD_HEADER_SIZE` bytes.
pub fn chd_asset_hash(header: &[u8]) -> (r: Result<AssetHash, ChdError>)
    requires
        chd_header_complete(header@),
    ensures
        match chd_sha1(header@) {
            Ok(s) => r matches Ok(h) && h.crc is None && crate::assethash::opt_sha1(h.sha1) == Some(s),
            Err(e) => r == Err::<AssetHash, ChdError>(e),
        },
{
    let tag: [u8; 8] = [0x4d, 0x43, 0x6f, 0x6d, 0x70, 0x72, 0x48, 0x44];
    let mut i: usize = 0;
    while i < 8
        invariant
            i <= 8,
            header@.len() >= 16,
            tag@ == chd_tag(),
            forall|k: int| 0 <= k < i ==> header@[k] == chd_tag()[k],
        decreases 8 - i,
    {
        if header[i] != tag[i] {
            assert(header@.take(8)[i as int] != chd_tag()[i as int]);
            return Err(ChdError::InvalidChdMagicNumber);
        }
        i = i + 1;
    }
    assert(header@.take(8) =~= chd_tag());
    let version = header[12] as u32 * 16777216 + header[13] as u32 * 65536 + header[14] as u32 * 256
        + header[15] as u32;
    let off: usize = if version == 3 {
        80
    } else if version == 4 {
        48
    } else if version == 5 {
        84
    } else {
        return Err(ChdError::UnknownChdVersion);
    };
    let mut sha1 = [0u8; 20];
    let mut k: usize = 0;
    while k < 20
        invariant
            k <= 20,
            off <= 84,
            off + 20 <= header@.len(),
            sha1@.len() == 20,
            forall|j: int| 0 <= j < k ==> sha1@[j] == header@[off + j],
        decreases 20 - k,
    {
        sha1.set(k, header[off + k]);
        k = k + 1;
    }
    assert(sha1@ =~= header@.subrange(off as int, off + 20));
    Ok(AssetHash { crc: None, sha1: Some(sha1) })
}

/// Whether `header` holds every byte that reading it looks at (see
/// [`chd_header_complete`]), so that [`chd_asset_hash`] may read it.
pub fn chd_header_is_complete(header: &[u8]) -> (r: bool)
    ensures
        r == chd_header_complete(header@),
{
    if header.len() < 16 {
        return false;
    }
    let tag: [u8; 8] = [0x4d, 0x43, 0x6f, 0x6d, 0x70, 0x72, 0x48, 0x44];
    let mut i: usize = 0;
    while i < 8
        invariant
            i <= 8,
            header@.len() >= 16,
            tag@ == chd_tag(),
            forall|k: int| 0 <= k < i ==> header@[k] == chd_tag()[k],
        decreases 8 - i,
    {
        if header[i] != tag[i] {
            assert(header@.take(8)[i as int] != chd_tag()[i as int]);
            return true;
        }
        i = i + 1;
    }
    assert(header@.take(8) =~= chd_tag());
    let version = header[12] as u32 * 16777216 + header[13] as u32 * 65536 + header[14] as u32 * 256
        + header[15] as u32;
    if version == 3 {
        header.len() >= 100
    } else if version == 4 {
        header.len() >= 68
    } else if version == 5 {
        header.len() >= 104
    } else {
        true
    }
}

} // verus!
