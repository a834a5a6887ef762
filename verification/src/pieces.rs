//! Pieces: the length of one, and the SHA-1 digests of all.

use crate::crypto::digest::Sha1;
use crate::error::Field;
use crate::error::ParseTorrentError;
use crate::hexadecimal::HexBytes;
use vstd::prelude::*;

verus! {

/// The smallest piece length that is accepted when nothing else is asked
/// for: 16 bytes.
pub const MIN_PIECE_LENGTH: u64 = 16;

/// The smallest piece length that BEP 52 allows: 16 KiB.
pub const MIN_PIECE_LENGTH_KIB: u64 = 16384;

/// The number of bytes of one SHA-1 digest.
pub const SHA1_LEN: usize = 20;

/// Whether `n` is a power of two.
pub open spec fn spec_is_power_of_two(n: u64) -> bool {
    n != 0 && n & ((n - 1) as u64) == 0
}

/// Whether `n` is what `PieceLength::new` accepts with the bound `minimum`:
/// a power of two that is not below the bound, and that a Bencoded integer
/// of 64 bits can hold.
pub open spec fn spec_valid_piece_length(n: u64, minimum: u64) -> bool {
    n >= minimum && spec_is_power_of_two(n) && n <= i64::MAX
}

/// The length of a piece in bytes: a power of two.
#[derive(Debug, Clone, Copy, PartialEq, Eq, PartialOrd, Ord)]
pub struct PieceLength {
    value: u64,
}

impl View for PieceLength {
    type V = u64;

    closed spec fn view(&self) -> u64 {
        self.value
    }
}

impl PieceLength {
    #[verifier::type_invariant]
    spec fn wf(&self) -> bool {
        spec_is_power_of_two(self.value) && self.value <= i64::MAX
    }

    /// Whether `n` is a power of two.
    pub fn is_power_of_two(n: u64) -> (r: bool)
        ensures
            r == spec_is_power_of_two(n),
    {
        n != 0 && (n & (n - 1)) == 0
    }

    /// The piece length `value`, which must be a power of two and at least
    /// `MIN_PIECE_LENGTH`.
    pub fn new(value: u64) -> (r: Result<Self, ParseTorrentError>)
        ensures
            spec_valid_piece_length(value, MIN_PIECE_LENGTH) ==> (r matches Ok(length) && length@
                == value),
            !spec_valid_piece_length(value, MIN_PIECE_LENGTH) ==> (r matches Err(e) && e
                == ParseTorrentError::PieceLength(value)),
    {
        Self::with_minimum(value, MIN_PIECE_LENGTH)
    }

    /// The piece length `value`, which must be a power of two and at least
    /// `minimum`.
    pub fn with_minimum(value: u64, minimum: u64) -> (r: Result<Self, ParseTorrentError>)
        ensures
            spec_valid_piece_length(value, minimum) ==> (r matches Ok(length) && length@ == value),
            !spec_valid_piece_length(value, minimum) ==> (r matches Err(e) && e
                == ParseTorrentError::PieceLength(value)),
    {
        if value >= minimum && Self::is_power_of_two(value) && value <= 0x7fff_ffff_ffff_ffff {
            Ok(PieceLength { value })
        } else {
            Err(ParseTorrentError::PieceLength(value))
        }
    }

    /// What the integer of the field `piece length` is as a piece length:
    /// it must be above zero, a power of two, and at least
    /// `MIN_PIECE_LENGTH`.
    pub fn deserialize(n: i64) -> (r: Result<Self, ParseTorrentError>)
        ensures
            match spec_piece_length(n) {
                Ok(value) => r matches Ok(length) && length@ == value,
                Err(e) => r matches Err(f) && f == e,
            },
    {
        if n <= 0 {
            Err(ParseTorrentError::InvalidValue { field: Field::PieceLength })
        } else {
            Self::new(n as u64)
        }
    }

    /// The length in bytes, which is a power of two.
    pub fn get(&self) -> (r: u64)
        ensures
            r == self@,
            spec_is_power_of_two(r),
            r <= i64::MAX,
    {
        proof {
            use_type_invariant(self);
        }
        self.value
    }
}

/// What the integer of the field `piece length` is as a piece length.
pub open spec fn spec_piece_length(n: i64) -> Result<u64, ParseTorrentError> {
    if n <= 0 {
        Err(ParseTorrentError::InvalidValue { field: Field::PieceLength })
    } else if spec_valid_piece_length(n as u64, MIN_PIECE_LENGTH) {
        Ok(n as u64)
    } else {
        Err(ParseTorrentError::PieceLength(n as u64))
    }
}

/// What bytes are as the digests of pieces: their number must be a multiple
/// of 20.
pub open spec fn spec_pieces(bytes: Seq<u8>) -> Result<Seq<u8>, ParseTorrentError> {
    if bytes.len() % 20 == 0 {
        Ok(bytes)
    } else {
        Err(ParseTorrentError::InvalidLength { field: Field::Pieces, actual: bytes.len() as usize })
    }
}

/// The SHA-1 digests of the pieces, one behind the other.
#[derive(Debug, PartialEq, Eq)]
pub struct Pieces {
    bytes: HexBytes,
}

impl View for Pieces {
    type V = Seq<u8>;

    closed spec fn view(&self) -> Seq<u8> {
        self.bytes@
    }
}

impl Pieces {
    #[verifier::type_invariant]
    spec fn wf(&self) -> bool {
        self.bytes@.len() % 20 == 0
    }

    /// Take bytes as the digests of pieces: their number must be a multiple
    /// of 20.
    pub fn deserialize(bytes: &[u8]) -> (r: Result<Self, ParseTorrentError>)
        ensures
            match spec_pieces(bytes@) {
                Ok(pieces) => r matches Ok(p) && p@ == pieces,
                Err(e) => r matches Err(f) && f == e,
            },
    {
        let len: usize = bytes.len();
        if len % 20 == 0 {
            Ok(Pieces { bytes: HexBytes::new(vstd::slice::slice_to_vec(bytes)) })
        } else {
            Err(ParseTorrentError::InvalidLength { field: Field::Pieces, actual: len })
        }
    }

    /// The bytes of all digests.
    pub fn as_slice(&self) -> (r: &[u8])
        ensures
            r@ == self@,
            r@.len() % 20 == 0,
    {
        proof {
            use_type_invariant(self);
        }
        self.bytes.as_slice()
    }

    /// The number of pieces.
    pub fn len(&self) -> (r: usize)
        ensures
            r == self@.len() / 20,
    {
        self.bytes.len() / 20
    }

    /// Whether there is no piece.
    pub fn is_empty(&self) -> (r: bool)
        ensures
            r == (self@.len() == 0),
    {
        self.bytes.is_empty()
    }

    /// The bytes of the digest of the piece `index`.
    pub fn piece(&self, index: usize) -> (r: &[u8])
        requires
            index < self@.len() / 20,
        ensures
            r@ == self@.subrange(20 * index, 20 * index + 20),
    {
        proof {
            use_type_invariant(self);
        }
        let all = self.bytes.as_slice();
        let count: usize = all.len() / 20;
        assert(all@.len() == 20 * count);
        assert(index + 1 <= count);
        let start: usize = 20 * index;
        vstd::slice::slice_subrange(all, start, start + 20)
    }

    /// The bytes of each digest, in the order of the pieces.
    pub fn iter_pieces_bytes(&self) -> (r: Vec<&[u8]>)
        ensures
            r@.len() == self@.len() / 20,
            forall|i: int|
                0 <= i < r@.len() ==> (#[trigger] r@[i])@ == self@.subrange(20 * i, 20 * i + 20),
    {
        let count: usize = self.len();
        let mut out: Vec<&[u8]> = Vec::new();
        let mut i: usize = 0;
        while i < count
            invariant
                i <= count,
                count == self@.len() / 20,
                out@.len() == i,
                forall|k: int|
                    0 <= k < i ==> (#[trigger] out@[k])@ == self@.subrange(20 * k, 20 * k + 20),
            decreases count - i,
        {
            out.push(self.piece(i));
            i += 1;
        }
        out
    }

    /// The digest of each piece, in the order of the pieces.
    pub fn iter_sha1(&self) -> (r: Vec<Sha1>)
        ensures
            r@.len() == self@.len() / 20,
            forall|i: int|
                0 <= i < r@.len() ==> (#[trigger] r@[i])@ == self@.subrange(20 * i, 20 * i + 20),
    {
        let count: usize = self.len();
        let mut out: Vec<Sha1> = Vec::new();
        let mut i: usize = 0;
        while i < count
            invariant
                i <= count,
                count == self@.len() / 20,
                out@.len() == i,
                forall|k: int|
                    0 <= k < i ==> (#[trigger] out@[k])@ == self@.subrange(20 * k, 20 * k + 20),
            decreases count - i,
        {
            match Sha1::from_bytes(self.piece(i)) {
                Ok(digest) => {
                    out.push(digest);
                },
                Err(_) => {
                    assert(false);
                },
            }
            i += 1;
        }
        out
    }
}

} // verus!
