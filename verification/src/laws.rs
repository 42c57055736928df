//! The rejection laws of the wire format: an unknown discriminant and an
//! undersized buffer are always refused, for every input. The round-trip
//! and determinism laws for every type stand in [`crate::codec`], the hex
//! round-trip law in [`crate::hexstr`].

use vstd::prelude::*;

use crate::authority::BlockSigningAuthority;
use crate::authority::BlockSigningAuthorityView;
use crate::codec::CodecError;
use crate::codec::Packer;
use crate::keys::ECCPublicKey;
use crate::keys::PublicKey;
use crate::keys::PublicKeyView;
use crate::keys::Signature;
use crate::keys::UserPresence;
use crate::name::Name;
use crate::times::BlockTimeStampType;
use crate::times::TimePoint;
use crate::times::TimePointSec;
use crate::values::Checksum160;
use crate::values::Checksum256;
use crate::values::Checksum512;
use crate::values::Float128;
use crate::values::Uint256;

verus! {

/// Tag rejection: a public key whose leading discriminant byte is outside
/// the defined set {0, 1, 2} is rejected, never skipped or patched over.
pub proof fn lemma_public_key_tag_rejection(data: Seq<u8>)
    requires
        data.len() >= 34,
        data[0] > 2,
    ensures
        PublicKey::spec_decode(data) == Err::<(PublicKeyView, int), CodecError>(
            CodecError::BadVariant,
        ),
{
}

/// Tag rejection: a block signing authority whose leading discriminant
/// byte is not 0, the only defined variant, is rejected.
pub proof fn lemma_block_signing_authority_tag_rejection(data: Seq<u8>)
    requires
        data.len() >= 1,
        data[0] != 0,
    ensures
        BlockSigningAuthority::spec_decode(data) == Err::<
            (BlockSigningAuthorityView, int),
            CodecError,
        >(CodecError::BadVariant),
{
}

/// Tag rejection: a user-presence byte outside {0, 1, 2} is rejected.
pub proof fn lemma_user_presence_tag_rejection(data: Seq<u8>)
    requires
        data.len() >= 1,
        data[0] > 2,
    ensures
        UserPresence::spec_decode(data) == Err::<(UserPresence, int), CodecError>(
            CodecError::BadVariant,
        ),
{
}

/// Tag rejection: a signature whose type byte is not 0, the only valid
/// signature type, is rejected.
pub proof fn lemma_signature_type_rejection(data: Seq<u8>)
    requires
        data.len() >= 66,
        data[0] != 0,
    ensures
        Signature::spec_decode(data) == Err::<(Seq<u8>, int), CodecError>(
            CodecError::BadSignatureType,
        ),
{
}

/// Length guard: every fixed-size type rejects a buffer shorter than its
/// declared wire size with a buffer overflow, for every such buffer.
pub proof fn lemma_length_guard(data: Seq<u8>)
    ensures
        data.len() < 16 ==> Float128::spec_decode(data) == Err::<(Seq<u8>, int), CodecError>(
            CodecError::BufferOverflow,
        ),
        data.len() < 20 ==> Checksum160::spec_decode(data) == Err::<(Seq<u8>, int), CodecError>(
            CodecError::BufferOverflow,
        ),
        data.len() < 32 ==> Checksum256::spec_decode(data) == Err::<(Seq<u8>, int), CodecError>(
            CodecError::BufferOverflow,
        ),
        data.len() < 64 ==> Checksum512::spec_decode(data) == Err::<(Seq<u8>, int), CodecError>(
            CodecError::BufferOverflow,
        ),
        data.len() < 33 ==> ECCPublicKey::spec_decode(data) == Err::<(Seq<u8>, int), CodecError>(
            CodecError::BufferOverflow,
        ),
        data.len() < 34 ==> PublicKey::spec_decode(data) == Err::<(PublicKeyView, int), CodecError>(
            CodecError::BufferOverflow,
        ),
        data.len() < 66 ==> Signature::spec_decode(data) == Err::<(Seq<u8>, int), CodecError>(
            CodecError::BufferOverflow,
        ),
        data.len() < 32 ==> Uint256::spec_decode(data) == Err::<((u128, u128), int), CodecError>(
            CodecError::BufferOverflow,
        ),
        data.len() < 8 ==> TimePoint::spec_decode(data) == Err::<(u64, int), CodecError>(
            CodecError::BufferOverflow,
        ),
        data.len() < 4 ==> TimePointSec::spec_decode(data) == Err::<(u32, int), CodecError>(
            CodecError::BufferOverflow,
        ),
        data.len() < 4 ==> BlockTimeStampType::spec_decode(data) == Err::<(u32, int), CodecError>(
            CodecError::BufferOverflow,
        ),
        data.len() < 8 ==> Name::spec_decode(data) == Err::<(u64, int), CodecError>(
            CodecError::BufferOverflow,
        ),
        data.len() < 1 ==> UserPresence::spec_decode(data) == Err::<(UserPresence, int), CodecError>(
            CodecError::BufferOverflow,
        ),
{
}

} // verus!
