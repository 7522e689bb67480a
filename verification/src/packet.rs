//! The packets that the block library reads and writes: the bytes of a
//! state id, and the answer of a client to the request for encryption.

use vstd::prelude::*;
use vstd::slice::slice_subrange;
use crate::action::CBlockUpdate;
use crate::varint::{
    decode, encode, signed_of, spec_decode, spec_encode, to_signed, to_unsigned, unsigned_of,
    ReadingError,
};

verus! {

/// The answer of a client to the request for encryption: two fields of
/// bytes, each behind its own length.
#[derive(Debug)]
pub struct SEncryptionResponse {
    pub shared_secret_length: i32,
    pub shared_secret: Vec<u8>,
    pub verify_token_length: i32,
    pub verify_token: Vec<u8>,
}

/// What an `SEncryptionResponse` holds.
pub struct SEncryptionResponseView {
    pub shared_secret_length: i32,
    pub shared_secret: Seq<u8>,
    pub verify_token_length: i32,
    pub verify_token: Seq<u8>,
}

impl View for SEncryptionResponse {
    type V = SEncryptionResponseView;

    open spec fn view(&self) -> SEncryptionResponseView {
        SEncryptionResponseView {
            shared_secret_length: self.shared_secret_length,
            shared_secret: self.shared_secret@,
            verify_token_length: self.verify_token_length,
            verify_token: self.verify_token@,
        }
    }
}

/// The `len` bytes from place `at` on; there are not that many where `len`
/// is negative or reaches beyond the end.
pub open spec fn spec_take(bytes: Seq<u8>, at: int, len: int) -> Result<Seq<u8>, ReadingError> {
    if len < 0 || at + len > bytes.len() {
        Err(ReadingError::Incomplete)
    } else {
        Ok(bytes.subrange(at, at + len))
    }
}

/// A field of bytes behind its length, from place `at` on: the length, the
/// bytes, and the place behind them.
pub open spec fn spec_field(bytes: Seq<u8>, at: int) -> Result<(i32, Seq<u8>, int), ReadingError> {
    match spec_decode(bytes.skip(at)) {
        Err(e) => Err(e),
        Ok((length, n)) => match spec_take(bytes, at + n, signed_of(length) as int) {
            Err(e) => Err(e),
            Ok(field) => Ok((signed_of(length), field, at + n + signed_of(length))),
        },
    }
}

/// The answer that bytes hold: the shared secret behind its length, then
/// the verify token behind its own length. Bytes behind that are left.
pub open spec fn spec_read(bytes: Seq<u8>) -> Result<SEncryptionResponseView, ReadingError> {
    match spec_field(bytes, 0) {
        Err(e) => Err(e),
        Ok((shared_secret_length, shared_secret, at)) => match spec_field(bytes, at) {
            Err(e) => Err(e),
            Ok((verify_token_length, verify_token, _)) => Ok(
                SEncryptionResponseView {
                    shared_secret_length,
                    shared_secret,
                    verify_token_length,
                    verify_token,
                },
            ),
        },
    }
}

/// A field of bytes behind its length.
fn read_field(bytes: &[u8], at: usize) -> (r: Result<(i32, Vec<u8>, usize), ReadingError>)
    requires
        at <= bytes@.len(),
    ensures
        match r {
            Ok((length, field, next)) => spec_field(bytes@, at as int) == Ok::<
                (i32, Seq<u8>, int),
                ReadingError,
            >((length, field@, next as int)) && next <= bytes@.len(),
            Err(e) => spec_field(bytes@, at as int) == Err::<(i32, Seq<u8>, int), ReadingError>(e),
        },
{
    let rest = slice_subrange(bytes, at, bytes.len());
    assert(rest@ =~= bytes@.skip(at as int));
    let (raw, n) = match decode(rest) {
        Ok(found) => found,
        Err(e) => {
            return Err(e);
        },
    };
    let length = to_signed(raw);
    let start = at + n;
    if length < 0 || length as usize > bytes.len() - start {
        return Err(ReadingError::Incomplete);
    }
    let end = start + length as usize;
    let part = slice_subrange(bytes, start, end);
    let mut field: Vec<u8> = Vec::new();
    let mut i: usize = 0;
    while i < part.len()
        invariant
            i <= part.len(),
            field@ == part@.take(i as int),
        decreases part.len() - i,
    {
        field.push(part[i]);
        proof {
            assert(part@.take(i + 1) =~= part@.take(i as int).push(part@[i as int]));
        }
        i += 1;
    }
    proof {
        assert(part@.take(i as int) =~= part@);
    }
    Ok((length, field, end))
}

impl SEncryptionResponse {
    /// Reads the answer from bytes.
    pub fn read(bytes: &[u8]) -> (r: Result<SEncryptionResponse, ReadingError>)
        ensures
            match r {
                Ok(packet) => spec_read(bytes@) == Ok::<SEncryptionResponseView, ReadingError>(
                    packet@,
                ),
                Err(e) => spec_read(bytes@) == Err::<SEncryptionResponseView, ReadingError>(e),
            },
    {
        let (shared_secret_length, shared_secret, at) = match read_field(bytes, 0) {
            Ok(found) => found,
            Err(e) => {
                return Err(e);
            },
        };
        let (verify_token_length, verify_token, _) = match read_field(bytes, at) {
            Ok(found) => found,
            Err(e) => {
                return Err(e);
            },
        };
        Ok(
            SEncryptionResponse {
                shared_secret_length,
                shared_secret,
                verify_token_length,
                verify_token,
            },
        )
    }

    /// The bytes of the answer.
    pub fn write(&self) -> (r: Vec<u8>)
        ensures
            r@ == spec_encode(unsigned_of(self.shared_secret_length) as nat) + self.shared_secret@
                + spec_encode(unsigned_of(self.verify_token_length) as nat) + self.verify_token@,
    {
        let mut r = encode(to_unsigned(self.shared_secret_length));
        let mut i: usize = 0;
        let ghost head = r@;
        while i < self.shared_secret.len()
            invariant
                i <= self.shared_secret.len(),
                r@ == head + self.shared_secret@.take(i as int),
            decreases self.shared_secret.len() - i,
        {
            r.push(self.shared_secret[i]);
            proof {
                assert(self.shared_secret@.take(i + 1) =~= self.shared_secret@.take(i as int).push(
                    self.shared_secret@[i as int],
                ));
                assert(head + self.shared_secret@.take(i as int).push(
                    self.shared_secret@[i as int],
                ) =~= (head + self.shared_secret@.take(i as int)).push(
                    self.shared_secret@[i as int],
                ));
            }
            i += 1;
        }
        proof {
            assert(self.shared_secret@.take(i as int) =~= self.shared_secret@);
        }
        let mut length = encode(to_unsigned(self.verify_token_length));
        r.append(&mut length);
        let ghost middle = r@;
        let mut j: usize = 0;
        while j < self.verify_token.len()
            invariant
                j <= self.verify_token.len(),
                r@ == middle + self.verify_token@.take(j as int),
            decreases self.verify_token.len() - j,
        {
            r.push(self.verify_token[j]);
            proof {
                assert(self.verify_token@.take(j + 1) =~= self.verify_token@.take(j as int).push(
                    self.verify_token@[j as int],
                ));
                assert(middle + self.verify_token@.take(j as int).push(
                    self.verify_token@[j as int],
                ) =~= (middle + self.verify_token@.take(j as int)).push(
                    self.verify_token@[j as int],
                ));
            }
            j += 1;
        }
        proof {
            assert(self.verify_token@.take(j as int) =~= self.verify_token@);
        }
        r
    }
}

impl CBlockUpdate {
    /// The bytes of the state id.
    pub fn block_id_bytes(&self) -> (r: Vec<u8>)
        ensures
            r@ == spec_encode(unsigned_of(self.block_id) as nat),
    {
        encode(to_unsigned(self.block_id))
    }
}

/// A field of bytes behind its length, with whatever bytes before and
/// behind it, is read as that field.
pub proof fn law_field_read_back(head: Seq<u8>, field: Seq<u8>, rest: Seq<u8>)
    requires
        field.len() <= i32::MAX,
    ensures
        spec_field(head + spec_encode(field.len()) + field + rest, head.len() as int) == Ok::<
            (i32, Seq<u8>, int),
            ReadingError,
        >(
            (
                field.len() as i32,
                field,
                (head.len() + spec_encode(field.len()).len() + field.len()) as int,
            ),
        ),
{
    let length = spec_encode(field.len());
    let bytes = head + length + field + rest;
    let at = head.len() as int;
    assert(bytes.skip(at) =~= length + (field + rest));
    crate::varint::law_decode_encode(field.len() as u32, field + rest);
    assert(signed_of(field.len() as u32) == field.len());
    assert(bytes.subrange(at + length.len(), at + length.len() + field.len()) =~= field);
}

/// The bytes of an answer whose fields have the lengths that it names are
/// read as that answer: the verify token by its own length, whatever the
/// length of the shared secret.
pub proof fn law_answer_read_back(packet: SEncryptionResponseView)
    requires
        packet.shared_secret.len() == packet.shared_secret_length,
        packet.verify_token.len() == packet.verify_token_length,
    ensures
        spec_read(
            spec_encode(unsigned_of(packet.shared_secret_length) as nat) + packet.shared_secret
                + spec_encode(unsigned_of(packet.verify_token_length) as nat)
                + packet.verify_token,
        ) == Ok::<SEncryptionResponseView, ReadingError>(packet),
{
    let l1 = spec_encode(packet.shared_secret.len());
    let l2 = spec_encode(packet.verify_token.len());
    let bytes = l1 + packet.shared_secret + l2 + packet.verify_token;
    let empty = Seq::<u8>::empty();
    law_field_read_back(empty, packet.shared_secret, l2 + packet.verify_token);
    assert(empty + l1 + packet.shared_secret + (l2 + packet.verify_token) =~= bytes);
    law_field_read_back(l1 + packet.shared_secret, packet.verify_token, empty);
    assert(l1 + packet.shared_secret + l2 + packet.verify_token + empty =~= bytes);
}

} // verus!
