//! What a backend answers to a preflight call: the accounts it will need when
//! it is called for real.

use crate::codec::{
    bool_byte, encode_counted, fixed_width, injective, lemma_encode_counted_injective,
    lemma_encode_counted_layout,
};
use crate::error::TokenError;
use crate::identity::{lemma_identity_by_bytes, Identity};
use vstd::bytes::*;
use vstd::prelude::*;
use vstd::slice::slice_subrange;

verus! {

/// One account that a backend needs, with the rights it needs on it.
#[derive(Clone, Copy, Debug, PartialEq, Eq)]
pub struct IAccountMeta {
    pub pubkey: Identity,
    pub signer: bool,
    pub writable: bool,
}

/// The accounts that a backend declared, in the order in which it wants them.
/// Its view is the sequence of its descriptors.
#[derive(Debug, PartialEq, Eq)]
pub struct PreflightPayload {
    pub accounts: Vec<IAccountMeta>,
}

impl View for PreflightPayload {
    type V = Seq<IAccountMeta>;

    open spec fn view(&self) -> Seq<IAccountMeta> {
        self.accounts@
    }
}

impl Clone for PreflightPayload {
    fn clone(&self) -> (r: PreflightPayload)
        ensures
            r@ == self@,
    {
        let mut accounts: Vec<IAccountMeta> = Vec::new();
        let mut i: usize = 0;
        while i < self.accounts.len()
            invariant
                i <= self.accounts.len(),
                accounts@ == self.accounts@.subrange(0, i as int),
            decreases self.accounts.len() - i,
        {
            accounts.push(self.accounts[i]);
            assert(accounts@ =~= self.accounts@.subrange(0, i + 1));
            i = i + 1;
        }
        assert(self.accounts@.subrange(0, self.accounts.len() as int) =~= self.accounts@);
        PreflightPayload { accounts }
    }
}

/// One descriptor on the wire: the address, then one byte for each flag.
pub open spec fn encode_descriptor(m: IAccountMeta) -> Seq<u8> {
    m.pubkey@.push(bool_byte(m.signer)).push(bool_byte(m.writable))
}

/// A response on the wire: the number of descriptors in four little-endian
/// bytes, then the descriptors.
pub open spec fn encode_payload(accounts: Seq<IAccountMeta>) -> Seq<u8> {
    encode_counted(accounts, |m: IAccountMeta| encode_descriptor(m))
}

/// `data` is the encoding of some list of descriptors.
pub open spec fn is_payload(data: Seq<u8>) -> bool {
    exists|accounts: Seq<IAccountMeta>|
        accounts.len() <= u32::MAX && #[trigger] encode_payload(accounts) == data
}

/// The descriptors that a response holds, where it is the encoding of a list
/// of descriptors.
pub open spec fn decode_payload(data: Seq<u8>) -> Option<Seq<IAccountMeta>> {
    if is_payload(data) {
        Some(
            choose|accounts: Seq<IAccountMeta>|
                accounts.len() <= u32::MAX && #[trigger] encode_payload(accounts) == data,
        )
    } else {
        None
    }
}

/// Descriptors take thirty-four bytes each, and different descriptors differ
/// on the wire.
pub proof fn lemma_descriptor_encoding()
    ensures
        fixed_width(|m: IAccountMeta| encode_descriptor(m), 34),
        injective(|m: IAccountMeta| encode_descriptor(m)),
{
    let enc = |m: IAccountMeta| encode_descriptor(m);
    assert forall|m: IAccountMeta| #[trigger] enc(m).len() == 34 by {
        lemma_identity_by_bytes(m.pubkey, m.pubkey);
    }
    assert forall|x: IAccountMeta, y: IAccountMeta|
        #![trigger enc(x), enc(y)]
        enc(x) == enc(y) implies x == y by {
        lemma_identity_by_bytes(x.pubkey, y.pubkey);
        assert(x.pubkey@ =~= enc(x).subrange(0, 32));
        assert(y.pubkey@ =~= enc(y).subrange(0, 32));
        assert(enc(x)[32] == bool_byte(x.signer));
        assert(enc(y)[32] == bool_byte(y.signer));
        assert(enc(x)[33] == bool_byte(x.writable));
        assert(enc(y)[33] == bool_byte(y.writable));
    }
}

/// A response determines its descriptors: two lists that encode alike are the
/// same list.
pub proof fn lemma_payload_encoding_injective(a: Seq<IAccountMeta>, b: Seq<IAccountMeta>)
    requires
        a.len() <= u32::MAX,
        b.len() <= u32::MAX,
        encode_payload(a) == encode_payload(b),
    ensures
        a == b,
{
    lemma_descriptor_encoding();
    lemma_encode_counted_injective(a, b, |m: IAccountMeta| encode_descriptor(m), 34);
}

/// Decoding the encoding of a list gives the list back.
pub proof fn lemma_decode_payload(accounts: Seq<IAccountMeta>)
    requires
        accounts.len() <= u32::MAX,
    ensures
        decode_payload(encode_payload(accounts)) == Some(accounts),
{
    let data = encode_payload(accounts);
    let other = choose|other: Seq<IAccountMeta>|
        other.len() <= u32::MAX && #[trigger] encode_payload(other) == data;
    lemma_payload_encoding_injective(other, accounts);
}

/// Encoding what a response decodes to gives the response back.
pub proof fn lemma_encode_payload(data: Seq<u8>)
    requires
        decode_payload(data) is Some,
    ensures
        decode_payload(data).unwrap().len() <= u32::MAX,
        encode_payload(decode_payload(data).unwrap()) == data,
{
}

/// Where the parts of an encoded response stand.
pub proof fn lemma_payload_layout(accounts: Seq<IAccountMeta>)
    requires
        accounts.len() <= u32::MAX,
    ensures
        encode_payload(accounts).len() == 4 + 34 * accounts.len(),
        spec_u32_from_le_bytes(encode_payload(accounts).subrange(0, 4)) == accounts.len(),
        forall|i: int, k: int|
            0 <= i < accounts.len() && 0 <= k < 34 ==> #[trigger] encode_payload(accounts)[4 + i
                * 34 + k] == encode_descriptor(accounts[i])[k],
{
    lemma_descriptor_encoding();
    let enc = |m: IAccountMeta| encode_descriptor(m);
    lemma_encode_counted_layout(accounts, enc, 34);
    assert(accounts.len() * 34 == 34 * accounts.len());
    assert forall|i: int, k: int| 0 <= i < accounts.len() && 0 <= k < 34 implies #[trigger] encode_payload(
        accounts,
    )[4 + i * 34 + k] == encode_descriptor(accounts[i])[k] by {
        assert(encode_counted(accounts, enc)[4 + i * 34 + k] == enc(accounts[i])[k]);
    }
}

/// The byte that stands for a flag.
pub fn flag_byte(flag: bool) -> (b: u8)
    ensures
        b == bool_byte(flag),
{
    if flag {
        1
    } else {
        0
    }
}

impl PreflightPayload {
    /// Encodes the response for the wire. The count is sent in four bytes: a
    /// list of more than `u32::MAX` descriptors has no encoding, and is
    /// refused as `MalformedResponse`.
    pub fn try_to_vec(&self) -> (r: Result<Vec<u8>, TokenError>)
        ensures
            if self@.len() <= u32::MAX {
                r matches Ok(out) && out@ == encode_payload(self@)
            } else {
                r matches Err(TokenError::MalformedResponse)
            },
    {
        let n = self.accounts.len();
        if n > 0xffff_ffff {
            return Err(TokenError::MalformedResponse);
        }
        let mut out = u32_to_le_bytes(n as u32);
        let ghost enc = |m: IAccountMeta| encode_descriptor(m);
        let mut i: usize = 0;
        while i < n
            invariant
                i <= n,
                n == self.accounts@.len(),
                n <= u32::MAX,
                enc == |m: IAccountMeta| encode_descriptor(m),
                out@ == spec_u32_to_le_bytes(n as u32) + crate::codec::encode_each(
                    self@.subrange(0, i as int),
                    enc,
                ),
            decreases n - i,
        {
            let m = self.accounts[i];
            let ghost before = out@;
            m.pubkey.write_to(&mut out);
            out.push(flag_byte(m.signer));
            out.push(flag_byte(m.writable));
            proof {
                let prefix = self@.subrange(0, i + 1);
                assert(prefix.drop_last() =~= self@.subrange(0, i as int));
                assert(prefix.last() == m);
                assert(out@ =~= before + enc(m));
                assert(out@ =~= spec_u32_to_le_bytes(n as u32) + crate::codec::encode_each(
                    prefix,
                    enc,
                ));
            }
            i = i + 1;
        }
        assert(self@.subrange(0, n as int) =~= self@);
        Ok(out)
    }

    /// Decodes a response. It succeeds exactly on the encodings of lists of
    /// descriptors, and then returns the list that was encoded; bytes left
    /// over, a missing byte, or a flag that is neither zero nor one make the
    /// response malformed.
    pub fn try_from_slice(data: &[u8]) -> (r: Result<PreflightPayload, TokenError>)
        ensures
            match decode_payload(data@) {
                Some(accounts) => r matches Ok(payload) && payload@ == accounts,
                None => r matches Err(TokenError::MalformedResponse),
            },
    {
        let len = data.len();
        if len < 4 {
            proof {
                assert forall|accounts: Seq<IAccountMeta>|
                    accounts.len() <= u32::MAX implies #[trigger] encode_payload(accounts)
                    != data@ by {
                    lemma_payload_layout(accounts);
                }
            }
            return Err(TokenError::MalformedResponse);
        }
        let count = u32_from_le_bytes(slice_subrange(data, 0, 4));
        let expected: u64 = 4 + 34 * (count as u64);
        if len as u64 != expected {
            proof {
                assert forall|accounts: Seq<IAccountMeta>|
                    accounts.len() <= u32::MAX implies #[trigger] encode_payload(accounts)
                    != data@ by {
                    lemma_payload_layout(accounts);
                }
            }
            return Err(TokenError::MalformedResponse);
        }
        let n = count as usize;
        let mut accounts: Vec<IAccountMeta> = Vec::new();
        let mut i: usize = 0;
        while i < n
            invariant
                i <= n,
                n == count,
                len == data@.len(),
                len == 4 + 34 * n,
                accounts@.len() == i,
                forall|j: int, k: int|
                    0 <= j < i && 0 <= k < 34 ==> data@[4 + j * 34 + k] == #[trigger] encode_descriptor(
                        accounts@[j],
                    )[k],
            decreases n - i,
        {
            let offset = 4 + 34 * i;
            let pubkey = Identity::from_slice(data, offset);
            let signer = data[offset + 32];
            let writable = data[offset + 33];
            if signer > 1 || writable > 1 {
                proof {
                    assert forall|other: Seq<IAccountMeta>|
                        other.len() <= u32::MAX implies #[trigger] encode_payload(other)
                        != data@ by {
                        lemma_payload_layout(other);
                        if encode_payload(other) == data@ {
                            assert(other.len() == n);
                            assert(encode_payload(other)[4 + i * 34 + 32] == encode_descriptor(
                                other[i as int],
                            )[32]);
                            assert(encode_payload(other)[4 + i * 34 + 33] == encode_descriptor(
                                other[i as int],
                            )[33]);
                        }
                    }
                }
                return Err(TokenError::MalformedResponse);
            }
            let m = IAccountMeta { pubkey, signer: signer == 1, writable: writable == 1 };
            accounts.push(m);
            proof {
                lemma_identity_by_bytes(m.pubkey, m.pubkey);
                assert forall|j: int, k: int| 0 <= j < i + 1 && 0 <= k < 34 implies data@[4 + j
                    * 34 + k] == #[trigger] encode_descriptor(accounts@[j])[k] by {
                    if j == i {
                        if k < 32 {
                            assert(m.pubkey@[k] == data@.subrange(offset as int, offset + 32)[k]);
                        }
                    }
                }
            }
            i = i + 1;
        }
        proof {
            lemma_payload_layout(accounts@);
            lemma_auto_spec_u32_to_from_le_bytes();
            let e = encode_payload(accounts@);
            assert(e.subrange(0, 4) == spec_u32_to_le_bytes(n as u32)) by {
                lemma_descriptor_encoding();
                lemma_encode_counted_layout(accounts@, |m: IAccountMeta| encode_descriptor(m), 34);
            }
            assert(spec_u32_to_le_bytes(spec_u32_from_le_bytes(data@.subrange(0, 4)))
                == data@.subrange(0, 4));
            assert forall|p: int| 0 <= p < e.len() implies e[p] == data@[p] by {
                if p < 4 {
                    assert(e[p] == e.subrange(0, 4)[p]);
                    assert(data@[p] == data@.subrange(0, 4)[p]);
                } else {
                    let j = (p - 4) / 34;
                    let k = (p - 4) % 34;
                    assert(p == 4 + j * 34 + k);
                    assert(e[4 + j * 34 + k] == encode_descriptor(accounts@[j])[k]);
                }
            }
            assert(e =~= data@);
            lemma_decode_payload(accounts@);
        }
        Ok(PreflightPayload { accounts })
    }
}

} // verus!
