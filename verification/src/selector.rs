//! Selectors: the eight bytes at the head of an instruction's data that tell
//! the callee which of its entry points is meant.

use vstd::prelude::*;
use vstd::string::*;

verus! {

/// The bytes of `global:`, which open the name of every entry point.
pub const GLOBAL_PREFIX: [u8; 7] = [103, 108, 111, 98, 97, 108, 58];

/// The bytes of `preflight_`, which stand before an operation's name in the
/// name of its discovery entry point.
pub const PREFLIGHT_PREFIX: [u8; 10] = [112, 114, 101, 102, 108, 105, 103, 104, 116, 95];

/// The SHA-256 digest of a byte string.
pub uninterp spec fn sha256_digest(data: Seq<u8>) -> Seq<u8>;

/// `solana_program::hash::hash`, with the digest taken out by
/// `Hash::to_bytes`: the SHA-256 digest of `data`, which has thirty-two bytes.
#[verifier::external_body]
pub(crate) fn sha256(data: &[u8]) -> (digest: [u8; 32])
    ensures
        digest@ == sha256_digest(data@),
{
    anchor_lang::solana_program::hash::hash(data).to_bytes()
}

/// The name that is hashed for an operation: `global:<operation>` for the
/// call itself, `global:preflight_<operation>` for its discovery call.
pub open spec fn namespace(preflight: bool, operation: Seq<u8>) -> Seq<u8> {
    if preflight {
        GLOBAL_PREFIX@ + PREFLIGHT_PREFIX@ + operation
    } else {
        GLOBAL_PREFIX@ + operation
    }
}

/// The selector that a digest yields: its first eight bytes.
pub open spec fn selector_of(digest: Seq<u8>) -> Seq<u8> {
    digest.subrange(0, 8)
}

/// The data of a call: the selector of the operation's name, then the encoded
/// arguments.
pub open spec fn instruction_data(preflight: bool, operation: Seq<u8>, args: Seq<u8>) -> Seq<u8> {
    selector_of(sha256_digest(namespace(preflight, operation))) + args
}

/// Builds the name that is hashed for `operation`.
pub fn build_namespace(preflight: bool, operation: &[u8]) -> (name: Vec<u8>)
    ensures
        name@ == namespace(preflight, operation@),
{
    let mut name: Vec<u8> = Vec::new();
    let mut i: usize = 0;
    while i < 7
        invariant
            i <= 7,
            name@ == GLOBAL_PREFIX@.subrange(0, i as int),
        decreases 7 - i,
    {
        name.push(GLOBAL_PREFIX[i]);
        assert(GLOBAL_PREFIX@.subrange(0, i + 1) =~= GLOBAL_PREFIX@.subrange(0, i as int).push(
            GLOBAL_PREFIX@[i as int],
        ));
        i = i + 1;
    }
    assert(GLOBAL_PREFIX@.subrange(0, 7) =~= GLOBAL_PREFIX@);
    if preflight {
        let mut j: usize = 0;
        while j < 10
            invariant
                j <= 10,
                name@ == GLOBAL_PREFIX@ + PREFLIGHT_PREFIX@.subrange(0, j as int),
            decreases 10 - j,
        {
            name.push(PREFLIGHT_PREFIX[j]);
            assert(PREFLIGHT_PREFIX@.subrange(0, j + 1) =~= PREFLIGHT_PREFIX@.subrange(
                0,
                j as int,
            ).push(PREFLIGHT_PREFIX@[j as int]));
            assert(name@ =~= GLOBAL_PREFIX@ + PREFLIGHT_PREFIX@.subrange(0, j + 1));
            j = j + 1;
        }
        assert(PREFLIGHT_PREFIX@.subrange(0, 10) =~= PREFLIGHT_PREFIX@);
    }
    let ghost head = name@;
    let len = operation.len();
    let mut k: usize = 0;
    while k < len
        invariant
            k <= len,
            len == operation@.len(),
            name@ == head + operation@.subrange(0, k as int),
        decreases len - k,
    {
        name.push(operation[k]);
        assert(name@ =~= head + operation@.subrange(0, k + 1));
        k = k + 1;
    }
    assert(operation@.subrange(0, len as int) =~= operation@);
    name
}

/// Puts the first eight bytes of `digest` in front of `args`.
pub fn selector_then_args(digest: &[u8; 32], args: &[u8]) -> (data: Vec<u8>)
    ensures
        data@ == selector_of(digest@) + args@,
{
    let mut data: Vec<u8> = Vec::new();
    let mut i: usize = 0;
    while i < 8
        invariant
            i <= 8,
            data@ == digest@.subrange(0, i as int),
        decreases 8 - i,
    {
        data.push(digest[i]);
        assert(data@ =~= digest@.subrange(0, i + 1));
        i = i + 1;
    }
    let len = args.len();
    let mut k: usize = 0;
    while k < len
        invariant
            k <= len,
            len == args@.len(),
            data@ == selector_of(digest@) + args@.subrange(0, k as int),
        decreases len - k,
    {
        data.push(args[k]);
        assert(data@ =~= selector_of(digest@) + args@.subrange(0, k + 1));
        k = k + 1;
    }
    assert(args@.subrange(0, len as int) =~= args@);
    data
}

/// The data of a call of `operation` with the encoded arguments `args`.
pub fn build_instruction_data(preflight: bool, operation: &str, args: &[u8]) -> (data: Vec<u8>)
    ensures
        data@ == instruction_data(preflight, operation.spec_bytes(), args@),
{
    let name = build_namespace(preflight, operation.as_bytes());
    let digest = sha256(name.as_slice());
    selector_then_args(&digest, args)
}

} // verus!
