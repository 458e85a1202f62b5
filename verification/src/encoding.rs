//! Big-endian byte strings and the serialized form of an address.
use crate::types::{Address, AddressKind, Bytes32};
use vstd::prelude::*;

verus! {

/// The `n` least significant bytes of a number, most significant first.
pub open spec fn be_bytes(x: nat, n: nat) -> Seq<u8>
    decreases n,
{
    if n == 0 {
        Seq::empty()
    } else {
        be_bytes(x / 256, (n - 1) as nat).push((x % 256) as u8)
    }
}

/// `256` to the power of `n`.
pub open spec fn pow256(n: nat) -> nat
    decreases n,
{
    if n == 0 {
        1
    } else {
        256 * pow256((n - 1) as nat)
    }
}

proof fn lemma_be_len(x: nat, n: nat)
    ensures
        be_bytes(x, n).len() == n,
    decreases n,
{
    if n > 0 {
        lemma_be_len(x / 256, (n - 1) as nat);
    }
}

/// A number that fits is determined by its bytes.
pub proof fn be_bytes_are_injective(x: nat, y: nat, n: nat)
    requires
        x < pow256(n),
        y < pow256(n),
        be_bytes(x, n) == be_bytes(y, n),
    ensures
        x == y,
    decreases n,
{
    if n > 0 {
        let m = (n - 1) as nat;
        lemma_be_len(x / 256, m);
        lemma_be_len(y / 256, m);
        assert(be_bytes(x, n).last() == (x % 256) as u8);
        assert(be_bytes(y, n).last() == (y % 256) as u8);
        assert(be_bytes(x, n).drop_last() =~= be_bytes(x / 256, m));
        assert(be_bytes(y, n).drop_last() =~= be_bytes(y / 256, m));
        be_bytes_are_injective(x / 256, y / 256, m);
    }
}

/// Appends the `n` least significant bytes of a number, most significant first.
pub fn push_be(out: &mut Vec<u8>, x: u128, n: usize)
    ensures
        final(out)@ == old(out)@ + be_bytes(x as nat, n as nat),
    decreases n,
{
    if n > 0 {
        push_be(out, x / 256, n - 1);
        out.push((x % 256) as u8);
        assert(out@ =~= old(out)@ + be_bytes(x as nat, n as nat));
    }
}

/// The 32 bytes of a value.
pub open spec fn bytes32(b: Bytes32) -> Seq<u8> {
    be_bytes(b.hi as nat, 16) + be_bytes(b.lo as nat, 16)
}

/// The XDR form of an address as a contract value: the tag of an address value,
/// the address type, for an account the key type, and the 32-byte key.
pub open spec fn address_xdr(a: Address) -> Seq<u8> {
    match a.kind {
        AddressKind::Account => be_bytes(18, 4) + be_bytes(0, 4) + be_bytes(0, 4) + bytes32(a.key),
        AddressKind::Contract => be_bytes(18, 4) + be_bytes(1, 4) + bytes32(a.key),
    }
}

/// Appends the 32 bytes of a value.
pub fn push_bytes32(out: &mut Vec<u8>, b: &Bytes32)
    ensures
        final(out)@ == old(out)@ + bytes32(*b),
{
    push_be(out, b.hi, 16);
    push_be(out, b.lo, 16);
    assert(out@ =~= old(out)@ + bytes32(*b));
}

/// Appends the XDR form of an address.
pub fn push_address_xdr(out: &mut Vec<u8>, a: &Address)
    ensures
        final(out)@ == old(out)@ + address_xdr(*a),
{
    push_be(out, 18, 4);
    match a.kind {
        AddressKind::Account => {
            push_be(out, 0, 4);
            push_be(out, 0, 4);
        },
        AddressKind::Contract => push_be(out, 1, 4),
    }
    push_bytes32(out, &a.key);
    assert(out@ =~= old(out)@ + address_xdr(*a));
}

proof fn lemma_pow256_16()
    ensures
        u128::MAX < pow256(16),
        u64::MAX < pow256(8),
{
    reveal_with_fuel(pow256, 17);
}

/// A 64-bit number is determined by its eight bytes.
pub proof fn be_bytes8_are_injective(x: u64, y: u64)
    requires
        be_bytes(x as nat, 8) == be_bytes(y as nat, 8),
    ensures
        x == y,
{
    lemma_pow256_16();
    be_bytes_are_injective(x as nat, y as nat, 8);
}

/// A 32-byte value is determined by its bytes.
pub proof fn bytes32_are_injective(a: Bytes32, b: Bytes32)
    requires
        bytes32(a) == bytes32(b),
    ensures
        a == b,
{
    lemma_be_len(a.hi as nat, 16);
    lemma_be_len(b.hi as nat, 16);
    lemma_be_len(a.lo as nat, 16);
    lemma_be_len(b.lo as nat, 16);
    assert(bytes32(a).take(16) =~= be_bytes(a.hi as nat, 16));
    assert(bytes32(b).take(16) =~= be_bytes(b.hi as nat, 16));
    assert(bytes32(a).skip(16) =~= be_bytes(a.lo as nat, 16));
    assert(bytes32(b).skip(16) =~= be_bytes(b.lo as nat, 16));
    lemma_pow256_16();
    be_bytes_are_injective(a.hi as nat, b.hi as nat, 16);
    be_bytes_are_injective(a.lo as nat, b.lo as nat, 16);
}

/// How long each serialized form is.
pub proof fn lemma_encoded_lengths(a: Address, b: Bytes32, x: u64)
    ensures
        bytes32(b).len() == 32,
        be_bytes(x as nat, 8).len() == 8,
        address_xdr(a).len() == (if a.kind == AddressKind::Contract { 40nat } else { 44 }),
{
    lemma_be_len(b.hi as nat, 16);
    lemma_be_len(b.lo as nat, 16);
    lemma_be_len(a.key.hi as nat, 16);
    lemma_be_len(a.key.lo as nat, 16);
    lemma_be_len(x as nat, 8);
    lemma_be_len(18, 4);
    lemma_be_len(0, 4);
    lemma_be_len(1, 4);
}

/// An address is determined by its XDR form.
pub proof fn address_xdr_is_injective(a: Address, b: Address)
    requires
        address_xdr(a) == address_xdr(b),
    ensures
        a == b,
{
    lemma_encoded_lengths(a, a.key, 0);
    lemma_encoded_lengths(b, b.key, 0);
    assert(a.kind == b.kind);
    let n = address_xdr(a).len() - 32;
    assert(address_xdr(a).skip(n) =~= bytes32(a.key));
    assert(address_xdr(b).skip(n) =~= bytes32(b.key));
    bytes32_are_injective(a.key, b.key);
}

/// Read from the left, each byte counting 256 times the next, the bytes of a
/// number give the number back.
pub proof fn be_bytes_read_back(x: nat, n: nat)
    requires
        x < pow256(n),
    ensures
        be_bytes(x, n).fold_left(0int, |value: int, b: u8| value * 256 + b) == x,
    decreases n,
{
    if n > 0 {
        let m = (n - 1) as nat;
        be_bytes_read_back(x / 256, m);
        assert(be_bytes(x, n).drop_last() =~= be_bytes(x / 256, m));
        assert(be_bytes(x, n).last() == (x % 256) as u8);
    }
}

/// A serialized address says that it is one and of which kind, and then gives its
/// key.
pub proof fn serialized_addresses_are_tagged(a: Address)
    ensures
        a.kind == AddressKind::Contract ==> address_xdr(a) == seq![0u8, 0, 0, 18, 0, 0, 0, 1]
            + bytes32(a.key),
        a.kind == AddressKind::Account ==> address_xdr(a) == seq![
            0u8,
            0,
            0,
            18,
            0,
            0,
            0,
            0,
            0,
            0,
            0,
            0,
        ] + bytes32(a.key),
        bytes32(a.key) == be_bytes(a.key.hi as nat, 16) + be_bytes(a.key.lo as nat, 16),
{
    reveal_with_fuel(be_bytes, 5);
    assert(be_bytes(18, 4) =~= seq![0u8, 0, 0, 18]);
    assert(be_bytes(1, 4) =~= seq![0u8, 0, 0, 1]);
    assert(be_bytes(0, 4) =~= seq![0u8, 0, 0, 0]);
    if a.kind == AddressKind::Contract {
        assert(address_xdr(a) =~= seq![0u8, 0, 0, 18, 0, 0, 0, 1] + bytes32(a.key));
    } else {
        assert(address_xdr(a) =~= seq![0u8, 0, 0, 18, 0, 0, 0, 0, 0, 0, 0, 0] + bytes32(a.key));
    }
}

} // verus!
