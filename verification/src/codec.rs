//! A codec for the upload access of the parameters that needs nothing
//! but bytes: the number of the access type in one byte, and then each
//! address after a byte that holds its length. What it writes it reads
//! back, and it reads nothing else.

use vstd::prelude::*;
use crate::address::AccAddress;
use crate::message::{AccessConfig, AccessConfigModel, AccessType, address_models,
    lemma_access_type_round_trip};
use crate::params::AccessConfigCodec;

verus! {

/// The bytes of a list of addresses: each address after a byte that
/// holds its length.
pub open spec fn packed_addresses(a: Seq<Seq<u8>>) -> Seq<u8>
    decreases a.len(),
{
    if a.len() == 0 {
        Seq::empty()
    } else {
        packed_addresses(a.drop_last()) + seq![a.last().len() as u8] + a.last()
    }
}

/// The bytes of an access configuration: the number of its type, and
/// then its addresses.
pub open spec fn packed(c: AccessConfigModel) -> Seq<u8> {
    seq![c.permission.number() as u8] + packed_addresses(c.addresses)
}

/// The list `done` before the list `rest`, where there is one.
pub open spec fn before(done: Seq<Seq<u8>>, rest: Option<Seq<Seq<u8>>>) -> Option<Seq<Seq<u8>>> {
    match rest {
        Some(more) => Some(done + more),
        None => None,
    }
}

/// The addresses that `b` holds, each after a byte that holds its
/// length; or `None` where a length reaches beyond the end.
pub open spec fn unpacked_addresses(b: Seq<u8>) -> Option<Seq<Seq<u8>>>
    decreases b.len(),
{
    if b.len() == 0 {
        Some(Seq::empty())
    } else if b.len() < 1 + b[0] {
        None
    } else {
        before(seq![b.subrange(1, 1 + b[0])], unpacked_addresses(b.skip(1 + b[0])))
    }
}

/// Whether `n` is the number of an access type.
pub open spec fn is_access_number(n: u8) -> bool {
    n == 0 || n == 1 || n == 3 || n == 4
}

/// The access configuration that `b` holds; or `None` where `b` is
/// empty, does not start with the number of an access type, or does
/// not go on with a list of addresses.
pub open spec fn unpacked(b: Seq<u8>) -> Option<AccessConfigModel> {
    if b.len() == 0 || !is_access_number(b[0]) {
        None
    } else {
        match unpacked_addresses(b.skip(1)) {
            Some(addresses) => Some(
                AccessConfigModel { permission: AccessType::of_number(b[0] as int), addresses },
            ),
            None => None,
        }
    }
}

/// One more address at the end of a list is one more at the end of its
/// bytes.
proof fn lemma_packed_push(a: Seq<Seq<u8>>, x: Seq<u8>)
    ensures
        packed_addresses(a.push(x)) == packed_addresses(a) + seq![x.len() as u8] + x,
{
    assert(a.push(x).drop_last() =~= a);
}

/// What is read from the bytes of a list of addresses, with more bytes
/// behind them, is the list and then what is read from the rest.
proof fn lemma_unpacked_after(a: Seq<Seq<u8>>, tail: Seq<u8>)
    requires
        forall|i: int| 0 <= i < a.len() ==> (#[trigger] a[i]).len() <= 255,
    ensures
        unpacked_addresses(packed_addresses(a) + tail) == before(a, unpacked_addresses(tail)),
    decreases a.len(),
{
    if a.len() == 0 {
        assert(packed_addresses(a) + tail =~= tail);
        match unpacked_addresses(tail) {
            Some(more) => {
                assert(a + more =~= more);
            },
            None => {},
        }
    } else {
        let head = a.drop_last();
        let x = a.last();
        let next = seq![x.len() as u8] + x + tail;
        lemma_unpacked_after(head, next);
        assert(packed_addresses(a) + tail =~= packed_addresses(head) + next);
        assert(next.subrange(1, 1 + next[0]) =~= x);
        assert(next.skip(1 + next[0]) =~= tail);
        match unpacked_addresses(tail) {
            Some(more) => {
                assert(head + (seq![x] + more) =~= a + more);
            },
            None => {},
        }
    }
}

/// The round trip of the codec: what is read from the bytes of an
/// access configuration is that configuration, for every configuration
/// whose addresses have at most 255 bytes each.
pub proof fn lemma_packed_round_trip(c: AccessConfigModel)
    requires
        forall|i: int| 0 <= i < c.addresses.len() ==> (#[trigger] c.addresses[i]).len() <= 255,
    ensures
        unpacked(packed(c)) == Some(c),
{
    let b = packed(c);
    lemma_access_type_round_trip(c.permission);
    lemma_unpacked_after(c.addresses, Seq::empty());
    assert(b.skip(1) =~= packed_addresses(c.addresses) + Seq::<u8>::empty());
    assert(c.addresses + Seq::<Seq<u8>>::empty() =~= c.addresses);
}

/// The bytes of `bytes` from `from` to `to`.
fn copy_range(bytes: &[u8], from: usize, to: usize) -> (r: Vec<u8>)
    requires
        from <= to <= bytes@.len(),
    ensures
        r@ == bytes@.subrange(from as int, to as int),
{
    let mut r: Vec<u8> = Vec::new();
    let mut i: usize = from;
    while i < to
        invariant
            from <= i <= to <= bytes@.len(),
            r@ == bytes@.subrange(from as int, i as int),
        decreases to - i,
    {
        r.push(bytes[i]);
        assert(r@ =~= bytes@.subrange(from as int, i + 1));
        i = i + 1;
    }
    r
}

/// The codec that writes an access configuration as the number of its
/// type in one byte and then each address after a byte that holds its
/// length: see [`packed`] and [`unpacked`].
#[derive(Clone, Copy, Debug)]
pub struct PackedCodec;

impl AccessConfigCodec for PackedCodec {
    /// The bytes are those of the configuration: see [`packed`].
    open spec fn encodes(&self, config: AccessConfigModel, bytes: Seq<u8>) -> bool {
        bytes == packed(config)
    }

    /// The configuration is the one that the bytes hold, if they hold
    /// one: see [`unpacked`].
    open spec fn decodes(&self, bytes: Seq<u8>, r: Option<AccessConfigModel>) -> bool {
        r == unpacked(bytes)
    }

    fn encode(&self, config: &AccessConfig) -> (r: Vec<u8>) {
        let ghost all = address_models(config.addresses@);
        let mut out: Vec<u8> = Vec::new();
        out.push(config.permission.to_i32() as u8);
        let mut i: usize = 0;
        assert(all.take(0) =~= Seq::<Seq<u8>>::empty());
        while i < config.addresses.len()
            invariant
                0 <= i <= config.addresses@.len(),
                all == address_models(config.addresses@),
                out@ == seq![config.permission.number() as u8] + packed_addresses(
                    all.take(i as int),
                ),
            decreases config.addresses@.len() - i,
        {
            let a = config.addresses[i].as_bytes();
            let ghost so_far = out@;
            out.push(a.len() as u8);
            let mut j: usize = 0;
            while j < a.len()
                invariant
                    0 <= j <= a@.len(),
                    out@ == so_far + seq![a@.len() as u8] + a@.take(j as int),
                decreases a@.len() - j,
            {
                out.push(a[j]);
                assert(a@.take(j + 1) =~= a@.take(j as int).push(a@[j as int]));
                assert(out@ =~= so_far + seq![a@.len() as u8] + a@.take(j + 1));
                j = j + 1;
            }
            proof {
                assert(a@.take(a@.len() as int) =~= a@);
                assert(all.take(i + 1) =~= all.take(i as int).push(a@));
                lemma_packed_push(all.take(i as int), a@);
                assert(out@ =~= seq![config.permission.number() as u8] + packed_addresses(
                    all.take(i + 1),
                ));
            }
            i = i + 1;
        }
        assert(all.take(all.len() as int) =~= all);
        out
    }

    fn decode(&self, bytes: &[u8]) -> (r: Option<AccessConfig>) {
        if bytes.len() == 0 {
            return None;
        }
        let n = bytes[0];
        if !(n == 0 || n == 1 || n == 3 || n == 4) {
            return None;
        }
        let ghost whole = unpacked_addresses(bytes@.skip(1));
        let mut addresses: Vec<AccAddress> = Vec::new();
        let mut pos: usize = 1;
        proof {
            match whole {
                Some(more) => {
                    assert(address_models(addresses@) + more =~= more);
                },
                None => {},
            }
        }
        while pos < bytes.len()
            invariant
                1 <= pos <= bytes@.len(),
                whole == unpacked_addresses(bytes@.skip(1)),
                whole == before(
                    address_models(addresses@),
                    unpacked_addresses(bytes@.skip(pos as int)),
                ),
            decreases bytes@.len() - pos,
        {
            let ghost rest = bytes@.skip(pos as int);
            let ghost done = address_models(addresses@);
            let len = bytes[pos] as usize;
            assert(rest[0] == bytes@[pos as int]);
            if bytes.len() - pos < 1 + len {
                return None;
            }
            let found = copy_range(bytes, pos + 1, pos + 1 + len);
            match AccAddress::try_from_bytes(found) {
                Ok(a) => {
                    addresses.push(a);
                },
                Err(_) => {
                    return None;
                },
            }
            proof {
                let x = rest.subrange(1, 1 + len);
                assert(x =~= bytes@.subrange(pos + 1, pos + 1 + len));
                assert(rest.skip(1 + len) =~= bytes@.skip(pos + 1 + len));
                assert(address_models(addresses@) =~= done.push(x));
                match unpacked_addresses(bytes@.skip(pos + 1 + len)) {
                    Some(more) => {
                        assert(done + (seq![x] + more) =~= done.push(x) + more);
                    },
                    None => {},
                }
            }
            pos = pos + 1 + len;
        }
        proof {
            assert(bytes@.skip(pos as int) =~= Seq::<u8>::empty());
            assert(address_models(addresses@) + Seq::<Seq<u8>>::empty() =~= address_models(
                addresses@,
            ));
        }
        Some(AccessConfig { permission: AccessType::from_i32(n as i32), addresses })
    }
}

} // verus!
