//! The hybrid logical clock stamp and its fixed-width byte layout.

use vstd::prelude::*;
use vstd::string::StringExecFns;

use crate::hlc::error::HlcError;
use crate::hlc::headers::HLC_HEADER;
use crate::ids::NodeId;
use crate::primitives::{get_be, lemma_be_value_bound, put_be};
use crate::text::{decimal, push_decimal, push_signed_decimal, signed_decimal};
use crate::wire::{
    be_bytes, be_value, lemma_be_bytes, lemma_be_value_bytes, lemma_pow256_values, pow256,
    to_signed, to_unsigned,
};

verus! {

/// The byte length of an encoded [`Hlc`].
///
/// The layout is fixed-width, so this length is the same for every stamp: 8
/// bytes of wall time, 4 bytes of counter, and 4 bytes of node id.
pub const HLC_ENCODED_LEN: usize = 16;

/// A wall-clock instant, in microseconds since the Unix epoch.
///
/// This is a coordinate on the time line and not an extent of time, so it is a
/// newtype of its own.
///
/// The unit is the microsecond. A Kafka record timestamp counts milliseconds,
/// and one millisecond is too coarse to order the records inside one batch. A
/// microsecond gives the logical counter far fewer events to separate.
///
/// The value is signed, and a value below zero names an instant before the
/// Unix epoch. The clock accepts such a value and does not treat it as an
/// error, because a host whose clock is unset reports one.
#[derive(Debug, Clone, Copy, Default, PartialEq, Eq, PartialOrd, Ord, Hash, Structural)]
pub struct WallMicros(pub i64);

impl WallMicros {
    /// The Unix epoch, `1970-01-01T00:00:00Z`.
    pub fn epoch() -> (w: WallMicros)
        ensures
            w.0 == 0,
    {
        WallMicros(0)
    }

    /// The inner `i64`. Use it for arithmetic against other time counts.
    pub fn get(self) -> (r: i64)
        ensures
            r == self.0,
    {
        self.0
    }

    /// The instant as a decimal count of microseconds.
    pub fn to_string(&self) -> (s: String)
        ensures
            s@ == signed_decimal(self.0 as int),
    {
        let mut s = String::new();
        push_signed_decimal(&mut s, self.0);
        assert(s@ =~= signed_decimal(self.0 as int));
        s
    }
}

impl From<i64> for WallMicros {
    fn from(micros: i64) -> (w: WallMicros) {
        WallMicros(micros)
    }
}

impl vstd::std_specs::convert::FromSpecImpl<i64> for WallMicros {
    open spec fn obeys_from_spec() -> bool {
        true
    }

    open spec fn from_spec(micros: i64) -> WallMicros {
        WallMicros(micros)
    }
}

impl From<WallMicros> for i64 {
    fn from(w: WallMicros) -> (micros: i64) {
        w.0
    }
}

impl vstd::std_specs::convert::FromSpecImpl<WallMicros> for i64 {
    open spec fn obeys_from_spec() -> bool {
        true
    }

    open spec fn from_spec(w: WallMicros) -> i64 {
        w.0
    }
}

/// One hybrid logical clock stamp: a wall time, a logical counter, and the
/// node that minted it.
///
/// The three fields give a total order over every event in the cluster. The
/// derived order compares the wall time first, then the counter, then the node
/// id, as [`hlc_lt`] says. The wall time keeps the order close to real time.
/// The counter separates events that share a microsecond. The node id breaks
/// the remaining ties, so two nodes that stamp the same wall time and the same
/// counter still get one order, and every node computes that same order.
#[derive(Debug, Clone, Copy, PartialEq, Eq, PartialOrd, Ord, Hash, Structural)]
pub struct Hlc {
    /// The wall time this stamp claims.
    pub wall: WallMicros,
    /// The logical counter that separates events inside one microsecond.
    pub counter: u32,
    /// The node that minted the stamp.
    pub node: NodeId,
}

/// `a` sorts before `b`: by wall time, then by counter, then by node id.
pub open spec fn hlc_lt(a: Hlc, b: Hlc) -> bool {
    a.wall.0 < b.wall.0 || (a.wall.0 == b.wall.0 && (a.counter < b.counter || (a.counter
        == b.counter && a.node.0 < b.node.0)))
}

/// The 16 bytes of a stamp: the wall time as a big-endian two's-complement
/// `i64`, then the counter and the node id as big-endian 4-byte numbers.
pub open spec fn stamp_bytes(h: Hlc) -> Seq<u8> {
    be_bytes(to_unsigned(h.wall.0 as int, 8), 8) + be_bytes(h.counter as nat, 4) + be_bytes(
        h.node.0 as nat,
        4,
    )
}

/// The stamp that 16 bytes hold.
pub open spec fn stamp_of(b: Seq<u8>) -> Hlc {
    Hlc {
        wall: WallMicros(to_signed(be_value(b.take(8)), 8) as i64),
        counter: be_value(b.subrange(8, 12)) as u32,
        node: NodeId(be_value(b.subrange(12, 16)) as u64),
    }
}

/// The text of a stamp: wall time, a dot, counter, an at sign, node id.
pub open spec fn stamp_text(h: Hlc) -> Seq<char> {
    signed_decimal(h.wall.0 as int) + "."@ + decimal(h.counter as nat) + "@"@ + decimal(
        h.node.0 as nat,
    )
}

impl Hlc {
    /// A stamp built from its three parts.
    pub fn new(wall: WallMicros, counter: u32, node: NodeId) -> (h: Hlc)
        ensures
            h == (Hlc { wall, counter, node }),
    {
        Hlc { wall, counter, node }
    }

    /// The stamp as the exact bytes of the `krabka.hlc` header value.
    ///
    /// The layout is big-endian and fixed-width: 8 bytes of wall time as an
    /// `i64`, 4 bytes of counter as a `u32`, and 4 bytes of node id as a
    /// `u32`. There is no varint framing and no length prefix. Java and Go
    /// clients read this header by hand, and a plain big-endian layout is what
    /// `DataInputStream.readLong` and `binary.BigEndian.Uint32` already give
    /// them.
    ///
    /// Returns [`HlcError::NodeIdTooLarge`] when the node id is above
    /// `u32::MAX`, which is wider than the 4-byte field the layout gives it.
    pub fn encode(self) -> (res: Result<[u8; 16], HlcError>)
        ensures
            self.node.0 <= u32::MAX ==> (res matches Ok(a) && a@ == stamp_bytes(self)),
            self.node.0 > u32::MAX ==> res == Err::<[u8; 16], HlcError>(
                HlcError::NodeIdTooLarge(self.node.0),
            ),
    {
        if self.node.0 > 0xffff_ffff {
            return Err(HlcError::NodeIdTooLarge(self.node.0));
        }
        proof {
            lemma_pow256_values();
        }
        let w = self.wall.0;
        let wall_bits: u64 = if w >= 0 {
            w as u64
        } else {
            ((w + 9223372036854775807) + 1) as u64 + 9223372036854775808u64
        };
        let mut v: Vec<u8> = Vec::new();
        put_be(&mut v, wall_bits, 8);
        put_be(&mut v, self.counter as u64, 4);
        put_be(&mut v, self.node.0, 4);
        proof {
            lemma_be_bytes(wall_bits as nat, 8);
            lemma_be_bytes(self.counter as nat, 4);
            lemma_be_bytes(self.node.0 as nat, 4);
        }
        assert(v@ =~= stamp_bytes(self));
        let a: [u8; 16] = [
            v[0],
            v[1],
            v[2],
            v[3],
            v[4],
            v[5],
            v[6],
            v[7],
            v[8],
            v[9],
            v[10],
            v[11],
            v[12],
            v[13],
            v[14],
            v[15],
        ];
        assert(a@ =~= v@);
        Ok(a)
    }

    /// The stamp that `bytes` carries, with full validation.
    ///
    /// Every 16-byte input is a valid stamp, because each of the three fields
    /// covers the whole range of its type. The function never panics on
    /// malformed input.
    ///
    /// Returns [`HlcError::Length`] when `bytes` is not exactly
    /// [`HLC_ENCODED_LEN`] bytes long.
    pub fn decode(bytes: &[u8]) -> (res: Result<Hlc, HlcError>)
        ensures
            bytes@.len() == 16 ==> res == Ok::<Hlc, HlcError>(stamp_of(bytes@)),
            bytes@.len() != 16 ==> res == Err::<Hlc, HlcError>(HlcError::Length(bytes@.len() as usize)),
    {
        if bytes.len() != 16 {
            return Err(HlcError::Length(bytes.len()));
        }
        proof {
            lemma_pow256_values();
        }
        let wall_bits = get_be(bytes, 0, 8);
        let counter = get_be(bytes, 8, 4);
        let node = get_be(bytes, 12, 4);
        proof {
            lemma_be_value_bound(bytes@.subrange(0, 8));
            lemma_be_value_bound(bytes@.subrange(8, 12));
            lemma_be_value_bound(bytes@.subrange(12, 16));
            assert(bytes@.take(8) =~= bytes@.subrange(0, 8));
        }
        let wall: i64 = if wall_bits < 0x8000_0000_0000_0000 {
            wall_bits as i64
        } else {
            let down: u64 = wall_bits - 0x8000_0000_0000_0000;
            (down as i64) - 0x7fff_ffff_ffff_ffff - 1
        };
        Ok(Hlc { wall: WallMicros(wall), counter: counter as u32, node: NodeId(node) })
    }

    /// The stamp as a Kafka record header: the [`HLC_HEADER`] key and the
    /// encoded value.
    ///
    /// A producer attaches the pair to the record it writes. A record that
    /// carries no stamp gets no header, so an unstamped record costs zero
    /// bytes.
    ///
    /// Returns [`HlcError::NodeIdTooLarge`] when the node id is above
    /// `u32::MAX`. See [`Hlc::encode`].
    pub fn header(self) -> (res: Result<(&'static str, [u8; 16]), HlcError>)
        ensures
            self.node.0 <= u32::MAX ==> (res matches Ok((k, a)) && k@ == HLC_HEADER@ && a@
                == stamp_bytes(self)),
            self.node.0 > u32::MAX ==> res == Err::<(&'static str, [u8; 16]), HlcError>(
                HlcError::NodeIdTooLarge(self.node.0),
            ),
    {
        let value = self.encode()?;
        Ok((HLC_HEADER, value))
    }

    /// The stamp as text: wall time, a dot, counter, an at sign, node id.
    pub fn to_string(&self) -> (s: String)
        ensures
            s@ == stamp_text(*self),
    {
        let mut s = String::new();
        push_signed_decimal(&mut s, self.wall.0);
        s.append(".");
        push_decimal(&mut s, self.counter as u64);
        s.append("@");
        push_decimal(&mut s, self.node.0);
        assert(s@ =~= stamp_text(*self));
        s
    }
}

/// A stamp whose node id fits its field reads back from its bytes as itself.
pub proof fn lemma_stamp_roundtrip(h: Hlc)
    requires
        h.node.0 <= u32::MAX,
    ensures
        stamp_bytes(h).len() == HLC_ENCODED_LEN,
        stamp_of(stamp_bytes(h)) == h,
{
    lemma_pow256_values();
    let u = to_unsigned(h.wall.0 as int, 8);
    lemma_be_bytes(u, 8);
    lemma_be_bytes(h.counter as nat, 4);
    lemma_be_bytes(h.node.0 as nat, 4);
    let b = stamp_bytes(h);
    assert(b.take(8) =~= be_bytes(u, 8));
    assert(b.subrange(8, 12) =~= be_bytes(h.counter as nat, 4));
    assert(b.subrange(12, 16) =~= be_bytes(h.node.0 as nat, 4));
}

/// The 16 bytes of a stamp hold, most significant byte first, its wall time
/// in bytes 0 to 7 as a two's complement integer, its counter in bytes 8 to 11
/// and its node id in bytes 12 to 15.
pub proof fn lemma_stamp_layout(h: Hlc)
    requires
        h.node.0 <= u32::MAX,
    ensures
        stamp_bytes(h).len() == 16,
        to_signed(be_value(stamp_bytes(h).subrange(0, 8)), 8) == h.wall.0,
        be_value(stamp_bytes(h).subrange(8, 12)) == h.counter,
        be_value(stamp_bytes(h).subrange(12, 16)) == h.node.0,
{
    lemma_pow256_values();
    let u = to_unsigned(h.wall.0 as int, 8);
    lemma_be_bytes(u, 8);
    lemma_be_bytes(h.counter as nat, 4);
    lemma_be_bytes(h.node.0 as nat, 4);
    crate::wire::lemma_int_roundtrip(h.wall.0 as int, 8, Seq::empty());
    let b = stamp_bytes(h);
    assert(b.subrange(0, 8) =~= be_bytes(u, 8));
    assert((crate::wire::int_bytes(h.wall.0 as int, 8) + Seq::<u8>::empty()).take(8) =~= be_bytes(
        u,
        8,
    ));
    assert(b.subrange(8, 12) =~= be_bytes(h.counter as nat, 4));
    assert(b.subrange(12, 16) =~= be_bytes(h.node.0 as nat, 4));
}

/// Any 16 bytes are a stamp, and that stamp writes back the same bytes: the
/// library keeps no peer bytes and loses none.
pub proof fn lemma_bytes_roundtrip(b: Seq<u8>)
    requires
        b.len() == HLC_ENCODED_LEN,
    ensures
        stamp_of(b).node.0 <= u32::MAX,
        stamp_bytes(stamp_of(b)) == b,
{
    lemma_pow256_values();
    let w = b.take(8);
    let c = b.subrange(8, 12);
    let n = b.subrange(12, 16);
    lemma_be_value_bound(w);
    lemma_be_value_bound(c);
    lemma_be_value_bound(n);
    lemma_be_value_bytes(w);
    lemma_be_value_bytes(c);
    lemma_be_value_bytes(n);
    let h = stamp_of(b);
    assert(to_unsigned(h.wall.0 as int, 8) == be_value(w));
    assert(b =~= w + c + n);
}

} // verus!
