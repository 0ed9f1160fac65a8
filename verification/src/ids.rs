//! Value types for chain, client, connection, channel and port
//! identifiers, heights, timestamps and packet addresses, with the
//! stable string forms `port/channel/sequence` and `channel:port`.
use vstd::prelude::*;

use crate::codec::{
    all_digits, dec_of_u64, dec_val, find_byte, lemma_dec_round_trip, lemma_find_first,
    lemma_find_mid, parse_dec, push_all, spec_dec, spec_find, subvec,
};
use crate::error::Error;

verus! {

/// A chain height: a pair of revision and height, ordered
/// lexicographically.
#[derive(Clone, Copy, Debug, PartialEq, Eq, Structural, Hash)]
pub struct Height {
    pub revision: u64,
    pub height: u64,
}

impl Height {
    pub open spec fn spec_lt(self, other: Height) -> bool {
        self.revision < other.revision
            || (self.revision == other.revision && self.height < other.height)
    }

    pub open spec fn spec_le(self, other: Height) -> bool {
        self.spec_lt(other) || self == other
    }

    pub fn new(revision: u64, height: u64) -> (r: Height)
        ensures
            r.revision == revision,
            r.height == height,
    {
        Height { revision, height }
    }

    /// Lexicographic strict order on (revision, height).
    pub fn lt(&self, other: &Height) -> (r: bool)
        ensures
            r == self.spec_lt(*other),
    {
        self.revision < other.revision
            || (self.revision == other.revision && self.height < other.height)
    }

    /// Lexicographic order on (revision, height), allowing equality.
    pub fn le(&self, other: &Height) -> (r: bool)
        ensures
            r == self.spec_le(*other),
    {
        self.revision < other.revision
            || (self.revision == other.revision && self.height <= other.height)
    }
}

/// Nanoseconds since the epoch; used only for timeout checks.
pub type Timestamp = u64;

/// Strictly increasing per-(port, channel) packet counter.
pub type Sequence = u64;

/// Identifiers are carried as opaque byte strings.
pub type ChainId = Vec<u8>;

pub type ClientId = Vec<u8>;

pub type ConnectionId = Vec<u8>;

pub type ChannelId = Vec<u8>;

pub type PortId = Vec<u8>;

/// Byte-string equality, the identifier comparison used throughout.
pub fn bytes_eq(a: &Vec<u8>, b: &Vec<u8>) -> (r: bool)
    ensures
        r == (a@ == b@),
{
    if a.len() != b.len() {
        assert(a@ != b@);
        return false;
    }
    let n = a.len();
    let mut i: usize = 0;
    while i < n
        invariant
            n == a@.len() == b@.len(),
            i <= n,
            forall|j: int| 0 <= j < i ==> a@[j] == b@[j],
        decreases n - i,
    {
        if a[i] != b[i] {
            assert(a@ != b@);
            return false;
        }
        i += 1;
    }
    assert(a@ =~= b@);
    true
}

/// The identifier alphabet: letters, digits, `-`, `.` and `_`.  It
/// excludes the separators `/` and `:` and the JSON metacharacters
/// `"` and `\`, so identifiers embed verbatim in every string form.
pub open spec fn is_id_byte(b: u8) -> bool {
    b == 0x2D || b == 0x2E || (0x30 <= b <= 0x39) || (0x41 <= b <= 0x5A) || b == 0x5F || (0x61 <= b
        <= 0x7A)
}

/// A well-formed identifier: non-empty, over the identifier alphabet.
pub open spec fn valid_id(s: Seq<u8>) -> bool {
    1 <= s.len() && forall|j: int| 0 <= j < s.len() ==> is_id_byte(s[j])
}

/// Runtime check for `valid_id`.
pub fn check_id(v: &Vec<u8>) -> (r: bool)
    ensures
        r == valid_id(v@),
{
    if v.len() == 0 {
        return false;
    }
    let n = v.len();
    let mut i: usize = 0;
    while i < n
        invariant
            0 < n == v@.len(),
            i <= n,
            forall|j: int| 0 <= j < i ==> is_id_byte(v@[j]),
        decreases n - i,
    {
        let b = v[i];
        let ok = b == 0x2D || b == 0x2E || (0x30 <= b && b <= 0x39) || (0x41 <= b && b <= 0x5A) || b
            == 0x5F || (0x61 <= b && b <= 0x7A);
        if !ok {
            assert(!is_id_byte(v@[i as int]));
            return false;
        }
        i += 1;
    }
    true
}

/// The address of a packet: `(port, channel, sequence)`.  Its stable
/// string form is `port/channel/sequence`, which appears as a map key
/// in persisted snapshots.
#[derive(Clone, Debug, PartialEq, Eq, Hash)]
pub struct PacketId {
    pub port_id: PortId,
    pub channel_id: ChannelId,
    pub sequence: Sequence,
}

impl PacketId {
    pub open spec fn wf(self) -> bool {
        valid_id(self.port_id@) && valid_id(self.channel_id@)
    }

    /// The canonical string form, as a byte sequence.
    pub open spec fn spec_encoded(self) -> Seq<u8> {
        self.port_id@ + seq![0x2Fu8] + self.channel_id@ + seq![0x2Fu8] + spec_dec(
            self.sequence as nat,
        )
    }

    /// Renders `port/channel/sequence`.
    pub fn encode(&self) -> (r: Vec<u8>)
        ensures
            r@ == self.spec_encoded(),
    {
        let mut r: Vec<u8> = Vec::new();
        push_all(&mut r, &self.port_id);
        r.push(0x2F);
        push_all(&mut r, &self.channel_id);
        r.push(0x2F);
        let digits = dec_of_u64(self.sequence);
        push_all(&mut r, &digits);
        assert(r@ =~= self.spec_encoded());
        r
    }

    /// Parses a `port/channel/sequence` string.  Succeeds exactly on
    /// the strings that decompose as two identifiers and a decimal
    /// sequence number; anything else is `MalformedPacketId`.
    pub fn parse(v: &Vec<u8>) -> (r: Result<PacketId, Error>)
        ensures
            r matches Ok(p) ==> packet_id_parses_to(v@, p),
            r is Err ==> (r matches Err(e) && e == Error::MalformedPacketId) && forall|
                p: PacketId,
                t: Seq<u8>,
            | !packet_id_decomp(v@, p, t),
    {
        let n = v.len();
        proof {
            assert(v@.subrange(0, n as int) =~= v@);
        }
        let i = match find_byte(v, 0, 0x2F) {
            Some(i) => i,
            None => {
                proof {
                    assert forall|p: PacketId, t: Seq<u8>| !packet_id_decomp(v@, p, t) by {
                        if packet_id_decomp(v@, p, t) {
                            lemma_packet_id_decomp_shape(v@, p, t);
                        }
                    }
                }
                return Err(Error::MalformedPacketId);
            },
        };
        proof {
            assert forall|p: PacketId, t: Seq<u8>| packet_id_decomp(v@, p, t) implies p.port_id@.len()
                == i by {
                lemma_packet_id_decomp_shape(v@, p, t);
            }
        }
        let j = match find_byte(v, i + 1, 0x2F) {
            Some(j) => j,
            None => {
                proof {
                    assert forall|p: PacketId, t: Seq<u8>| !packet_id_decomp(v@, p, t) by {
                        if packet_id_decomp(v@, p, t) {
                            lemma_packet_id_decomp_shape(v@, p, t);
                        }
                    }
                }
                return Err(Error::MalformedPacketId);
            },
        };
        proof {
            assert forall|p: PacketId, t: Seq<u8>| packet_id_decomp(v@, p, t) implies p.channel_id@.len()
                == j - (i + 1) by {
                lemma_packet_id_decomp_shape(v@, p, t);
            }
        }
        let port = subvec(v, 0, i);
        let chan = subvec(v, i + 1, j);
        let tail = subvec(v, j + 1, n);
        if !check_id(&port) {
            proof {
                assert forall|p: PacketId, t: Seq<u8>| !packet_id_decomp(v@, p, t) by {
                    if packet_id_decomp(v@, p, t) {
                        lemma_packet_id_decomp_shape(v@, p, t);
                        assert(p.port_id@ == port@);
                    }
                }
            }
            return Err(Error::MalformedPacketId);
        }
        if !check_id(&chan) {
            proof {
                assert forall|p: PacketId, t: Seq<u8>| !packet_id_decomp(v@, p, t) by {
                    if packet_id_decomp(v@, p, t) {
                        lemma_packet_id_decomp_shape(v@, p, t);
                        assert(p.channel_id@ == chan@);
                    }
                }
            }
            return Err(Error::MalformedPacketId);
        }
        match parse_dec(&tail) {
            Some(seq_no) => {
                let result = PacketId { port_id: port, channel_id: chan, sequence: seq_no };
                proof {
                    lemma_find_first(v@, 0x2F);
                    lemma_find_first(v@.subrange(i + 1, v@.len() as int), 0x2F);
                    assert(v@.subrange(i + 1, v@.len() as int)[j - (i + 1)] == v@[j as int]);
                    assert(v@[i as int] == 0x2F);
                    assert(v@[j as int] == 0x2F);
                    assert(v@ =~= result.port_id@ + seq![0x2Fu8] + result.channel_id@
                        + seq![0x2Fu8] + tail@);
                    assert(packet_id_decomp(v@, result, tail@));
                    assert(packet_id_parses_to(v@, result));
                }
                Ok(result)
            },
            None => {
                proof {
                    assert forall|p: PacketId, t: Seq<u8>| !packet_id_decomp(v@, p, t) by {
                        if packet_id_decomp(v@, p, t) {
                            lemma_packet_id_decomp_shape(v@, p, t);
                            assert(t == tail@);
                        }
                    }
                }
                Err(Error::MalformedPacketId)
            },
        }
    }
}

/// `s` parses as `p`: some decomposition of `s` yields `p`'s fields.
pub open spec fn packet_id_parses_to(s: Seq<u8>, p: PacketId) -> bool {
    exists|t: Seq<u8>| packet_id_decomp(s, p, t)
}

/// `s` splits as `port/channel/t` for the fields of `p`, with `t` a
/// decimal rendering of `p.sequence`.
pub open spec fn packet_id_decomp(s: Seq<u8>, p: PacketId, t: Seq<u8>) -> bool {
    &&& valid_id(p.port_id@)
    &&& valid_id(p.channel_id@)
    &&& t.len() >= 1
    &&& all_digits(t)
    &&& dec_val(t) <= u64::MAX
    &&& p.sequence == dec_val(t)
    &&& s == p.port_id@ + seq![0x2Fu8] + p.channel_id@ + seq![0x2Fu8] + t
}

/// A decomposition fixes where both separators stand and what every
/// part is: field recovery is unique.
pub proof fn lemma_packet_id_decomp_shape(s: Seq<u8>, p: PacketId, t: Seq<u8>)
    requires
        packet_id_decomp(s, p, t),
    ensures
        ({
            let i = p.port_id@.len() as int;
            let j = i + 1 + p.channel_id@.len();
            &&& spec_find(s, 0x2F) == Some(i)
            &&& j < s.len()
            &&& spec_find(s.subrange(i + 1, s.len() as int), 0x2F) == Some(
                p.channel_id@.len() as int,
            )
            &&& p.port_id@ == s.subrange(0, i)
            &&& p.channel_id@ == s.subrange(i + 1, j as int)
            &&& t == s.subrange(j + 1, s.len() as int)
        }),
{
    let a = p.port_id@;
    let b = p.channel_id@;
    let i = a.len() as int;
    let j = i + 1 + b.len();
    assert(s =~= a + seq![0x2Fu8] + (b + seq![0x2Fu8] + t));
    assert(forall|k: int| 0 <= k < a.len() ==> is_id_byte(a[k]) && a[k] != 0x2F);
    lemma_find_mid(a, 0x2F, b + seq![0x2Fu8] + t);
    assert(spec_find(s, 0x2F) == Some(i));
    let rest = s.subrange(i + 1, s.len() as int);
    assert(rest =~= b + seq![0x2Fu8] + t);
    assert(forall|k: int| 0 <= k < b.len() ==> is_id_byte(b[k]) && b[k] != 0x2F);
    lemma_find_mid(b, 0x2F, t);
    assert(spec_find(rest, 0x2F) == Some(b.len() as int));
    assert(p.port_id@ =~= s.subrange(0, i));
    assert(p.channel_id@ =~= s.subrange(i + 1, j as int));
    assert(t =~= s.subrange(j + 1, s.len() as int));
}

/// The canonical string form of a well-formed `PacketId` decomposes as
/// itself: encoding is left-inverted by parsing.
pub proof fn lemma_packet_id_encode_decomp(p: PacketId)
    requires
        p.wf(),
    ensures
        packet_id_decomp(p.spec_encoded(), p, spec_dec(p.sequence as nat)),
{
    lemma_dec_round_trip(p.sequence as nat);
}

/// Two decompositions of one string agree on every field: parsing is a
/// function, so `PacketId` round-trips through its string form.
pub proof fn lemma_packet_id_decomp_unique(s: Seq<u8>, p1: PacketId, t1: Seq<u8>, p2: PacketId, t2: Seq<u8>)
    requires
        packet_id_decomp(s, p1, t1),
        packet_id_decomp(s, p2, t2),
    ensures
        p1.port_id@ == p2.port_id@,
        p1.channel_id@ == p2.channel_id@,
        p1.sequence == p2.sequence,
{
    lemma_packet_id_decomp_shape(s, p1, t1);
    lemma_packet_id_decomp_shape(s, p2, t2);
}

/// A `(port, channel)` pair; its stable string form is
/// `channel:port`, the key form used for channel maps.
#[derive(Clone, Debug, PartialEq, Eq, Hash)]
pub struct PortChannelId {
    pub channel_id: ChannelId,
    pub port_id: PortId,
}

/// `s` splits as `channel:port` for the fields of `k`.
pub open spec fn port_channel_decomp(s: Seq<u8>, k: PortChannelId) -> bool {
    &&& valid_id(k.channel_id@)
    &&& valid_id(k.port_id@)
    &&& s == k.channel_id@ + seq![0x3Au8] + k.port_id@
}

pub proof fn lemma_port_channel_decomp_shape(s: Seq<u8>, k: PortChannelId)
    requires
        port_channel_decomp(s, k),
    ensures
        ({
            let i = k.channel_id@.len() as int;
            &&& spec_find(s, 0x3A) == Some(i)
            &&& i < s.len()
            &&& k.channel_id@ == s.subrange(0, i)
            &&& k.port_id@ == s.subrange(i + 1, s.len() as int)
        }),
{
    let a = k.channel_id@;
    let i = a.len() as int;
    assert(s =~= a + seq![0x3Au8] + k.port_id@);
    assert(forall|x: int| 0 <= x < a.len() ==> is_id_byte(a[x]) && a[x] != 0x3A);
    lemma_find_mid(a, 0x3A, k.port_id@);
    assert(k.channel_id@ =~= s.subrange(0, i));
    assert(k.port_id@ =~= s.subrange(i + 1, s.len() as int));
}

/// Two decompositions of one `channel:port` string agree on both
/// fields.
pub proof fn lemma_port_channel_decomp_unique(s: Seq<u8>, k1: PortChannelId, k2: PortChannelId)
    requires
        port_channel_decomp(s, k1),
        port_channel_decomp(s, k2),
    ensures
        k1.channel_id@ == k2.channel_id@,
        k1.port_id@ == k2.port_id@,
{
    lemma_port_channel_decomp_shape(s, k1);
    lemma_port_channel_decomp_shape(s, k2);
}

impl PortChannelId {
    pub open spec fn wf(self) -> bool {
        valid_id(self.channel_id@) && valid_id(self.port_id@)
    }

    pub open spec fn spec_encoded(self) -> Seq<u8> {
        self.channel_id@ + seq![0x3Au8] + self.port_id@
    }
}

/// A typed wrapper for values used as string-keyed map entries in the
/// persisted snapshot document.
#[derive(Clone, Debug, PartialEq, Eq, Hash)]
pub struct Key<A>(pub A);

impl Key<PortChannelId> {
    /// Renders `channel:port`.
    pub fn encode(&self) -> (r: Vec<u8>)
        ensures
            r@ == self.0.spec_encoded(),
    {
        let mut r: Vec<u8> = Vec::new();
        push_all(&mut r, &self.0.channel_id);
        r.push(0x3A);
        push_all(&mut r, &self.0.port_id);
        assert(r@ =~= self.0.spec_encoded());
        r
    }

    /// Parses a `channel:port` string.  Succeeds exactly on strings
    /// that split as two identifiers around one `:`.
    pub fn parse(v: &Vec<u8>) -> (r: Result<Key<PortChannelId>, Error>)
        ensures
            r matches Ok(k) ==> port_channel_decomp(v@, k.0),
            r is Err ==> (r matches Err(e) && e == Error::MalformedPortChannelId) && forall|
                k: PortChannelId,
            | !port_channel_decomp(v@, k),
    {
        let n = v.len();
        proof {
            assert(v@.subrange(0, n as int) =~= v@);
        }
        let i = match find_byte(v, 0, 0x3A) {
            Some(i) => i,
            None => {
                proof {
                    assert forall|k: PortChannelId| !port_channel_decomp(v@, k) by {
                        if port_channel_decomp(v@, k) {
                            lemma_port_channel_decomp_shape(v@, k);
                        }
                    }
                }
                return Err(Error::MalformedPortChannelId);
            },
        };
        proof {
            assert forall|k: PortChannelId| port_channel_decomp(v@, k) implies k.channel_id@.len()
                == i by {
                lemma_port_channel_decomp_shape(v@, k);
            }
        }
        let chan = subvec(v, 0, i);
        let port = subvec(v, i + 1, n);
        if !check_id(&chan) {
            proof {
                assert forall|k: PortChannelId| !port_channel_decomp(v@, k) by {
                    if port_channel_decomp(v@, k) {
                        lemma_port_channel_decomp_shape(v@, k);
                        assert(k.channel_id@ == chan@);
                    }
                }
            }
            return Err(Error::MalformedPortChannelId);
        }
        if !check_id(&port) {
            proof {
                assert forall|k: PortChannelId| !port_channel_decomp(v@, k) by {
                    if port_channel_decomp(v@, k) {
                        lemma_port_channel_decomp_shape(v@, k);
                        assert(k.port_id@ == port@);
                    }
                }
            }
            return Err(Error::MalformedPortChannelId);
        }
        proof {
            lemma_find_first(v@, 0x3A);
            assert(v@[i as int] == 0x3A);
            let k = PortChannelId { channel_id: chan, port_id: port };
            assert(v@ =~= k.channel_id@ + seq![0x3Au8] + k.port_id@);
        }
        Ok(Key(PortChannelId { channel_id: chan, port_id: port }))
    }
}

} // verus!
