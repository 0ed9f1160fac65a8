//! Light-client headers behind a tagged variant.  Each supported kind
//! round-trips through the `Any { type_url, value }` envelope; the
//! `type_url` discriminates the kind and unknown URLs yield a typed
//! error.  For diagnostics an envelope also round-trips through an
//! uppercase-hex string.
use vstd::prelude::*;

use crate::codec::{
    all_digits, dec_of_u64, dec_val, find_byte, hex_of, lemma_dec_round_trip, lemma_find_first,
    lemma_find_mid, lemma_hex_injective, parse_dec, parse_hex, push_all, spec_dec, spec_find,
    spec_hex, subvec,
};
use crate::error::Error;
use crate::ids::{Height, Timestamp};

verus! {

/// The client kinds this relayer understands.
#[derive(Clone, Copy, Debug, PartialEq, Eq, Structural)]
pub enum ClientType {
    Tendermint,
    Mock,
}

/// The consensus-state update information every header kind exposes.
pub trait Header {
    spec fn spec_client_type(&self) -> ClientType;

    spec fn spec_height(&self) -> Height;

    spec fn spec_timestamp(&self) -> Timestamp;

    /// The kind of client this header updates.
    fn client_type(&self) -> (r: ClientType)
        ensures
            r == self.spec_client_type(),
    ;

    /// The height of the consensus state.
    fn height(&self) -> (r: Height)
        ensures
            r == self.spec_height(),
    ;

    /// The timestamp of the consensus state.
    fn timestamp(&self) -> (r: Timestamp)
        ensures
            r == self.spec_timestamp(),
    ;
}

/// A header of the production BFT-light kind, modelled by the fields
/// the relay logic reads.
#[derive(Clone, Copy, Debug, PartialEq, Eq, Structural)]
pub struct TendermintHeader {
    pub height: Height,
    pub timestamp: Timestamp,
}

/// A header of the deterministic test kind.
#[derive(Clone, Copy, Debug, PartialEq, Eq, Structural)]
pub struct MockHeader {
    pub height: Height,
    pub timestamp: Timestamp,
}

impl Header for TendermintHeader {
    open spec fn spec_client_type(&self) -> ClientType {
        ClientType::Tendermint
    }

    open spec fn spec_height(&self) -> Height {
        self.height
    }

    open spec fn spec_timestamp(&self) -> Timestamp {
        self.timestamp
    }

    fn client_type(&self) -> ClientType {
        ClientType::Tendermint
    }

    fn height(&self) -> Height {
        self.height
    }

    fn timestamp(&self) -> Timestamp {
        self.timestamp
    }
}

impl Header for MockHeader {
    open spec fn spec_client_type(&self) -> ClientType {
        ClientType::Mock
    }

    open spec fn spec_height(&self) -> Height {
        self.height
    }

    open spec fn spec_timestamp(&self) -> Timestamp {
        self.timestamp
    }

    fn client_type(&self) -> ClientType {
        ClientType::Mock
    }

    fn height(&self) -> Height {
        self.height
    }

    fn timestamp(&self) -> Timestamp {
        self.timestamp
    }
}

/// A header of any supported kind.
#[derive(Clone, Copy, Debug, PartialEq, Eq, Structural)]
pub enum AnyHeader {
    Tendermint(TendermintHeader),
    Mock(MockHeader),
}

impl Header for AnyHeader {
    open spec fn spec_client_type(&self) -> ClientType {
        match self {
            AnyHeader::Tendermint(_) => ClientType::Tendermint,
            AnyHeader::Mock(_) => ClientType::Mock,
        }
    }

    open spec fn spec_height(&self) -> Height {
        match self {
            AnyHeader::Tendermint(h) => h.height,
            AnyHeader::Mock(h) => h.height,
        }
    }

    open spec fn spec_timestamp(&self) -> Timestamp {
        match self {
            AnyHeader::Tendermint(h) => h.timestamp,
            AnyHeader::Mock(h) => h.timestamp,
        }
    }

    fn client_type(&self) -> ClientType {
        match self {
            AnyHeader::Tendermint(_) => ClientType::Tendermint,
            AnyHeader::Mock(_) => ClientType::Mock,
        }
    }

    fn height(&self) -> Height {
        match self {
            AnyHeader::Tendermint(h) => h.height,
            AnyHeader::Mock(h) => h.height,
        }
    }

    fn timestamp(&self) -> Timestamp {
        match self {
            AnyHeader::Tendermint(h) => h.timestamp,
            AnyHeader::Mock(h) => h.timestamp,
        }
    }
}

/// Recovers the production-kind payload from a tagged header.
pub fn downcast_header(h: &AnyHeader) -> (r: Option<&TendermintHeader>)
    ensures
        match r {
            Some(t) => *h == AnyHeader::Tendermint(*t),
            None => h is Mock,
        },
{
    match h {
        AnyHeader::Tendermint(t) => Some(t),
        AnyHeader::Mock(_) => None,
    }
}

/// Recovers the test-kind payload from a tagged header.
pub fn downcast_mock_header(h: &AnyHeader) -> (r: Option<&MockHeader>)
    ensures
        match r {
            Some(t) => *h == AnyHeader::Mock(*t),
            None => h is Tendermint,
        },
{
    match h {
        AnyHeader::Tendermint(_) => None,
        AnyHeader::Mock(t) => Some(t),
    }
}

/// The protobuf-style envelope a header travels in.
#[derive(Clone, Debug, PartialEq, Eq)]
pub struct Any {
    pub type_url: Vec<u8>,
    pub value: Vec<u8>,
}

/// `/ibc.lightclients.tendermint.v1.Header`, as bytes.
pub open spec fn spec_tendermint_url() -> Seq<u8> {
    seq![
        0x2Fu8, 0x69, 0x62, 0x63, 0x2E, 0x6C, 0x69, 0x67, 0x68, 0x74, 0x63, 0x6C, 0x69, 0x65,
        0x6E, 0x74, 0x73, 0x2E, 0x74, 0x65, 0x6E, 0x64, 0x65, 0x72, 0x6D, 0x69, 0x6E, 0x74,
        0x2E, 0x76, 0x31, 0x2E, 0x48, 0x65, 0x61, 0x64, 0x65, 0x72,
    ]
}

/// `/ibc.mock.Header`, as bytes.
pub open spec fn spec_mock_url() -> Seq<u8> {
    seq![
        0x2Fu8, 0x69, 0x62, 0x63, 0x2E, 0x6D, 0x6F, 0x63, 0x6B, 0x2E, 0x48, 0x65, 0x61, 0x64,
        0x65, 0x72,
    ]
}

pub fn tendermint_header_type_url() -> (r: Vec<u8>)
    ensures
        r@ == spec_tendermint_url(),
{
    let mut r: Vec<u8> = Vec::new();
    r.push(0x2F);
    r.push(0x69);
    r.push(0x62);
    r.push(0x63);
    r.push(0x2E);
    r.push(0x6C);
    r.push(0x69);
    r.push(0x67);
    r.push(0x68);
    r.push(0x74);
    r.push(0x63);
    r.push(0x6C);
    r.push(0x69);
    r.push(0x65);
    r.push(0x6E);
    r.push(0x74);
    r.push(0x73);
    r.push(0x2E);
    r.push(0x74);
    r.push(0x65);
    r.push(0x6E);
    r.push(0x64);
    r.push(0x65);
    r.push(0x72);
    r.push(0x6D);
    r.push(0x69);
    r.push(0x6E);
    r.push(0x74);
    r.push(0x2E);
    r.push(0x76);
    r.push(0x31);
    r.push(0x2E);
    r.push(0x48);
    r.push(0x65);
    r.push(0x61);
    r.push(0x64);
    r.push(0x65);
    r.push(0x72);
    assert(r@ =~= spec_tendermint_url());
    r
}

pub fn mock_header_type_url() -> (r: Vec<u8>)
    ensures
        r@ == spec_mock_url(),
{
    let mut r: Vec<u8> = Vec::new();
    r.push(0x2F);
    r.push(0x69);
    r.push(0x62);
    r.push(0x63);
    r.push(0x2E);
    r.push(0x6D);
    r.push(0x6F);
    r.push(0x63);
    r.push(0x6B);
    r.push(0x2E);
    r.push(0x48);
    r.push(0x65);
    r.push(0x61);
    r.push(0x64);
    r.push(0x65);
    r.push(0x72);
    assert(r@ =~= spec_mock_url());
    r
}

/// The envelope payload: `revision/height/timestamp`, each in decimal.
pub open spec fn spec_payload(rev: u64, h: u64, ts: u64) -> Seq<u8> {
    spec_dec(rev as nat) + seq![0x2Fu8] + spec_dec(h as nat) + seq![0x2Fu8] + spec_dec(ts as nat)
}

/// `s` splits as three decimal runs separated by `/`, valued
/// `(rev, h, ts)`.
pub open spec fn payload_decomp(s: Seq<u8>, rev: u64, h: u64, ts: u64, a: Seq<u8>, b: Seq<u8>, c: Seq<u8>) -> bool {
    &&& a.len() >= 1 && all_digits(a) && dec_val(a) <= u64::MAX && rev == dec_val(a)
    &&& b.len() >= 1 && all_digits(b) && dec_val(b) <= u64::MAX && h == dec_val(b)
    &&& c.len() >= 1 && all_digits(c) && dec_val(c) <= u64::MAX && ts == dec_val(c)
    &&& s == a + seq![0x2Fu8] + b + seq![0x2Fu8] + c
}

pub open spec fn payload_parses_to(s: Seq<u8>, rev: u64, h: u64, ts: u64) -> bool {
    exists|a: Seq<u8>, b: Seq<u8>, c: Seq<u8>| payload_decomp(s, rev, h, ts, a, b, c)
}

/// A payload decomposition fixes both separators and all three runs.
pub proof fn lemma_payload_decomp_shape(s: Seq<u8>, rev: u64, h: u64, ts: u64, a: Seq<u8>, b: Seq<u8>, c: Seq<u8>)
    requires
        payload_decomp(s, rev, h, ts, a, b, c),
    ensures
        ({
            let i = a.len() as int;
            let j = i + 1 + b.len();
            &&& spec_find(s, 0x2F) == Some(i)
            &&& j < s.len()
            &&& spec_find(s.subrange(i + 1, s.len() as int), 0x2F) == Some(b.len() as int)
            &&& a == s.subrange(0, i)
            &&& b == s.subrange(i + 1, j as int)
            &&& c == s.subrange(j + 1, s.len() as int)
        }),
{
    let i = a.len() as int;
    let j = i + 1 + b.len();
    assert(s =~= a + seq![0x2Fu8] + (b + seq![0x2Fu8] + c));
    assert(forall|k: int| 0 <= k < a.len() ==> all_digits(a) && a[k] != 0x2F);
    lemma_find_mid(a, 0x2F, b + seq![0x2Fu8] + c);
    let rest = s.subrange(i + 1, s.len() as int);
    assert(rest =~= b + seq![0x2Fu8] + c);
    assert(forall|k: int| 0 <= k < b.len() ==> all_digits(b) && b[k] != 0x2F);
    lemma_find_mid(b, 0x2F, c);
    assert(a =~= s.subrange(0, i));
    assert(b =~= s.subrange(i + 1, j as int));
    assert(c =~= s.subrange(j + 1, s.len() as int));
}

/// The canonical payload of `(rev, h, ts)` decomposes as exactly those
/// values.
pub proof fn lemma_payload_round_trip(rev: u64, h: u64, ts: u64)
    ensures
        payload_parses_to(spec_payload(rev, h, ts), rev, h, ts),
{
    lemma_dec_round_trip(rev as nat);
    lemma_dec_round_trip(h as nat);
    lemma_dec_round_trip(ts as nat);
    assert(payload_decomp(
        spec_payload(rev, h, ts),
        rev,
        h,
        ts,
        spec_dec(rev as nat),
        spec_dec(h as nat),
        spec_dec(ts as nat),
    ));
}

/// One payload string parses to at most one value triple.
pub proof fn lemma_payload_unique(s: Seq<u8>, r1: u64, h1: u64, t1: u64, r2: u64, h2: u64, t2: u64)
    requires
        payload_parses_to(s, r1, h1, t1),
        payload_parses_to(s, r2, h2, t2),
    ensures
        r1 == r2,
        h1 == h2,
        t1 == t2,
{
    let (a1, b1, c1) = choose|a: Seq<u8>, b: Seq<u8>, c: Seq<u8>| payload_decomp(s, r1, h1, t1, a, b, c);
    let (a2, b2, c2) = choose|a: Seq<u8>, b: Seq<u8>, c: Seq<u8>| payload_decomp(s, r2, h2, t2, a, b, c);
    lemma_payload_decomp_shape(s, r1, h1, t1, a1, b1, c1);
    lemma_payload_decomp_shape(s, r2, h2, t2, a2, b2, c2);
}

/// Renders `revision/height/timestamp`.
fn encode_payload(rev: u64, h: u64, ts: u64) -> (r: Vec<u8>)
    ensures
        r@ == spec_payload(rev, h, ts),
{
    let mut r = dec_of_u64(rev);
    r.push(0x2F);
    let hb = dec_of_u64(h);
    push_all(&mut r, &hb);
    r.push(0x2F);
    let tb = dec_of_u64(ts);
    push_all(&mut r, &tb);
    assert(r@ =~= spec_payload(rev, h, ts));
    r
}

/// Parses `revision/height/timestamp`.
fn parse_payload(v: &Vec<u8>) -> (r: Option<(u64, u64, u64)>)
    ensures
        r matches Some(x) ==> payload_parses_to(v@, x.0, x.1, x.2),
        r is None ==> forall|rev: u64, h: u64, ts: u64| !payload_parses_to(v@, rev, h, ts),
{
    let n = v.len();
    proof {
        assert(v@.subrange(0, n as int) =~= v@);
    }
    let i = match find_byte(v, 0, 0x2F) {
        Some(i) => i,
        None => {
            proof {
                assert forall|rev: u64, h: u64, ts: u64| !payload_parses_to(v@, rev, h, ts) by {
                    if payload_parses_to(v@, rev, h, ts) {
                        let (a, b, c) = choose|a: Seq<u8>, b: Seq<u8>, c: Seq<u8>|
                            payload_decomp(v@, rev, h, ts, a, b, c);
                        lemma_payload_decomp_shape(v@, rev, h, ts, a, b, c);
                    }
                }
            }
            return None;
        },
    };
    let j = match find_byte(v, i + 1, 0x2F) {
        Some(j) => j,
        None => {
            proof {
                assert forall|rev: u64, h: u64, ts: u64| !payload_parses_to(v@, rev, h, ts) by {
                    if payload_parses_to(v@, rev, h, ts) {
                        let (a, b, c) = choose|a: Seq<u8>, b: Seq<u8>, c: Seq<u8>|
                            payload_decomp(v@, rev, h, ts, a, b, c);
                        lemma_payload_decomp_shape(v@, rev, h, ts, a, b, c);
                    }
                }
            }
            return None;
        },
    };
    let pa = subvec(v, 0, i);
    let pb = subvec(v, i + 1, j);
    let pc = subvec(v, j + 1, n);
    proof {
        assert forall|rev: u64, h: u64, ts: u64| payload_parses_to(v@, rev, h, ts) implies {
            let (a, b, c) = choose|a: Seq<u8>, b: Seq<u8>, c: Seq<u8>|
                payload_decomp(v@, rev, h, ts, a, b, c);
            a == pa@ && b == pb@ && c == pc@
        } by {
            let (a, b, c) = choose|a: Seq<u8>, b: Seq<u8>, c: Seq<u8>|
                payload_decomp(v@, rev, h, ts, a, b, c);
            lemma_payload_decomp_shape(v@, rev, h, ts, a, b, c);
        }
    }
    let rev = match parse_dec(&pa) {
        Some(x) => x,
        None => {
            proof {
                assert forall|rev: u64, h: u64, ts: u64| !payload_parses_to(v@, rev, h, ts) by {
                    if payload_parses_to(v@, rev, h, ts) {
                        let (a, b, c) = choose|a: Seq<u8>, b: Seq<u8>, c: Seq<u8>|
                            payload_decomp(v@, rev, h, ts, a, b, c);
                        lemma_payload_decomp_shape(v@, rev, h, ts, a, b, c);
                    }
                }
            }
            return None;
        },
    };
    let h = match parse_dec(&pb) {
        Some(x) => x,
        None => {
            proof {
                assert forall|rev: u64, h: u64, ts: u64| !payload_parses_to(v@, rev, h, ts) by {
                    if payload_parses_to(v@, rev, h, ts) {
                        let (a, b, c) = choose|a: Seq<u8>, b: Seq<u8>, c: Seq<u8>|
                            payload_decomp(v@, rev, h, ts, a, b, c);
                        lemma_payload_decomp_shape(v@, rev, h, ts, a, b, c);
                    }
                }
            }
            return None;
        },
    };
    let ts = match parse_dec(&pc) {
        Some(x) => x,
        None => {
            proof {
                assert forall|rev: u64, h: u64, ts: u64| !payload_parses_to(v@, rev, h, ts) by {
                    if payload_parses_to(v@, rev, h, ts) {
                        let (a, b, c) = choose|a: Seq<u8>, b: Seq<u8>, c: Seq<u8>|
                            payload_decomp(v@, rev, h, ts, a, b, c);
                        lemma_payload_decomp_shape(v@, rev, h, ts, a, b, c);
                    }
                }
            }
            return None;
        },
    };
    proof {
        lemma_find_first(v@, 0x2F);
        lemma_find_first(v@.subrange(i + 1, v@.len() as int), 0x2F);
        assert(v@.subrange(i + 1, v@.len() as int)[j - (i + 1)] == v@[j as int]);
        assert(v@[i as int] == 0x2F);
        assert(v@[j as int] == 0x2F);
        assert(v@ =~= pa@ + seq![0x2Fu8] + pb@ + seq![0x2Fu8] + pc@);
        assert(payload_decomp(v@, rev, h, ts, pa@, pb@, pc@));
    }
    Some((rev, h, ts))
}

impl AnyHeader {
    /// The payload triple the envelope carries for this header.
    pub open spec fn spec_fields(self) -> (u64, u64, u64) {
        match self {
            AnyHeader::Tendermint(t) => (t.height.revision, t.height.height, t.timestamp),
            AnyHeader::Mock(m) => (m.height.revision, m.height.height, m.timestamp),
        }
    }

    /// The `type_url` this header's kind is tagged with.
    pub open spec fn spec_url(self) -> Seq<u8> {
        match self {
            AnyHeader::Tendermint(_) => spec_tendermint_url(),
            AnyHeader::Mock(_) => spec_mock_url(),
        }
    }

    /// Wraps the header in its `Any` envelope.
    pub fn into_any(&self) -> (r: Any)
        ensures
            r.type_url@ == self.spec_url(),
            r.value@ == spec_payload(
                self.spec_fields().0,
                self.spec_fields().1,
                self.spec_fields().2,
            ),
    {
        match self {
            AnyHeader::Tendermint(t) => Any {
                type_url: tendermint_header_type_url(),
                value: encode_payload(t.height.revision, t.height.height, t.timestamp),
            },
            AnyHeader::Mock(m) => Any {
                type_url: mock_header_type_url(),
                value: encode_payload(m.height.revision, m.height.height, m.timestamp),
            },
        }
    }

    /// Unwraps an `Any` envelope, dispatching on its `type_url`.
    /// A known URL with a malformed payload is `InvalidRawHeader`; an
    /// unknown URL is `UnknownHeaderType` carrying that URL.
    pub fn try_from_any(raw: &Any) -> (r: Result<AnyHeader, Error>)
        ensures
            raw.type_url@ == spec_tendermint_url() ==> match r {
                Ok(x) => x is Tendermint && payload_parses_to(
                    raw.value@,
                    x.spec_fields().0,
                    x.spec_fields().1,
                    x.spec_fields().2,
                ),
                Err(e) => e == Error::InvalidRawHeader && forall|rev: u64, h: u64, ts: u64|
                    !payload_parses_to(raw.value@, rev, h, ts),
            },
            raw.type_url@ != spec_tendermint_url() && raw.type_url@ == spec_mock_url() ==> match r {
                Ok(x) => x is Mock && payload_parses_to(
                    raw.value@,
                    x.spec_fields().0,
                    x.spec_fields().1,
                    x.spec_fields().2,
                ),
                Err(e) => e == Error::InvalidRawHeader && forall|rev: u64, h: u64, ts: u64|
                    !payload_parses_to(raw.value@, rev, h, ts),
            },
            raw.type_url@ != spec_tendermint_url() && raw.type_url@ != spec_mock_url() ==> (
            r matches Err(e) && e matches Error::UnknownHeaderType { type_url } && type_url@
                == raw.type_url@),
    {
        let tm = tendermint_header_type_url();
        let mk = mock_header_type_url();
        if crate::ids::bytes_eq(&raw.type_url, &tm) {
            match parse_payload(&raw.value) {
                Some((rev, h, ts)) => Ok(
                    AnyHeader::Tendermint(
                        TendermintHeader {
                            height: Height { revision: rev, height: h },
                            timestamp: ts,
                        },
                    ),
                ),
                None => Err(Error::InvalidRawHeader),
            }
        } else if crate::ids::bytes_eq(&raw.type_url, &mk) {
            match parse_payload(&raw.value) {
                Some((rev, h, ts)) => Ok(
                    AnyHeader::Mock(
                        MockHeader { height: Height { revision: rev, height: h }, timestamp: ts },
                    ),
                ),
                None => Err(Error::InvalidRawHeader),
            }
        } else {
            let url = subvec(&raw.type_url, 0, raw.type_url.len());
            proof {
                assert(url@ =~= raw.type_url@);
            }
            Err(Error::UnknownHeaderType { type_url: url })
        }
    }
}

/// The byte form an envelope travels in for diagnostics: the URL
/// length in decimal, a colon, the URL, then the payload.
pub open spec fn spec_envelope(url: Seq<u8>, val: Seq<u8>) -> Seq<u8> {
    spec_dec(url.len() as nat) + seq![0x3Au8] + url + val
}

/// The length prefix fixes where the URL ends: an envelope string
/// decomposes in exactly one way.
pub proof fn lemma_envelope_shape(s: Seq<u8>, url: Seq<u8>, val: Seq<u8>)
    requires
        s == spec_envelope(url, val),
    ensures
        ({
            let p = spec_dec(url.len() as nat);
            &&& p.len() >= 1 && all_digits(p) && dec_val(p) == url.len()
            &&& spec_find(s, 0x3A) == Some(p.len() as int)
            &&& p == s.subrange(0, p.len() as int)
            &&& p.len() + 1 + url.len() <= s.len()
            &&& url == s.subrange(p.len() as int + 1, p.len() + 1 + url.len() as int)
            &&& val == s.subrange(p.len() + 1 + url.len() as int, s.len() as int)
        }),
{
    lemma_dec_round_trip(url.len() as nat);
    let p = spec_dec(url.len() as nat);
    assert(s =~= p + seq![0x3Au8] + (url + val));
    assert(forall|k: int| 0 <= k < p.len() ==> all_digits(p) && p[k] != 0x3A);
    lemma_find_mid(p, 0x3A, url + val);
    assert(p =~= s.subrange(0, p.len() as int));
    assert(url =~= s.subrange(p.len() as int + 1, p.len() + 1 + url.len() as int));
    assert(val =~= s.subrange(p.len() + 1 + url.len() as int, s.len() as int));
}

impl AnyHeader {
    /// The canonical uppercase-hex string form of this header's
    /// envelope.
    pub open spec fn spec_string_form(self) -> Seq<u8> {
        spec_hex(
            spec_envelope(
                self.spec_url(),
                spec_payload(self.spec_fields().0, self.spec_fields().1, self.spec_fields().2),
            ),
        )
    }

    /// Renders the envelope as an uppercase-hex string.
    pub fn encode_to_string(&self) -> (r: Vec<u8>)
        ensures
            r@ == self.spec_string_form(),
    {
        let any = self.into_any();
        let mut env = dec_of_u64(any.type_url.len() as u64);
        env.push(0x3A);
        push_all(&mut env, &any.type_url);
        push_all(&mut env, &any.value);
        proof {
            assert(env@ =~= spec_envelope(any.type_url@, any.value@));
        }
        hex_of(&env)
    }

    /// Decodes an uppercase-hex envelope string.  On the string form
    /// of any supported header it returns exactly that header;
    /// malformed hex is `BadHex`, a damaged envelope is
    /// `InvalidRawHeader`, and an unknown URL is `UnknownHeaderType`.
    pub fn decode_from_string(s: &Vec<u8>) -> (r: Result<AnyHeader, Error>)
        ensures
            forall|h0: AnyHeader| s@ == h0.spec_string_form() ==> r == Ok::<AnyHeader, Error>(h0),
            r matches Ok(x) ==> exists|val: Seq<u8>|
                s@ == spec_hex(spec_envelope(x.spec_url(), val)) && payload_parses_to(
                    val,
                    x.spec_fields().0,
                    x.spec_fields().1,
                    x.spec_fields().2,
                ),
    {
        let bytes = match parse_hex(s) {
            Some(b) => b,
            None => {
                proof {
                    assert forall|h0: AnyHeader| s@ != h0.spec_string_form() by {}
                }
                return Err(Error::BadHex);
            },
        };
        proof {
            assert forall|h0: AnyHeader| s@ == h0.spec_string_form() implies bytes@
                == spec_envelope(
                h0.spec_url(),
                spec_payload(h0.spec_fields().0, h0.spec_fields().1, h0.spec_fields().2),
            ) by {
                lemma_hex_injective(
                    bytes@,
                    spec_envelope(
                        h0.spec_url(),
                        spec_payload(h0.spec_fields().0, h0.spec_fields().1, h0.spec_fields().2),
                    ),
                );
            }
        }
        let out = Self::decode_envelope(&bytes);
        proof {
            if out is Ok {
                let x = out->Ok_0;
                let val = choose|val: Seq<u8>|
                    bytes@ == spec_envelope(x.spec_url(), val) && payload_parses_to(
                        val,
                        x.spec_fields().0,
                        x.spec_fields().1,
                        x.spec_fields().2,
                    );
                assert(s@ == spec_hex(spec_envelope(x.spec_url(), val)) && payload_parses_to(
                    val,
                    x.spec_fields().0,
                    x.spec_fields().1,
                    x.spec_fields().2,
                ));
            }
        }
        out
    }

    /// Splits a raw envelope into its `Any` parts and dispatches on
    /// the URL.
    fn decode_envelope(bytes: &Vec<u8>) -> (r: Result<AnyHeader, Error>)
        ensures
            forall|h0: AnyHeader|
                bytes@ == spec_envelope(
                    h0.spec_url(),
                    spec_payload(h0.spec_fields().0, h0.spec_fields().1, h0.spec_fields().2),
                ) ==> r == Ok::<AnyHeader, Error>(h0),
            r matches Ok(x) ==> exists|val: Seq<u8>|
                bytes@ == spec_envelope(x.spec_url(), val) && payload_parses_to(
                    val,
                    x.spec_fields().0,
                    x.spec_fields().1,
                    x.spec_fields().2,
                ),
    {
        let n = bytes.len();
        proof {
            assert(bytes@.subrange(0, n as int) =~= bytes@);
        }
        let i = match find_byte(bytes, 0, 0x3A) {
            Some(i) => i,
            None => {
                proof {
                    assert forall|h0: AnyHeader|
                        bytes@ != spec_envelope(
                            h0.spec_url(),
                            spec_payload(
                                h0.spec_fields().0,
                                h0.spec_fields().1,
                                h0.spec_fields().2,
                            ),
                        ) by {
                        if bytes@ == spec_envelope(
                            h0.spec_url(),
                            spec_payload(
                                h0.spec_fields().0,
                                h0.spec_fields().1,
                                h0.spec_fields().2,
                            ),
                        ) {
                            lemma_envelope_shape(
                                bytes@,
                                h0.spec_url(),
                                spec_payload(
                                    h0.spec_fields().0,
                                    h0.spec_fields().1,
                                    h0.spec_fields().2,
                                ),
                            );
                        }
                    }
                }
                return Err(Error::InvalidRawHeader);
            },
        };
        let prefix = subvec(bytes, 0, i);
        proof {
            assert forall|h0: AnyHeader|
                bytes@ == spec_envelope(
                    h0.spec_url(),
                    spec_payload(h0.spec_fields().0, h0.spec_fields().1, h0.spec_fields().2),
                ) implies prefix@ == spec_dec(h0.spec_url().len() as nat) by {
                lemma_envelope_shape(
                    bytes@,
                    h0.spec_url(),
                    spec_payload(h0.spec_fields().0, h0.spec_fields().1, h0.spec_fields().2),
                );
            }
        }
        let url_len = match parse_dec(&prefix) {
            Some(x) => x,
            None => {
                proof {
                    assert forall|h0: AnyHeader|
                        bytes@ != spec_envelope(
                            h0.spec_url(),
                            spec_payload(
                                h0.spec_fields().0,
                                h0.spec_fields().1,
                                h0.spec_fields().2,
                            ),
                        ) by {
                        if bytes@ == spec_envelope(
                            h0.spec_url(),
                            spec_payload(
                                h0.spec_fields().0,
                                h0.spec_fields().1,
                                h0.spec_fields().2,
                            ),
                        ) {
                            lemma_dec_round_trip(h0.spec_url().len() as nat);
                        }
                    }
                }
                return Err(Error::InvalidRawHeader);
            },
        };
        let canon = dec_of_u64(url_len);
        if !crate::ids::bytes_eq(&prefix, &canon) {
            proof {
                assert forall|h0: AnyHeader|
                    bytes@ != spec_envelope(
                        h0.spec_url(),
                        spec_payload(h0.spec_fields().0, h0.spec_fields().1, h0.spec_fields().2),
                    ) by {
                    if bytes@ == spec_envelope(
                        h0.spec_url(),
                        spec_payload(h0.spec_fields().0, h0.spec_fields().1, h0.spec_fields().2),
                    ) {
                        lemma_dec_round_trip(h0.spec_url().len() as nat);
                    }
                }
            }
            return Err(Error::InvalidRawHeader);
        }
        let rest_len = n - i - 1;
        if url_len > rest_len as u64 {
            proof {
                assert forall|h0: AnyHeader|
                    bytes@ != spec_envelope(
                        h0.spec_url(),
                        spec_payload(h0.spec_fields().0, h0.spec_fields().1, h0.spec_fields().2),
                    ) by {
                    if bytes@ == spec_envelope(
                        h0.spec_url(),
                        spec_payload(h0.spec_fields().0, h0.spec_fields().1, h0.spec_fields().2),
                    ) {
                        lemma_envelope_shape(
                            bytes@,
                            h0.spec_url(),
                            spec_payload(
                                h0.spec_fields().0,
                                h0.spec_fields().1,
                                h0.spec_fields().2,
                            ),
                        );
                        lemma_dec_round_trip(h0.spec_url().len() as nat);
                    }
                }
            }
            return Err(Error::InvalidRawHeader);
        }
        let url_end = i + 1 + url_len as usize;
        let url = subvec(bytes, i + 1, url_end);
        let val = subvec(bytes, url_end, n);
        proof {
            assert forall|h0: AnyHeader|
                bytes@ == spec_envelope(
                    h0.spec_url(),
                    spec_payload(h0.spec_fields().0, h0.spec_fields().1, h0.spec_fields().2),
                ) implies url@ == h0.spec_url() && val@ == spec_payload(
                h0.spec_fields().0,
                h0.spec_fields().1,
                h0.spec_fields().2,
            ) by {
                lemma_envelope_shape(
                    bytes@,
                    h0.spec_url(),
                    spec_payload(h0.spec_fields().0, h0.spec_fields().1, h0.spec_fields().2),
                );
                lemma_dec_round_trip(h0.spec_url().len() as nat);
            }
        }
        let any = Any { type_url: url, value: val };
        let out = Self::try_from_any(&any);
        proof {
            lemma_find_first(bytes@, 0x3A);
            assert(bytes@[i as int] == 0x3A);
            assert(bytes@ =~= prefix@ + seq![0x3Au8] + any.type_url@ + any.value@);
            assert forall|h0: AnyHeader|
                bytes@ == spec_envelope(
                    h0.spec_url(),
                    spec_payload(h0.spec_fields().0, h0.spec_fields().1, h0.spec_fields().2),
                ) implies out == Ok::<AnyHeader, Error>(h0) by {
                lemma_payload_round_trip(
                    h0.spec_fields().0,
                    h0.spec_fields().1,
                    h0.spec_fields().2,
                );
                assert(spec_tendermint_url().len() != spec_mock_url().len());
                match out {
                    Ok(x) => {
                        assert(x.spec_client_type() == h0.spec_client_type());
                        lemma_any_header_round_trip(h0, x);
                    },
                    Err(_) => {
                        assert(false);
                    },
                }
            }
            if out is Ok {
                let x = out->Ok_0;
                assert(any.type_url@ == spec_tendermint_url() || any.type_url@ == spec_mock_url());
                assert(any.type_url@ == x.spec_url());
                assert(x.spec_url().len() == url_len);
                assert(prefix@ == spec_dec(x.spec_url().len() as nat));
                assert(bytes@ == spec_envelope(x.spec_url(), any.value@));
                assert(payload_parses_to(
                    any.value@,
                    x.spec_fields().0,
                    x.spec_fields().1,
                    x.spec_fields().2,
                ));
            }
        }
        out
    }
}

/// Decoding the envelope of any supported header yields that header
/// back: `AnyHeader` to `Any` and back is the identity.
pub proof fn lemma_any_header_round_trip(h: AnyHeader, x: AnyHeader)
    requires
        x.spec_client_type() == h.spec_client_type(),
        payload_parses_to(
            spec_payload(h.spec_fields().0, h.spec_fields().1, h.spec_fields().2),
            x.spec_fields().0,
            x.spec_fields().1,
            x.spec_fields().2,
        ),
    ensures
        x == h,
{
    lemma_payload_round_trip(h.spec_fields().0, h.spec_fields().1, h.spec_fields().2);
    lemma_payload_unique(
        spec_payload(h.spec_fields().0, h.spec_fields().1, h.spec_fields().2),
        x.spec_fields().0,
        x.spec_fields().1,
        x.spec_fields().2,
        h.spec_fields().0,
        h.spec_fields().1,
        h.spec_fields().2,
    );
}

} // verus!
