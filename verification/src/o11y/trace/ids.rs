//! Trace and span identifiers, their lowercase hex form, and the generator that draws them.

use vstd::prelude::*;

use crate::text::hex_fixed;

verus! {

/// Whether every byte of `bytes` is zero: the one identifier the W3C trace-context specification reserves as
/// invalid.
pub open spec fn all_zero(bytes: Seq<u8>) -> bool {
    forall|i: int| 0 <= i < bytes.len() ==> bytes[i] == 0
}

/// A 16-byte trace identifier, shared by every span and log record in one trace.
#[derive(Debug, Clone, Copy)]
pub struct TraceId(pub [u8; 16]);

/// An 8-byte span identifier, unique within a trace.
#[derive(Debug, Clone, Copy)]
pub struct SpanId(pub [u8; 8]);

/// The lowercase hex form of `bytes`: two digits per byte, most significant first, as `hex::encode` writes it.
pub open spec fn hex_text(bytes: Seq<u8>) -> Seq<char>
    decreases bytes.len(),
{
    if bytes.len() == 0 {
        Seq::empty()
    } else {
        hex_text(bytes.drop_last()) + hex_fixed(bytes.last() as nat, 2)
    }
}

/// `hex::encode`: the lowercase hex digits of `bytes`, two per byte, most significant first.
#[verifier::external_body]
pub(crate) fn hex_encode(bytes: &[u8]) -> (s: String)
    ensures
        s@ == hex_text(bytes@),
{
    hex::encode(bytes)
}

impl TraceId {
    /// The lowercase hex form OTLP/JSON requires — hex here, **not** the base64 OTLP/JSON uses for other `bytes`
    /// fields; a collector silently rejects the payload if this is got wrong.
    pub fn to_hex(&self) -> (s: String)
        ensures
            s@ == hex_text(self.0@),
    {
        hex_encode(self.0.as_slice())
    }

    /// Whether two trace ids are the same bytes.
    pub fn same(&self, other: &TraceId) -> (r: bool)
        ensures
            r == (self.0@ == other.0@),
    {
        same_bytes(self.0.as_slice(), other.0.as_slice())
    }
}

impl SpanId {
    /// The lowercase hex form OTLP/JSON requires. See [`TraceId::to_hex`].
    pub fn to_hex(&self) -> (s: String)
        ensures
            s@ == hex_text(self.0@),
    {
        hex_encode(self.0.as_slice())
    }

    /// Whether two span ids are the same bytes.
    pub fn same(&self, other: &SpanId) -> (r: bool)
        ensures
            r == (self.0@ == other.0@),
    {
        same_bytes(self.0.as_slice(), other.0.as_slice())
    }
}

/// Whether two byte strings are equal.
pub fn same_bytes(a: &[u8], b: &[u8]) -> (r: bool)
    ensures
        r == (a@ == b@),
{
    if a.len() != b.len() {
        return false;
    }
    let mut i: usize = 0;
    while i < a.len()
        invariant
            a@.len() == b@.len(),
            i <= a@.len(),
            forall|k: int| 0 <= k < i ==> a@[k] == b@[k],
        decreases a@.len() - i,
    {
        if a[i] != b[i] {
            return false;
        }
        i += 1;
    }
    assert(a@ =~= b@);
    true
}

/// Whether every byte of `bytes` is zero.
pub fn is_all_zero(bytes: &[u8]) -> (r: bool)
    ensures
        r == all_zero(bytes@),
{
    let mut i: usize = 0;
    while i < bytes.len()
        invariant
            i <= bytes@.len(),
            forall|k: int| 0 <= k < i ==> bytes@[k] == 0,
        decreases bytes@.len() - i,
    {
        if bytes[i] != 0 {
            return false;
        }
        i += 1;
    }
    true
}

/// The state a generator seeded from zero starts in instead: xorshift cannot leave zero, so zero is never a state.
pub const SEED_FALLBACK: u64 = 0x9e37_79b9_7f4a_7c15;

/// The odd constant xorshift64\* multiplies its output by.
pub const SCRAMBLE: u64 = 0x2545_F491_4F6C_DD1D;

/// One xorshift64 step.
pub open spec fn xorshift(x: u64) -> u64 {
    let a = x ^ (x >> 12u64);
    let b = a ^ (a << 25u64);
    b ^ (b >> 27u64)
}

/// The value xorshift64\* reports for the state `x`.
pub open spec fn scrambled(x: u64) -> u64 {
    ((x as nat * SCRAMBLE as nat) % 0x1_0000_0000_0000_0000) as u64
}

/// The little-endian bytes of `x`.
pub open spec fn le_bytes(x: u64) -> Seq<u8> {
    vstd::bytes::spec_u64_to_le_bytes(x)
}

/// An xorshift step never reaches zero from a state that is not zero.
proof fn lemma_xorshift_nonzero(x: u64)
    requires
        x != 0,
    ensures
        xorshift(x) != 0,
{
    let a = x ^ (x >> 12u64);
    assert(x != 0 ==> a != 0) by (bit_vector)
        requires
            a == x ^ (x >> 12u64),
    ;
    let b = a ^ (a << 25u64);
    assert(a != 0 ==> b != 0) by (bit_vector)
        requires
            b == a ^ (a << 25u64),
    ;
    let c = b ^ (b >> 27u64);
    assert(b != 0 ==> c != 0) by (bit_vector)
        requires
            c == b ^ (b >> 27u64),
    ;
}

/// Multiplying by the odd [`SCRAMBLE`] constant, modulo 2^64, never turns a value that is not zero into zero: the
/// constant has an inverse modulo 2^64.
proof fn lemma_scrambled_nonzero(x: u64)
    requires
        x != 0,
    ensures
        scrambled(x) != 0,
{
    let m: int = 0x1_0000_0000_0000_0000;
    let c: int = SCRAMBLE as int;
    let inverse: int = 0x59071d96d81ecd35;
    let k: int = 934034299265436267;
    assert(c * inverse == 1 + k * m);
    let xi = x as int;
    vstd::arithmetic::div_mod::lemma_mul_mod_noop_left(xi * c, inverse, m);
    vstd::arithmetic::mul::lemma_mul_is_associative(xi, c, inverse);
    vstd::arithmetic::mul::lemma_mul_is_distributive_add(xi, 1, k * m);
    vstd::arithmetic::mul::lemma_mul_is_associative(xi, k, m);
    vstd::arithmetic::mul::lemma_mul_is_commutative(xi * k, m);
    vstd::arithmetic::div_mod::lemma_mod_multiples_vanish(xi * k, xi, m);
    vstd::arithmetic::div_mod::lemma_small_mod(xi as nat, m as nat);
    assert((xi * c) % m * inverse % m == xi);
}

/// Some byte of the little-endian form of a value that is not zero is not zero.
proof fn lemma_le_bytes_nonzero(x: u64)
    requires
        x != 0,
    ensures
        !all_zero(le_bytes(x)),
{
    vstd::bytes::spec_u64_to_le_bytes_to_open(x);
    let b = vstd::bytes::spec_u64_to_le_bytes_open(x);
    assert(x != 0 ==> ((x & 0xff) as u8 != 0 || ((x >> 8u64) & 0xff) as u8 != 0 || ((x >> 16u64) & 0xff) as u8
        != 0 || ((x >> 24u64) & 0xff) as u8 != 0 || ((x >> 32u64) & 0xff) as u8 != 0 || ((x >> 40u64) & 0xff) as u8
        != 0 || ((x >> 48u64) & 0xff) as u8 != 0 || ((x >> 56u64) & 0xff) as u8 != 0)) by (bit_vector);
    assert(exists|i: int| 0 <= i < 8 && b[i] != 0) by {
        if b[0] != 0 {
            assert(b[0] != 0);
        } else if b[1] != 0 {
            assert(b[1] != 0);
        } else if b[2] != 0 {
            assert(b[2] != 0);
        } else if b[3] != 0 {
            assert(b[3] != 0);
        } else if b[4] != 0 {
            assert(b[4] != 0);
        } else if b[5] != 0 {
            assert(b[5] != 0);
        } else if b[6] != 0 {
            assert(b[6] != 0);
        } else {
            assert(b[7] != 0);
        }
    }
}

/// `uuid::Uuid::new_v4().into_bytes()`: sixteen bytes from the operating system's random source. Nothing is
/// promised of them.
#[verifier::external_body]
fn random_uuid_bytes() -> (bytes: [u8; 16]) {
    uuid::Uuid::new_v4().into_bytes()
}

/// A per-thread identifier generator: xorshift64\*, seeded once from a v4 UUID.
///
/// Span creation is on the hot path, and a span needs two identifiers; drawing them from the operating system each
/// time would cost a system call per span. Identifiers only need to not collide, so a fast non-cryptographic
/// generator with a random seed is the right tool. Its state is never zero, so it never reports zero either, which
/// is what keeps every identifier it makes valid.
#[derive(Debug)]
pub struct IdGenerator {
    /// The xorshift state.
    state: u64,
}

impl IdGenerator {
    /// The state is not zero, the one state xorshift cannot leave.
    pub closed spec fn wf(self) -> bool {
        self.state != 0
    }

    /// The current xorshift state.
    pub closed spec fn state(self) -> u64 {
        self.state
    }

    /// A generator starting from `seed`, or from [`SEED_FALLBACK`] when `seed` is zero.
    pub fn from_seed(seed: u64) -> (g: Self)
        ensures
            g.wf(),
            g.state() == (if seed == 0 {
                SEED_FALLBACK
            } else {
                seed
            }),
    {
        IdGenerator { state: if seed == 0 {
            SEED_FALLBACK
        } else {
            seed
        } }
    }

    /// A generator seeded from the first eight bytes, little-endian, of a fresh random v4 UUID.
    pub fn seeded() -> (g: Self)
        ensures
            g.wf(),
    {
        let bytes = random_uuid_bytes();
        let mut first: Vec<u8> = Vec::new();
        let mut i: usize = 0;
        while i < 8
            invariant
                i <= 8,
                first@.len() == i,
            decreases 8 - i,
        {
            first.push(bytes[i]);
            i += 1;
        }
        Self::from_seed(vstd::bytes::u64_from_le_bytes(first.as_slice()))
    }

    /// The next value: one xorshift step, then the xorshift64\* scramble. Never zero.
    pub fn next(&mut self) -> (v: u64)
        requires
            old(self).wf(),
        ensures
            final(self).wf(),
            final(self).state() == xorshift(old(self).state()),
            v == scrambled(final(self).state()),
            v != 0,
    {
        proof {
            lemma_xorshift_nonzero(self.state);
        }
        let mut value = self.state;
        value = value ^ (value >> 12u64);
        value = value ^ (value << 25u64);
        value = value ^ (value >> 27u64);
        self.state = value;
        proof {
            lemma_scrambled_nonzero(value);
        }
        value.wrapping_mul(SCRAMBLE)
    }

    /// A fresh trace identifier: the little-endian bytes of two draws. Never all zeroes, since no draw is zero.
    pub fn new_trace_id(&mut self) -> (id: TraceId)
        requires
            old(self).wf(),
        ensures
            final(self).wf(),
            !all_zero(id.0@),
            exists|a: u64, b: u64| id.0@ == le_bytes(a) + le_bytes(b),
    {
        let first = self.next();
        let second = self.next();
        let low = vstd::bytes::u64_to_le_bytes(first);
        let high = vstd::bytes::u64_to_le_bytes(second);
        let mut bytes = [0u8; 16];
        let mut i: usize = 0;
        while i < 8
            invariant
                i <= 8,
                low@.len() == 8,
                high@.len() == 8,
                bytes@.len() == 16,
                forall|k: int| 0 <= k < i ==> bytes@[k] == low@[k] && bytes@[k + 8] == high@[k],
            decreases 8 - i,
        {
            bytes[i] = low[i];
            bytes[i + 8] = high[i];
            i += 1;
        }
        proof {
            assert(bytes@ =~= low@ + high@);
            assert(bytes@ == le_bytes(first) + le_bytes(second));
            lemma_le_bytes_nonzero(first);
            let j = choose|j: int| 0 <= j < 8 && low@[j] != 0;
            assert(bytes@[j] != 0);
        }
        TraceId(bytes)
    }

    /// A fresh span identifier: the little-endian bytes of one draw. Never all zeroes, since no draw is zero.
    pub fn new_span_id(&mut self) -> (id: SpanId)
        requires
            old(self).wf(),
        ensures
            final(self).wf(),
            !all_zero(id.0@),
            exists|a: u64| id.0@ == le_bytes(a),
    {
        let value = self.next();
        let low = vstd::bytes::u64_to_le_bytes(value);
        let mut bytes = [0u8; 8];
        let mut i: usize = 0;
        while i < 8
            invariant
                i <= 8,
                low@.len() == 8,
                bytes@.len() == 8,
                forall|k: int| 0 <= k < i ==> bytes@[k] == low@[k],
            decreases 8 - i,
        {
            bytes[i] = low[i];
            i += 1;
        }
        proof {
            assert(bytes@ =~= low@);
            assert(bytes@ == le_bytes(value));
            lemma_le_bytes_nonzero(value);
        }
        SpanId(bytes)
    }
}

} // verus!
