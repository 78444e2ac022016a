//! The record-identifier codec. An identifier embeds a record-kind tag, the
//! originating shard, and that shard's per-record counter, so that any
//! identifier is decodable back to where and what it names. The wire form is
//! a length-prefixed kind followed by the shard and counter in little-endian
//! order; `decode` accepts exactly the byte strings `encode` produces.

use vstd::prelude::*;

verus! {

/// A decoded record identifier.
#[derive(Debug)]
pub struct Identifier {
    /// The record-kind tag (for event records: the bytes of `"evt"`).
    pub kind: Vec<u8>,
    /// The identity of the shard that created the record.
    pub shard: u64,
    /// The shard's counter value at creation; strictly increasing per shard.
    pub index: u64,
}

/// Spec-level image of an [`Identifier`].
#[verifier::ext_equal]
pub struct IdentifierV {
    pub kind: Seq<u8>,
    pub shard: u64,
    pub index: u64,
}

impl View for Identifier {
    type V = IdentifierV;

    open spec fn view(&self) -> IdentifierV {
        IdentifierV { kind: self.kind@, shard: self.shard, index: self.index }
    }
}

/// Copies a byte vector; the result holds the same byte sequence.
pub fn clone_bytes(v: &Vec<u8>) -> (r: Vec<u8>)
    ensures
        r@ == v@,
{
    let mut out: Vec<u8> = Vec::new();
    let mut i: usize = 0;
    while i < v.len()
        invariant
            i <= v.len(),
            out@ == v@.subrange(0, i as int),
        decreases v.len() - i,
    {
        out.push(v[i]);
        i = i + 1;
        assert(out@ =~= v@.subrange(0, i as int));
    }
    assert(out@ =~= v@);
    out
}

impl Clone for Identifier {
    fn clone(&self) -> (r: Self)
        ensures
            r@ == self@,
    {
        Identifier { kind: clone_bytes(&self.kind), shard: self.shard, index: self.index }
    }
}

impl PartialEq for Identifier {
    fn eq(&self, other: &Self) -> (r: bool) {
        let kinds_equal = self.kind == other.kind;
        proof {
            if kinds_equal {
                assert(self.kind@ =~= other.kind@);
            } else {
                assert(self.kind@ != other.kind@);
            }
        }
        kinds_equal && self.shard == other.shard && self.index == other.index
    }
}

impl vstd::std_specs::cmp::PartialEqSpecImpl for Identifier {
    open spec fn obeys_eq_spec() -> bool {
        true
    }

    open spec fn eq_spec(&self, other: &Self) -> bool {
        self@ =~= other@
    }
}

/// The byte at little-endian position `i` of `x`.
pub open spec fn le_byte(x: u64, i: int) -> u8 {
    (x >> (8 * i)) as u8
}

/// The eight bytes of `x` in little-endian order.
pub open spec fn le_bytes_of(x: u64) -> Seq<u8> {
    Seq::new(8, |i: int| le_byte(x, i))
}

/// The value read from eight little-endian bytes.
pub open spec fn le_val(s: Seq<u8>) -> u64
    recommends
        s.len() == 8,
{
    ((s[0] as u64) | ((s[1] as u64) << 8) | ((s[2] as u64) << 16) | ((s[3] as u64) << 24) | ((
    s[4] as u64) << 32) | ((s[5] as u64) << 40) | ((s[6] as u64) << 48) | ((s[7] as u64) << 56))
}

/// Reading back the little-endian bytes of a value yields the value.
pub proof fn lemma_le_round_trip(x: u64)
    ensures
        le_val(le_bytes_of(x)) == x,
{
    let s = le_bytes_of(x);
    assert(s[0] == (x >> 0) as u8);
    assert(s[1] == (x >> 8) as u8);
    assert(s[2] == (x >> 16) as u8);
    assert(s[3] == (x >> 24) as u8);
    assert(s[4] == (x >> 32) as u8);
    assert(s[5] == (x >> 40) as u8);
    assert(s[6] == (x >> 48) as u8);
    assert(s[7] == (x >> 56) as u8);
    assert((((x >> 0) as u8) as u64) | ((((x >> 8) as u8) as u64) << 8) | ((((x
        >> 16) as u8) as u64) << 16) | ((((x >> 24) as u8) as u64) << 24) | ((((x
        >> 32) as u8) as u64) << 32) | ((((x >> 40) as u8) as u64) << 40) | ((((x
        >> 48) as u8) as u64) << 48) | ((((x >> 56) as u8) as u64) << 56) == x) by (bit_vector);
}

/// The little-endian bytes of a value read from eight bytes are those bytes.
pub proof fn lemma_le_bytes_of_val(s: Seq<u8>)
    requires
        s.len() == 8,
    ensures
        le_bytes_of(le_val(s)) =~= s,
{
    let b0 = s[0];
    let b1 = s[1];
    let b2 = s[2];
    let b3 = s[3];
    let b4 = s[4];
    let b5 = s[5];
    let b6 = s[6];
    let b7 = s[7];
    let x = le_val(s);
    assert(x == (b0 as u64) | ((b1 as u64) << 8) | ((b2 as u64) << 16) | ((b3 as u64) << 24) | ((
    b4 as u64) << 32) | ((b5 as u64) << 40) | ((b6 as u64) << 48) | ((b7 as u64) << 56));
    assert({
        let y = (b0 as u64) | ((b1 as u64) << 8) | ((b2 as u64) << 16) | ((b3 as u64) << 24) | ((
        b4 as u64) << 32) | ((b5 as u64) << 40) | ((b6 as u64) << 48) | ((b7 as u64) << 56);
        (y >> 0) as u8 == b0 && (y >> 8) as u8 == b1 && (y >> 16) as u8 == b2 && (y >> 24) as u8
            == b3 && (y >> 32) as u8 == b4 && (y >> 40) as u8 == b5 && (y >> 48) as u8 == b6 && (y
            >> 56) as u8 == b7
    }) by (bit_vector);
}

/// The wire form of an identifier: one length byte, the kind bytes, then the
/// shard and the counter, each as eight little-endian bytes.
pub open spec fn spec_encode(id: IdentifierV) -> Seq<u8>
    recommends
        id.kind.len() <= 255,
{
    seq![id.kind.len() as u8] + id.kind + le_bytes_of(id.shard) + le_bytes_of(id.index)
}

/// Whether `bytes` is the wire form of some identifier.
pub open spec fn valid_encoding(bytes: Seq<u8>) -> bool {
    bytes.len() >= 17 && bytes.len() == 17 + bytes[0]
}

/// Appends the eight little-endian bytes of `x`.
fn push_le64(out: &mut Vec<u8>, x: u64)
    ensures
        final(out)@ == old(out)@ + le_bytes_of(x),
{
    out.push((x >> 0) as u8);
    out.push((x >> 8) as u8);
    out.push((x >> 16) as u8);
    out.push((x >> 24) as u8);
    out.push((x >> 32) as u8);
    out.push((x >> 40) as u8);
    out.push((x >> 48) as u8);
    out.push((x >> 56) as u8);
    assert(out@ =~= old(out)@ + le_bytes_of(x));
}

/// Reads eight little-endian bytes starting at `at`.
fn read_le64(bytes: &Vec<u8>, at: usize) -> (r: u64)
    requires
        at + 8 <= bytes@.len(),
        bytes@.len() <= usize::MAX,
    ensures
        r == le_val(bytes@.subrange(at as int, at + 8)),
{
    let r = (bytes[at] as u64) | ((bytes[at + 1] as u64) << 8) | ((bytes[at + 2] as u64) << 16) | ((
    bytes[at + 3] as u64) << 24) | ((bytes[at + 4] as u64) << 32) | ((bytes[at + 5] as u64) << 40)
        | ((bytes[at + 6] as u64) << 48) | ((bytes[at + 7] as u64) << 56);
    proof {
        let s = bytes@.subrange(at as int, at + 8);
        assert(s[0] == bytes@[at as int]);
        assert(s[1] == bytes@[at + 1]);
        assert(s[2] == bytes@[at + 2]);
        assert(s[3] == bytes@[at + 3]);
        assert(s[4] == bytes@[at + 4]);
        assert(s[5] == bytes@[at + 5]);
        assert(s[6] == bytes@[at + 6]);
        assert(s[7] == bytes@[at + 7]);
    }
    r
}

impl Identifier {
    /// Whether the identifier fits the wire form (the kind tag fits the
    /// length byte).
    pub open spec fn wf(self) -> bool {
        self.kind@.len() <= 255
    }

    /// Encodes the identifier into its wire form.
    pub fn encode(&self) -> (r: Vec<u8>)
        requires
            self.wf(),
        ensures
            r@ == spec_encode(self@),
            valid_encoding(r@),
    {
        let mut out: Vec<u8> = Vec::new();
        out.push(self.kind.len() as u8);
        let mut i: usize = 0;
        while i < self.kind.len()
            invariant
                i <= self.kind.len(),
                self.kind@.len() <= 255,
                out@ == seq![self.kind@.len() as u8] + self.kind@.subrange(0, i as int),
            decreases self.kind.len() - i,
        {
            out.push(self.kind[i]);
            i = i + 1;
            assert(out@ =~= seq![self.kind@.len() as u8] + self.kind@.subrange(0, i as int));
        }
        assert(out@ =~= seq![self.kind@.len() as u8] + self.kind@);
        push_le64(&mut out, self.shard);
        push_le64(&mut out, self.index);
        assert(out@ =~= spec_encode(self@));
        out
    }

    /// Decodes a wire-form identifier; returns `None` on any byte string
    /// that `encode` cannot have produced.
    pub fn decode(bytes: &Vec<u8>) -> (r: Option<Identifier>)
        ensures
            match r {
                Some(id) => valid_encoding(bytes@) && id.wf() && bytes@ == spec_encode(id@),
                None => !valid_encoding(bytes@),
            },
    {
        if bytes.len() < 17 {
            return None;
        }
        let k = bytes[0] as usize;
        if bytes.len() != 17 + k {
            return None;
        }
        let mut kind: Vec<u8> = Vec::new();
        let mut i: usize = 0;
        while i < k
            invariant
                i <= k,
                k + 17 == bytes@.len(),
                kind@ == bytes@.subrange(1, 1 + i as int),
            decreases k - i,
        {
            kind.push(bytes[1 + i]);
            i = i + 1;
            assert(kind@ =~= bytes@.subrange(1, 1 + i as int));
        }
        let shard = read_le64(bytes, 1 + k);
        let index = read_le64(bytes, 9 + k);
        let id = Identifier { kind, shard, index };
        proof {
            lemma_le_bytes_of_val(bytes@.subrange(1 + k as int, 9 + k as int));
            lemma_le_bytes_of_val(bytes@.subrange(9 + k as int, 17 + k as int));
            assert(bytes@ =~= spec_encode(id@));
        }
        Some(id)
    }
}

/// Decoding inverts encoding: every well-formed identifier comes back from
/// its own wire form unchanged.
pub proof fn lemma_identifier_round_trip(id: IdentifierV)
    requires
        id.kind.len() <= 255,
    ensures
        valid_encoding(spec_encode(id)),
        forall|other: IdentifierV|
            other.kind.len() <= 255 && spec_encode(other) == spec_encode(id) ==> other =~= id,
{
    let b = spec_encode(id);
    assert(b[0] == id.kind.len() as u8);
    assert(valid_encoding(b));
    assert forall|other: IdentifierV|
        other.kind.len() <= 255 && spec_encode(other) == spec_encode(id) implies other =~= id by {
        let ob = spec_encode(other);
        assert(ob[0] == other.kind.len() as u8);
        assert(other.kind.len() == id.kind.len());
        let k = id.kind.len() as int;
        assert forall|i: int| 0 <= i < k implies other.kind[i] == id.kind[i] by {
            assert(ob[1 + i] == other.kind[i]);
            assert(b[1 + i] == id.kind[i]);
        }
        assert(other.kind =~= id.kind);
        assert(ob.subrange(1 + k, 9 + k) =~= le_bytes_of(other.shard));
        assert(b.subrange(1 + k, 9 + k) =~= le_bytes_of(id.shard));
        lemma_le_round_trip(other.shard);
        lemma_le_round_trip(id.shard);
        assert(other.shard == id.shard);
        assert(ob.subrange(9 + k, 17 + k) =~= le_bytes_of(other.index));
        assert(b.subrange(9 + k, 17 + k) =~= le_bytes_of(id.index));
        lemma_le_round_trip(other.index);
        lemma_le_round_trip(id.index);
        assert(other.index == id.index);
    }
}

} // verus!
