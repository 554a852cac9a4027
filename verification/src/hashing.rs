//! Hashing primitives for bucketing and payload digests.
//!
//! `djb2` is implemented and verified here in full. The SHA-256 digest comes
//! from an outside crate and is only named: `spec_sha256_of` stands for the
//! digest of a character sequence, and everything downstream (hex rendering,
//! the 64-bit evaluation hash, the memo cache) is verified against that name.

use vstd::prelude::*;
use vstd::string::StringExecFns;

verus! {

/// Decimal digit character for `d < 10`.
pub open spec fn spec_dec_digit(d: nat) -> char {
    if d == 0 {
        '0'
    } else if d == 1 {
        '1'
    } else if d == 2 {
        '2'
    } else if d == 3 {
        '3'
    } else if d == 4 {
        '4'
    } else if d == 5 {
        '5'
    } else if d == 6 {
        '6'
    } else if d == 7 {
        '7'
    } else if d == 8 {
        '8'
    } else {
        '9'
    }
}

/// Decimal rendering of a natural number, most significant digit first.
pub open spec fn spec_dec_str(n: nat) -> Seq<char>
    decreases n,
{
    if n < 10 {
        seq![spec_dec_digit(n)]
    } else {
        spec_dec_str(n / 10).push(spec_dec_digit(n % 10))
    }
}

fn dec_digit_str(d: u64) -> (r: &'static str)
    requires
        d < 10,
    ensures
        r@ == seq![spec_dec_digit(d as nat)],
{
    proof {
        reveal_strlit("0");
        reveal_strlit("1");
        reveal_strlit("2");
        reveal_strlit("3");
        reveal_strlit("4");
        reveal_strlit("5");
        reveal_strlit("6");
        reveal_strlit("7");
        reveal_strlit("8");
        reveal_strlit("9");
    }
    if d == 0 {
        proof {
            assert("0"@ =~= seq![spec_dec_digit(d as nat)]);
        }
        "0"
    } else if d == 1 {
        proof {
            assert("1"@ =~= seq![spec_dec_digit(d as nat)]);
        }
        "1"
    } else if d == 2 {
        proof {
            assert("2"@ =~= seq![spec_dec_digit(d as nat)]);
        }
        "2"
    } else if d == 3 {
        proof {
            assert("3"@ =~= seq![spec_dec_digit(d as nat)]);
        }
        "3"
    } else if d == 4 {
        proof {
            assert("4"@ =~= seq![spec_dec_digit(d as nat)]);
        }
        "4"
    } else if d == 5 {
        proof {
            assert("5"@ =~= seq![spec_dec_digit(d as nat)]);
        }
        "5"
    } else if d == 6 {
        proof {
            assert("6"@ =~= seq![spec_dec_digit(d as nat)]);
        }
        "6"
    } else if d == 7 {
        proof {
            assert("7"@ =~= seq![spec_dec_digit(d as nat)]);
        }
        "7"
    } else if d == 8 {
        proof {
            assert("8"@ =~= seq![spec_dec_digit(d as nat)]);
        }
        "8"
    } else {
        proof {
            assert("9"@ =~= seq![spec_dec_digit(d as nat)]);
        }
        "9"
    }
}

/// Decimal rendering of a 64-bit value.
pub fn dec_str_u64(n: u64) -> (r: String)
    ensures
        r@ == spec_dec_str(n as nat),
    decreases n,
{
    if n < 10 {
        dec_digit_str(n).to_owned()
    } else {
        let mut s = dec_str_u64(n / 10);
        s.append(dec_digit_str(n % 10));
        s
    }
}

/// Lower-case hex digit character for `d < 16`.
pub open spec fn spec_hex_digit(d: nat) -> char {
    if d < 10 {
        spec_dec_digit(d)
    } else if d == 10 {
        'a'
    } else if d == 11 {
        'b'
    } else if d == 12 {
        'c'
    } else if d == 13 {
        'd'
    } else if d == 14 {
        'e'
    } else {
        'f'
    }
}

/// Lower-case hex rendering of a byte sequence, two digits per byte.
pub open spec fn spec_hex_str(data: Seq<u8>) -> Seq<char>
    decreases data.len(),
{
    if data.len() == 0 {
        Seq::empty()
    } else {
        spec_hex_str(data.drop_last()).push(spec_hex_digit((data.last() / 16) as nat)).push(
            spec_hex_digit((data.last() % 16) as nat),
        )
    }
}

fn hex_digit_str(d: u8) -> (r: &'static str)
    requires
        d < 16,
    ensures
        r@ == seq![spec_hex_digit(d as nat)],
{
    if d < 10 {
        dec_digit_str(d as u64)
    } else {
        proof {
            reveal_strlit("a");
            reveal_strlit("b");
            reveal_strlit("c");
            reveal_strlit("d");
            reveal_strlit("e");
            reveal_strlit("f");
        }
        if d == 10 {
            proof {
                assert("a"@ =~= seq![spec_hex_digit(d as nat)]);
            }
            "a"
        } else if d == 11 {
            proof {
                assert("b"@ =~= seq![spec_hex_digit(d as nat)]);
            }
            "b"
        } else if d == 12 {
            proof {
                assert("c"@ =~= seq![spec_hex_digit(d as nat)]);
            }
            "c"
        } else if d == 13 {
            proof {
                assert("d"@ =~= seq![spec_hex_digit(d as nat)]);
            }
            "d"
        } else if d == 14 {
            proof {
                assert("e"@ =~= seq![spec_hex_digit(d as nat)]);
            }
            "e"
        } else {
            proof {
                assert("f"@ =~= seq![spec_hex_digit(d as nat)]);
            }
            "f"
        }
    }
}

/// A hex rendering has two characters per byte.
pub proof fn lemma_hex_str_len(data: Seq<u8>)
    ensures
        spec_hex_str(data).len() == 2 * data.len(),
    decreases data.len(),
{
    if data.len() > 0 {
        lemma_hex_str_len(data.drop_last());
    }
}

/// Lower-case hex rendering of a byte vector.
pub fn hex_str(data: &Vec<u8>) -> (r: String)
    ensures
        r@ == spec_hex_str(data@),
{
    let mut out = "".to_owned();
    proof {
        reveal_strlit("");
        assert(out@ =~= spec_hex_str(data@.take(0)));
    }
    let n = data.len();
    for i in 0..n
        invariant
            n == data@.len(),
            out@ == spec_hex_str(data@.take(i as int)),
    {
        let b = data[i];
        out.append(hex_digit_str(b / 16));
        out.append(hex_digit_str(b % 16));
        proof {
            assert(data@.take(i + 1).drop_last() =~= data@.take(i as int));
            assert(data@.take(i + 1).last() == data@[i as int]);
        }
    }
    proof {
        assert(data@.take(n as int) =~= data@);
    }
    out
}

/// One djb2 step: multiply by 33, fold in a byte, stay within 32 bits.
pub open spec fn spec_djb2_step(h: nat, b: u8) -> nat {
    ((h * 33 + b) % 0x1_0000_0000) as nat
}

/// The classic 5381/33 rolling hash over a byte sequence, as a 32-bit value.
pub open spec fn spec_djb2(bytes: Seq<u8>) -> nat
    decreases bytes.len(),
{
    if bytes.len() == 0 {
        5381
    } else {
        spec_djb2_step(spec_djb2(bytes.drop_last()), bytes.last())
    }
}

/// djb2 of a string: the rolling hash of its UTF-8 bytes, rendered decimal.
pub open spec fn spec_djb2_str(s: Seq<char>) -> Seq<char> {
    spec_dec_str(spec_djb2(vstd::utf8::encode_utf8(s)))
}

/// The classic 5381/33 rolling hash over the UTF-8 bytes of `input`,
/// returned as a decimal string.
pub fn djb2(input: &String) -> (r: String)
    ensures
        r@ == spec_djb2_str(input@),
{
    let bytes = input.as_str().as_bytes_vec();
    let n = bytes.len();
    let mut h: u64 = 5381;
    proof {
        assert(bytes@.take(0) =~= Seq::<u8>::empty());
    }
    for i in 0..n
        invariant
            n == bytes@.len(),
            h == spec_djb2(bytes@.take(i as int)),
            h < 0x1_0000_0000,
    {
        let b = bytes[i];
        h = (h * 33 + (b as u64)) % 0x1_0000_0000;
        proof {
            assert(bytes@.take(i + 1).drop_last() =~= bytes@.take(i as int));
            assert(bytes@.take(i + 1).last() == bytes@[i as int]);
        }
    }
    proof {
        assert(bytes@.take(n as int) =~= bytes@);
    }
    dec_str_u64(h)
}

/// The SHA-256 digest of a string, as a byte sequence. The digest is a pure
/// function of the input, so it is only named here; the outside crate
/// computes it.
pub uninterp spec fn spec_sha256_of(s: Seq<char>) -> Seq<u8>;

/// Relies on sha2's `Sha256::digest`: the digest depends on the input bytes
/// alone and is exactly 32 bytes long.
#[verifier::external_body]
fn sha256_digest(input: &String) -> (r: Vec<u8>)
    ensures
        r@ == spec_sha256_of(input@),
        r@.len() == 32,
{
    <sha2::Sha256 as sha2::Digest>::digest(input.as_bytes()).to_vec()
}

/// Lower-case hex form of the SHA-256 digest.
pub open spec fn spec_sha256_hex(s: Seq<char>) -> Seq<char> {
    spec_hex_str(spec_sha256_of(s))
}

/// Big-endian reading of a byte sequence as a natural number.
pub open spec fn spec_be_nat(data: Seq<u8>) -> nat
    decreases data.len(),
{
    if data.len() == 0 {
        0
    } else {
        (spec_be_nat(data.drop_last()) * 256 + data.last()) as nat
    }
}

/// The first 8 digest bytes read big-endian, as a 64-bit value: the
/// bucketing hash.
pub open spec fn spec_evaluation_hash(s: Seq<char>) -> nat {
    spec_be_nat(spec_sha256_of(s).take(8)) % 0x1_0000_0000_0000_0000
}

/// Big-endian value of the first 8 bytes of a 32-byte digest.
fn be_u64_of_prefix(data: &Vec<u8>) -> (r: u64)
    requires
        data@.len() >= 8,
    ensures
        r as nat == spec_be_nat(data@.take(8)),
{
    let h: u64 = (data[0] as u64) * 0x100_0000_0000_0000 + (data[1] as u64) * 0x1_0000_0000_0000
        + (data[2] as u64) * 0x100_0000_0000 + (data[3] as u64) * 0x1_0000_0000 + (data[4] as u64)
        * 0x100_0000 + (data[5] as u64) * 0x1_0000 + (data[6] as u64) * 0x100 + (data[7] as u64);
    proof {
        assert(data@.take(1).drop_last() =~= data@.take(0));
        assert(data@.take(2).drop_last() =~= data@.take(1));
        assert(data@.take(3).drop_last() =~= data@.take(2));
        assert(data@.take(4).drop_last() =~= data@.take(3));
        assert(data@.take(5).drop_last() =~= data@.take(4));
        assert(data@.take(6).drop_last() =~= data@.take(5));
        assert(data@.take(7).drop_last() =~= data@.take(6));
        assert(data@.take(8).drop_last() =~= data@.take(7));
        assert(spec_be_nat(data@.take(0)) == 0);
        assert(spec_be_nat(data@.take(1)) == data@[0]);
        assert(spec_be_nat(data@.take(2)) == spec_be_nat(data@.take(1)) * 256 + data@[1]);
        assert(spec_be_nat(data@.take(3)) == spec_be_nat(data@.take(2)) * 256 + data@[2]);
        assert(spec_be_nat(data@.take(4)) == spec_be_nat(data@.take(3)) * 256 + data@[3]);
        assert(spec_be_nat(data@.take(5)) == spec_be_nat(data@.take(4)) * 256 + data@[4]);
        assert(spec_be_nat(data@.take(6)) == spec_be_nat(data@.take(5)) * 256 + data@[5]);
        assert(spec_be_nat(data@.take(7)) == spec_be_nat(data@.take(6)) * 256 + data@[6]);
        assert(spec_be_nat(data@.take(8)) == spec_be_nat(data@.take(7)) * 256 + data@[7]);
    }
    h
}

/// One memoized digest: the key together with the two projections that the
/// callers ask for.
#[derive(Debug)]
struct MemoEntry {
    key: String,
    hex: String,
    eval_hash: u64,
}

/// Size cap of the memo cache.
pub const MEMO_CACHE_CAPACITY: usize = 2000;

/// A bounded memo cache for SHA-256 results, least-recently-used first.
/// Every stored projection agrees with the named digest of its key, so a
/// cache hit returns exactly what a fresh computation would.
#[derive(Debug)]
pub struct MemoSha256 {
    entries: Vec<MemoEntry>,
}

impl MemoSha256 {
    /// Every cached entry agrees with the named digest of its key, and the
    /// cache stays within its cap.
    pub closed spec fn wf(&self) -> bool {
        &&& self.entries@.len() <= MEMO_CACHE_CAPACITY
        &&& forall|i: int|
            0 <= i < self.entries@.len() ==> {
                &&& (#[trigger] self.entries@[i]).hex@ == spec_sha256_hex(self.entries@[i].key@)
                &&& self.entries@[i].hex@.len() == 64
                &&& self.entries@[i].eval_hash as nat == spec_evaluation_hash(
                    self.entries@[i].key@,
                )
            }
    }

    pub fn new() -> (r: Self)
        ensures
            r.wf(),
    {
        MemoSha256 { entries: Vec::new() }
    }

    /// Find the entry for `input`, computing and caching it on a miss.
    /// A hit moves the entry to the most-recently-used end; an insert past
    /// the cap evicts the least-recently-used entry.
    fn lookup(&mut self, input: &String) -> (r: (String, u64))
        requires
            old(self).wf(),
        ensures
            final(self).wf(),
            r.0@ == spec_sha256_hex(input@),
            r.0@.len() == 64,
            r.1 as nat == spec_evaluation_hash(input@),
    {
        let n = self.entries.len();
        let mut found: Option<usize> = None;
        for j in 0..n
            invariant
                self.wf(),
                n == self.entries@.len(),
                match found {
                    Some(k) => k < n && self.entries@[k as int].key@ == input@,
                    None => true,
                },
        {
            if found.is_none() && self.entries[j].key.eq(input) {
                found = Some(j);
            }
        }
        match found {
            Some(j) => {
                let entry = self.entries.remove(j);
                let hex = entry.hex.clone();
                let eval_hash = entry.eval_hash;
                self.entries.push(entry);
                (hex, eval_hash)
            },
            None => {
                let digest = sha256_digest(input);
                let hex = hex_str(&digest);
                proof {
                    lemma_hex_str_len(digest@);
                }
                let eval_hash = be_u64_of_prefix(&digest);
                proof {
                    assert(digest@.take(8) == spec_sha256_of(input@).take(8));
                }
                if self.entries.len() >= MEMO_CACHE_CAPACITY {
                    let _evicted = self.entries.remove(0);
                }
                self.entries.push(
                    MemoEntry { key: input.clone(), hex: hex.clone(), eval_hash },
                );
                (hex, eval_hash)
            },
        }
    }

    /// The lower-case hex SHA-256 of `input`, memoized.
    pub fn hash_string(&mut self, input: &String) -> (r: String)
        requires
            old(self).wf(),
        ensures
            final(self).wf(),
            r@ == spec_sha256_hex(input@),
            r@.len() == 64,
    {
        self.lookup(input).0
    }

    /// The first 8 digest bytes as a big-endian 64-bit value, memoized.
    pub fn compute_hash(&mut self, input: &String) -> (r: Option<usize>)
        requires
            old(self).wf(),
        ensures
            final(self).wf(),
            match r {
                Some(h) => h as nat == spec_evaluation_hash(input@),
                None => spec_evaluation_hash(input@) > usize::MAX,
            },
    {
        let (_, eval_hash) = self.lookup(input);
        if eval_hash <= usize::MAX as u64 {
            Some(eval_hash as usize)
        } else {
            None
        }
    }
}

/// The hash algorithms a caller can name.
#[derive(Clone, Copy, Debug, PartialEq, Eq, Structural)]
pub enum HashAlgorithm {
    Djb2,
    Identity,
    Sha256,
}

/// True iff the string equals the literal.
pub fn string_eq_str(s: &String, lit: &str) -> (r: bool)
    ensures
        r == (s@ == lit@),
{
    s.eq(&lit.to_owned())
}

impl HashAlgorithm {
    /// Parse an algorithm name; `"none"` selects the identity algorithm.
    pub fn from_string(input: &String) -> (r: Option<Self>)
        ensures
            r == (if input@ == "sha256"@ {
                Some(HashAlgorithm::Sha256)
            } else if input@ == "djb2"@ {
                Some(HashAlgorithm::Djb2)
            } else if input@ == "none"@ {
                Some(HashAlgorithm::Identity)
            } else {
                Option::<HashAlgorithm>::None
            }),
    {
        if string_eq_str(input, "sha256") {
            Some(HashAlgorithm::Sha256)
        } else if string_eq_str(input, "djb2") {
            Some(HashAlgorithm::Djb2)
        } else if string_eq_str(input, "none") {
            Some(HashAlgorithm::Identity)
        } else {
            None
        }
    }
}

/// The hashing facade: djb2, memoized SHA-256, and the bucketing projection.
#[derive(Debug)]
pub struct Hashing {
    sha_hasher: MemoSha256,
}

impl Hashing {
    pub fn new() -> (r: Self)
        ensures
            r.wf(),
    {
        Hashing { sha_hasher: MemoSha256::new() }
    }

    pub closed spec fn wf(&self) -> bool {
        self.sha_hasher.wf()
    }

    /// Hash `input` with the chosen algorithm; the identity algorithm
    /// returns the input unchanged.
    pub fn hash(&mut self, input: &String, hash_algorithm: &HashAlgorithm) -> (r: String)
        requires
            old(self).wf(),
        ensures
            final(self).wf(),
            r@ == match hash_algorithm {
                HashAlgorithm::Sha256 => spec_sha256_hex(input@),
                HashAlgorithm::Djb2 => spec_djb2_str(input@),
                HashAlgorithm::Identity => input@,
            },
            hash_algorithm is Sha256 ==> r@.len() == 64,
    {
        match hash_algorithm {
            HashAlgorithm::Sha256 => self.sha_hasher.hash_string(input),
            HashAlgorithm::Djb2 => djb2(input),
            HashAlgorithm::Identity => input.clone(),
        }
    }

    /// The lower-case hex SHA-256 of `input`: 64 hex characters.
    pub fn sha256(&mut self, input: &String) -> (r: String)
        requires
            old(self).wf(),
        ensures
            final(self).wf(),
            r@ == spec_sha256_hex(input@),
            r@.len() == 64,
    {
        self.sha_hasher.hash_string(input)
    }

    /// The bucketing hash: the first 8 SHA-256 digest bytes read big-endian.
    /// `None` only when the value does not fit a `usize`.
    pub fn evaluation_hash(&mut self, input: &String) -> (r: Option<usize>)
        requires
            old(self).wf(),
        ensures
            final(self).wf(),
            match r {
                Some(h) => h as nat == spec_evaluation_hash(input@),
                None => spec_evaluation_hash(input@) > usize::MAX,
            },
    {
        self.sha_hasher.compute_hash(input)
    }
}


/// The bucketing hash is a function of the input string alone — two
/// computations on equal strings agree, cached or not — and it always
/// fits 64 bits, being read from 8 digest bytes.
pub proof fn lemma_evaluation_hash_consistent(s1: Seq<char>, s2: Seq<char>)
    requires
        s1 == s2,
    ensures
        spec_evaluation_hash(s1) == spec_evaluation_hash(s2),
        spec_evaluation_hash(s1) < 0x1_0000_0000_0000_0000,
{
}

} // verus!
