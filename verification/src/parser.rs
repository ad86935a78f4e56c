//! A cursor over a byte slice that decodes the little-endian integers and strings of
//! CodeView records.

use vstd::prelude::*;

verus! {

/// The error that every decoding step of [`Parser`] reports: the input ran out, or did not
/// hold what was asked for.
#[derive(Clone, Copy, Debug, PartialEq, Eq, Structural)]
pub struct ParserError;

impl ParserError {
    /// Constructs a `ParserError`.
    pub fn new() -> (r: Self) {
        ParserError
    }
}

/// The unsigned value of the two bytes at `s[i..i + 2]`, little-endian.
pub open spec fn le_u16_at(s: Seq<u8>, i: int) -> int {
    s[i] as int + 0x100 * s[i + 1] as int
}

/// The unsigned value of the four bytes at `s[i..i + 4]`, little-endian.
pub open spec fn le_u32_at(s: Seq<u8>, i: int) -> int {
    le_u16_at(s, i) + 0x1_0000 * le_u16_at(s, i + 2)
}

/// The unsigned value of the eight bytes at `s[i..i + 8]`, little-endian.
pub open spec fn le_u64_at(s: Seq<u8>, i: int) -> int {
    le_u32_at(s, i) + 0x1_0000_0000 * le_u32_at(s, i + 4)
}

/// The unsigned value of the sixteen bytes at `s[i..i + 16]`, little-endian.
pub open spec fn le_u128_at(s: Seq<u8>, i: int) -> int {
    le_u64_at(s, i) + 0x1_0000_0000_0000_0000 * le_u64_at(s, i + 8)
}

/// Two's complement reading of an unsigned value `v` of `2^bits` possible values,
/// where `half == 2^(bits - 1)`.
pub open spec fn twos_complement(v: int, half: int) -> int {
    if v >= half {
        v - 2 * half
    } else {
        v
    }
}

/// Reading at offset `i` of `s.skip(k)` reads the same bytes as reading at offset `k + i`
/// of `s`.
pub proof fn lemma_le_skip(s: Seq<u8>, k: int, i: int)
    requires
        0 <= k <= s.len(),
        0 <= i,
    ensures
        k + i + 2 <= s.len() ==> le_u16_at(s.skip(k), i) == le_u16_at(s, k + i),
        k + i + 4 <= s.len() ==> le_u32_at(s.skip(k), i) == le_u32_at(s, k + i),
        k + i + 8 <= s.len() ==> le_u64_at(s.skip(k), i) == le_u64_at(s, k + i),
        k + i + 16 <= s.len() ==> le_u128_at(s.skip(k), i) == le_u128_at(s, k + i),
        k + i + 1 <= s.len() ==> s.skip(k)[i] == s[k + i],
{
}

/// Skipping `a` bytes and then `b` bytes skips `a + b` bytes.
pub proof fn lemma_skip_skip(s: Seq<u8>, a: int, b: int)
    requires
        0 <= a,
        0 <= b,
        a + b <= s.len(),
    ensures
        s.skip(a).skip(b) == s.skip(a + b),
{
    assert(s.skip(a).skip(b) =~= s.skip(a + b));
}

/// `i` is the index of the first NUL byte of `s`.
pub open spec fn is_first_nul(s: Seq<u8>, i: int) -> bool {
    &&& 0 <= i < s.len()
    &&& s[i] == 0
    &&& forall|j: int| 0 <= j < i ==> s[j] != 0
}

/// `s` holds a NUL byte.
pub open spec fn has_nul(s: Seq<u8>) -> bool {
    exists|i: int| 0 <= i < s.len() && s[i] == 0
}

/// The index of the first NUL byte of `s`, where there is one.
pub open spec fn first_nul(s: Seq<u8>) -> int {
    choose|i: int| is_first_nul(s, i)
}

/// The bytes of the NUL-terminated string at the start of `s`, without the NUL.
pub open spec fn strz_value(s: Seq<u8>) -> Seq<u8> {
    s.take(first_nul(s))
}

/// The number of bytes of the NUL-terminated string at the start of `s`, with the NUL.
pub open spec fn strz_len(s: Seq<u8>) -> int {
    first_nul(s) + 1
}

/// Where `s` holds a NUL byte, `first_nul(s)` is the index of the first one.
pub proof fn lemma_first_nul(s: Seq<u8>)
    requires
        has_nul(s),
    ensures
        is_first_nul(s, first_nul(s)),
        forall|i: int| is_first_nul(s, i) ==> i == first_nul(s),
{
    let k = choose|k: int| 0 <= k < s.len() && s[k] == 0;
    lemma_first_nul_exists(s, k);
    let f = first_nul(s);
    assert forall|i: int| is_first_nul(s, i) implies i == f by {
        if i < f {
            assert(s[i] != 0);
        } else if f < i {
            assert(s[f] != 0);
        }
    }
}

proof fn lemma_first_nul_exists(s: Seq<u8>, k: int)
    requires
        0 <= k < s.len(),
        s[k] == 0,
    ensures
        exists|i: int| is_first_nul(s, i),
    decreases k,
{
    if forall|j: int| 0 <= j < k ==> s[j] != 0 {
        assert(is_first_nul(s, k));
    } else {
        let j = choose|j: int| 0 <= j < k && s[j] == 0;
        lemma_first_nul_exists(s, j);
    }
}

/// Reads the little-endian `u16` at `b[i..i + 2]`.
pub fn read_u16_at(b: &[u8], i: usize) -> (r: u16)
    requires
        i + 2 <= b@.len(),
    ensures
        r == le_u16_at(b@, i as int),
{
    let _n = b.len();
    b[i] as u16 + 0x100 * (b[i + 1] as u16)
}

/// Reads the little-endian `u32` at `b[i..i + 4]`.
pub fn read_u32_at(b: &[u8], i: usize) -> (r: u32)
    requires
        i + 4 <= b@.len(),
    ensures
        r == le_u32_at(b@, i as int),
{
    let _n = b.len();
    read_u16_at(b, i) as u32 + 0x1_0000 * (read_u16_at(b, i + 2) as u32)
}

/// Reads the little-endian `i32` at `b[i..i + 4]`.
pub fn read_i32_at(b: &[u8], i: usize) -> (r: i32)
    requires
        i + 4 <= b@.len(),
    ensures
        r == twos_complement(le_u32_at(b@, i as int), 0x8000_0000),
{
    let u = read_u32_at(b, i);
    if u < 0x8000_0000 {
        u as i32
    } else {
        ((u as i64) - 0x1_0000_0000) as i32
    }
}

/// Reads the byte at `b[i]`.
pub fn read_u8_at(b: &[u8], i: usize) -> (r: u8)
    requires
        i + 1 <= b@.len(),
    ensures
        r == b@[i as int],
{
    b[i]
}

/// A cursor over a byte slice. Each decoding step consumes bytes from the front of
/// [`Parser::bytes`], which always holds the bytes not yet consumed.
pub struct Parser<'a> {
    /// The bytes that have not been consumed yet.
    pub bytes: &'a [u8],
}

impl<'a> Parser<'a> {
    /// Starts a parser at the beginning of `bytes`.
    pub fn new(bytes: &'a [u8]) -> (p: Self)
        ensures
            p.bytes@ == bytes@,
    {
        Parser { bytes }
    }

    /// The number of bytes not yet consumed.
    pub fn len(&self) -> (n: usize)
        ensures
            n == self.bytes@.len(),
    {
        self.bytes.len()
    }

    /// Tests whether every byte has been consumed.
    pub fn is_empty(&self) -> (b: bool)
        ensures
            b == (self.bytes@.len() == 0),
    {
        self.bytes.len() == 0
    }

    /// The bytes not yet consumed, without consuming them.
    pub fn peek_rest(&self) -> (r: &'a [u8])
        ensures
            r@ == self.bytes@,
    {
        self.bytes
    }

    /// Consumes and returns every remaining byte.
    pub fn take_rest(&mut self) -> (r: &'a [u8])
        ensures
            r@ == old(self).bytes@,
            final(self).bytes@.len() == 0,
    {
        let (rest, empty) = self.bytes.split_at(self.bytes.len());
        self.bytes = empty;
        rest
    }

    /// Ends the parser, returning the bytes not yet consumed.
    pub fn into_rest(self) -> (r: &'a [u8])
        ensures
            r@ == self.bytes@,
    {
        self.bytes
    }

    /// Consumes `n` bytes and returns them. Fails, consuming nothing, when fewer than `n`
    /// bytes remain.
    pub fn bytes(&mut self, n: usize) -> (r: Result<&'a [u8], ParserError>)
        ensures
            match r {
                Ok(b) => {
                    &&& n <= old(self).bytes@.len()
                    &&& b@ == old(self).bytes@.take(n as int)
                    &&& final(self).bytes@ == old(self).bytes@.skip(n as int)
                },
                Err(_) => n > old(self).bytes@.len() && final(self).bytes@ == old(self).bytes@,
            },
    {
        if n <= self.bytes.len() {
            let (head, tail) = self.bytes.split_at(n);
            self.bytes = tail;
            Ok(head)
        } else {
            Err(ParserError)
        }
    }

    /// Consumes `n` bytes. Fails, consuming nothing, when fewer than `n` bytes remain.
    pub fn skip(&mut self, n: usize) -> (r: Result<(), ParserError>)
        ensures
            r is Ok <==> n <= old(self).bytes@.len(),
            r is Ok ==> final(self).bytes@ == old(self).bytes@.skip(n as int),
            r is Err ==> final(self).bytes@ == old(self).bytes@,
    {
        match self.bytes(n) {
            Ok(_) => Ok(()),
            Err(e) => Err(e),
        }
    }

    /// Decodes a `u8`.
    pub fn u8(&mut self) -> (r: Result<u8, ParserError>)
        ensures
            match r {
                Ok(v) => {
                    &&& 1 <= old(self).bytes@.len()
                    &&& v == old(self).bytes@[0]
                    &&& final(self).bytes@ == old(self).bytes@.skip(1)
                },
                Err(_) => old(self).bytes@.len() < 1 && final(self).bytes@ == old(self).bytes@,
            },
    {
        let b = self.bytes(1)?;
        Ok(b[0])
    }

    /// Decodes a little-endian `u16`.
    pub fn u16(&mut self) -> (r: Result<u16, ParserError>)
        ensures
            match r {
                Ok(v) => {
                    &&& 2 <= old(self).bytes@.len()
                    &&& v == le_u16_at(old(self).bytes@, 0)
                    &&& final(self).bytes@ == old(self).bytes@.skip(2)
                },
                Err(_) => old(self).bytes@.len() < 2 && final(self).bytes@ == old(self).bytes@,
            },
    {
        let b = self.bytes(2)?;
        let v: u16 = b[0] as u16 + 0x100 * (b[1] as u16);
        Ok(v)
    }

    /// Decodes a little-endian `u32`.
    pub fn u32(&mut self) -> (r: Result<u32, ParserError>)
        ensures
            match r {
                Ok(v) => {
                    &&& 4 <= old(self).bytes@.len()
                    &&& v == le_u32_at(old(self).bytes@, 0)
                    &&& final(self).bytes@ == old(self).bytes@.skip(4)
                },
                Err(_) => old(self).bytes@.len() < 4 && final(self).bytes@ == old(self).bytes@,
            },
    {
        let b = self.bytes(4)?;
        let lo: u32 = b[0] as u32 + 0x100 * (b[1] as u32);
        let hi: u32 = b[2] as u32 + 0x100 * (b[3] as u32);
        Ok(lo + 0x1_0000 * hi)
    }

    /// Decodes a little-endian `u64`.
    pub fn u64(&mut self) -> (r: Result<u64, ParserError>)
        ensures
            match r {
                Ok(v) => {
                    &&& 8 <= old(self).bytes@.len()
                    &&& v == le_u64_at(old(self).bytes@, 0)
                    &&& final(self).bytes@ == old(self).bytes@.skip(8)
                },
                Err(_) => old(self).bytes@.len() < 8 && final(self).bytes@ == old(self).bytes@,
            },
    {
        if self.bytes.len() < 8 {
            return Err(ParserError);
        }
        let ghost s = self.bytes@;
        let lo = self.u32()?;
        let hi = self.u32()?;
        assert(le_u32_at(s.skip(4), 0) == le_u32_at(s, 4));
        Ok(lo as u64 + 0x1_0000_0000 * (hi as u64))
    }

    /// Decodes a little-endian `u128`.
    pub fn u128(&mut self) -> (r: Result<u128, ParserError>)
        ensures
            match r {
                Ok(v) => {
                    &&& 16 <= old(self).bytes@.len()
                    &&& v == le_u128_at(old(self).bytes@, 0)
                    &&& final(self).bytes@ == old(self).bytes@.skip(16)
                },
                Err(_) => old(self).bytes@.len() < 16 && final(self).bytes@ == old(self).bytes@,
            },
    {
        if self.bytes.len() < 16 {
            return Err(ParserError);
        }
        let ghost s = self.bytes@;
        let lo = self.u64()?;
        let hi = self.u64()?;
        assert(le_u64_at(s.skip(8), 0) == le_u64_at(s, 8));
        Ok(lo as u128 + 0x1_0000_0000_0000_0000 * (hi as u128))
    }

    /// Decodes an `i8`.
    pub fn i8(&mut self) -> (r: Result<i8, ParserError>)
        ensures
            match r {
                Ok(v) => {
                    &&& 1 <= old(self).bytes@.len()
                    &&& v == twos_complement(old(self).bytes@[0] as int, 0x80)
                    &&& final(self).bytes@ == old(self).bytes@.skip(1)
                },
                Err(_) => old(self).bytes@.len() < 1 && final(self).bytes@ == old(self).bytes@,
            },
    {
        let u = self.u8()?;
        if u < 0x80 {
            Ok(u as i8)
        } else {
            Ok(((u as i16) - 0x100) as i8)
        }
    }

    /// Decodes a little-endian `i16`.
    pub fn i16(&mut self) -> (r: Result<i16, ParserError>)
        ensures
            match r {
                Ok(v) => {
                    &&& 2 <= old(self).bytes@.len()
                    &&& v == twos_complement(le_u16_at(old(self).bytes@, 0), 0x8000)
                    &&& final(self).bytes@ == old(self).bytes@.skip(2)
                },
                Err(_) => old(self).bytes@.len() < 2 && final(self).bytes@ == old(self).bytes@,
            },
    {
        let u = self.u16()?;
        if u < 0x8000 {
            Ok(u as i16)
        } else {
            Ok(((u as i32) - 0x1_0000) as i16)
        }
    }

    /// Decodes a little-endian `i32`.
    pub fn i32(&mut self) -> (r: Result<i32, ParserError>)
        ensures
            match r {
                Ok(v) => {
                    &&& 4 <= old(self).bytes@.len()
                    &&& v == twos_complement(le_u32_at(old(self).bytes@, 0), 0x8000_0000)
                    &&& final(self).bytes@ == old(self).bytes@.skip(4)
                },
                Err(_) => old(self).bytes@.len() < 4 && final(self).bytes@ == old(self).bytes@,
            },
    {
        let u = self.u32()?;
        if u < 0x8000_0000 {
            Ok(u as i32)
        } else {
            Ok(((u as i64) - 0x1_0000_0000) as i32)
        }
    }

    /// Decodes a little-endian `i64`.
    pub fn i64(&mut self) -> (r: Result<i64, ParserError>)
        ensures
            match r {
                Ok(v) => {
                    &&& 8 <= old(self).bytes@.len()
                    &&& v == twos_complement(
                        le_u64_at(old(self).bytes@, 0),
                        0x8000_0000_0000_0000,
                    )
                    &&& final(self).bytes@ == old(self).bytes@.skip(8)
                },
                Err(_) => old(self).bytes@.len() < 8 && final(self).bytes@ == old(self).bytes@,
            },
    {
        let u = self.u64()?;
        if u < 0x8000_0000_0000_0000 {
            Ok(u as i64)
        } else {
            Ok(((u as i128) - 0x1_0000_0000_0000_0000) as i64)
        }
    }

    /// Decodes a little-endian `i128`.
    pub fn i128(&mut self) -> (r: Result<i128, ParserError>)
        ensures
            match r {
                Ok(v) => {
                    &&& 16 <= old(self).bytes@.len()
                    &&& v == twos_complement(
                        le_u128_at(old(self).bytes@, 0),
                        0x8000_0000_0000_0000_0000_0000_0000_0000,
                    )
                    &&& final(self).bytes@ == old(self).bytes@.skip(16)
                },
                Err(_) => old(self).bytes@.len() < 16 && final(self).bytes@ == old(self).bytes@,
            },
    {
        let u = self.u128()?;
        if u < 0x8000_0000_0000_0000_0000_0000_0000_0000 {
            Ok(u as i128)
        } else {
            let d = (u - 0x8000_0000_0000_0000_0000_0000_0000_0000) as i128;
            Ok(d + i128::MIN)
        }
    }

    /// Decodes a NUL-terminated string. Returns the bytes before the first NUL and consumes
    /// them together with the NUL. Fails, consuming nothing, when no NUL remains.
    pub fn strz(&mut self) -> (r: Result<&'a [u8], ParserError>)
        ensures
            match r {
                Ok(s) => {
                    &&& has_nul(old(self).bytes@)
                    &&& s@.len() == first_nul(old(self).bytes@)
                    &&& is_first_nul(old(self).bytes@, s@.len() as int)
                    &&& s@ == old(self).bytes@.take(s@.len() as int)
                    &&& final(self).bytes@ == old(self).bytes@.skip(s@.len() + 1int)
                },
                Err(_) => !has_nul(old(self).bytes@) && final(self).bytes@ == old(self).bytes@,
            },
    {
        let b = self.bytes;
        let n = b.len();
        let mut i: usize = 0;
        while i < n
            invariant
                n == b@.len(),
                b@ == old(self).bytes@,
                self.bytes@ == b@,
                i <= n,
                forall|j: int| 0 <= j < i ==> b@[j] != 0,
            decreases n - i,
        {
            if b[i] == 0 {
                let (s, tail) = b.split_at(i);
                let (_, rest) = tail.split_at(1);
                assert(rest@ =~= b@.skip(i + 1));
                assert(s@ =~= b@.take(i as int));
                proof {
                    lemma_first_nul(b@);
                }
                self.bytes = rest;
                return Ok(s);
            }
            i = i + 1;
        }
        assert(!has_nul(b@));
        Err(ParserError)
    }

    /// Consumes a NUL-terminated string. Fails, consuming nothing, when no NUL remains.
    pub fn skip_strz(&mut self) -> (r: Result<(), ParserError>)
        ensures
            r is Ok <==> has_nul(old(self).bytes@),
            r is Ok ==> final(self).bytes@ == old(self).bytes@.skip(
                first_nul(old(self).bytes@) + 1,
            ),
            r is Err ==> final(self).bytes@ == old(self).bytes@,
    {
        let ghost s = self.bytes@;
        match self.strz() {
            Ok(z) => {
                proof {
                    lemma_first_nul(s);
                }
                Ok(())
            },
            Err(e) => Err(e),
        }
    }

    /// Decodes a string that is prefixed by its length in one byte.
    pub fn strt_raw(&mut self) -> (r: Result<&'a [u8], ParserError>)
        ensures
            match r {
                Ok(s) => {
                    &&& 1 <= old(self).bytes@.len()
                    &&& s@.len() == old(self).bytes@[0]
                    &&& 1 + s@.len() <= old(self).bytes@.len()
                    &&& s@ == old(self).bytes@.subrange(1, 1int + s@.len())
                    &&& final(self).bytes@ == old(self).bytes@.skip(1int + s@.len())
                },
                Err(_) => {
                    ||| old(self).bytes@.len() < 1
                    ||| old(self).bytes@.len() < 1 + old(self).bytes@[0]
                },
            },
    {
        let len = self.u8()?;
        let s = self.bytes(len as usize)?;
        Ok(s)
    }
}

} // verus!
