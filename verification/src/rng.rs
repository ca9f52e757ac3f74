//! Random distribution module: uniformly and non-uniformly distributed
//! integers and strings, as the benchmark's numeric rules demand.
//!
//! All distribution shaping is done here in verified code; the only thing
//! taken on trust is the raw machine-word entropy source.

use vstd::prelude::*;
use vstd::string::StringExecFns;
use vstd::utf8::is_ascii_chars;

verus! {

/// Raw 64-bit entropy word.
///
/// Relies on rand::random: returns a fresh value drawn from the
/// thread-local generator. Nothing can be promised of a random value.
#[verifier::external_body]
fn entropy_u64() -> u64 {
    rand::random::<u64>()
}

/// A buffer of raw entropy bytes.
///
/// Relies on rand::Rng::fill on the thread-local generator: fills the
/// buffer with random bytes. Nothing can be promised of random values
/// beyond the buffer's length.
#[verifier::external_body]
fn entropy_bytes(n: usize) -> (v: Vec<u8>)
    ensures
        v@.len() == n,
{
    let mut v = vec![0u8; n];
    rand::Rng::fill(&mut rand::thread_rng(), v.as_mut_slice());
    v
}

/// Builds a `String` from ASCII bytes, one character per byte.
///
/// Relies on String::from_utf8: bytes below 128 are valid UTF-8 and decode
/// to the characters with the same code points.
#[verifier::external_body]
pub(crate) fn string_from_ascii(bytes: Vec<u8>) -> (s: String)
    requires
        forall|i: int| 0 <= i < bytes@.len() ==> bytes@[i] < 128,
    ensures
        s@.len() == bytes@.len(),
        forall|i: int| 0 <= i < bytes@.len() ==> s@[i] == bytes@[i] as char,
        is_ascii_chars(s@),
{
    match String::from_utf8(bytes) {
        Ok(s) => s,
        Err(_) => String::new(),
    }
}

/// A byte of the 62-character alphanumeric alphabet.
pub open spec fn is_alnum_byte(b: u8) -> bool {
    (48 <= b && b <= 57) || (65 <= b && b <= 90) || (97 <= b && b <= 122)
}

/// A character of the 62-character alphanumeric alphabet.
pub open spec fn is_alnum_char(c: char) -> bool {
    ((c as u32) < 128) && is_alnum_byte(c as u8)
}

/// A decimal digit character.
pub open spec fn is_digit_char(c: char) -> bool {
    48 <= (c as u32) && (c as u32) <= 57
}

/// The benchmark's NURand composition: a masked low-order sample OR-ed with
/// a ranged sample, shifted by the run constant and folded back into range.
pub open spec fn spec_nurand(a: i32, b: i32, c: int, low: int, high: int) -> int
    recommends
        low <= high,
{
    (((a | b) as int) + c) % (high - low + 1) + low
}

/// Syllable of the deterministic surname table, one entry per decimal digit.
pub open spec fn spec_syllable(d: int) -> Seq<char> {
    if d == 0 {
        "BAR"@
    } else if d == 1 {
        "OUGHT"@
    } else if d == 2 {
        "ABLE"@
    } else if d == 3 {
        "PRI"@
    } else if d == 4 {
        "PRES"@
    } else if d == 5 {
        "ESE"@
    } else if d == 6 {
        "ANTI"@
    } else if d == 7 {
        "CALLY"@
    } else if d == 8 {
        "ATION"@
    } else {
        "EING"@
    }
}

/// The synthetic surname for an index: hundreds, tens and units digits each
/// mapped through the syllable table and concatenated in that order.
pub open spec fn spec_last_name(idx: int) -> Seq<char> {
    spec_syllable(idx / 100 % 10) + spec_syllable(idx / 10 % 10) + spec_syllable(idx % 10)
}

/// A generator instance: holds the per-run NURand constant. Every terminal
/// and every preparation run owns an independent instance.
pub struct TpcRandom {
    c: i32,
}

impl TpcRandom {
    /// The run constant is always within the masked sample space.
    #[verifier::type_invariant]
    spec fn type_wf(&self) -> bool {
        0 <= self.c <= 8191
    }

    /// The run constant seen by specifications.
    pub closed spec fn constant(&self) -> int {
        self.c as int
    }

    /// A fresh generator with a randomly drawn run constant.
    pub fn new() -> (r: TpcRandom)
        ensures
            0 <= r.constant() <= 8191,
    {
        let mut r = TpcRandom { c: 0 };
        let c = r.i32_range(0, 8191);
        TpcRandom { c }
    }

    /// A generator with a caller-chosen run constant, for reproducible runs.
    pub fn with_constant(c: i32) -> (r: TpcRandom)
        requires
            0 <= c <= 8191,
        ensures
            r.constant() == c as int,
    {
        TpcRandom { c }
    }

    /// The run constant of this generator.
    pub fn run_constant(&self) -> (c: i32)
        ensures
            c as int == self.constant(),
    {
        self.c
    }

    /// Inclusive-range uniform integer, by reducing a uniformly sampled
    /// machine word modulo the range width (a documented approximation:
    /// ranges not dividing the sample space evenly carry a slight bias).
    pub fn i32_range(&mut self, low: i32, high: i32) -> (r: i32)
        requires
            low <= high,
        ensures
            low <= r <= high,
            final(self).constant() == old(self).constant(),
    {
        let w = entropy_u64();
        let span = (high as i64 - low as i64 + 1) as u64;
        let off = w % span;
        (low as i64 + off as i64) as i32
    }

    /// The NURand non-uniform integer: `((A | B) + C) mod (high-low+1) + low`
    /// where `A` is uniform over `[0, mask]`, `B` uniform over `[low, high]`
    /// and `C` is this generator's run constant.
    pub fn non_uniform_i32(&mut self, mask: i32, low: i32, high: i32) -> (r: i32)
        requires
            0 <= mask,
            0 <= low <= high,
        ensures
            low <= r <= high,
            final(self).constant() == old(self).constant(),
    {
        proof {
            use_type_invariant(&*self);
        }
        let a = self.i32_range(0, mask);
        let b = self.i32_range(low, high);
        let c = self.c;
        nurand(a, b, c, low, high)
    }

    /// The alphabet byte for one raw entropy byte, reduced modulo the
    /// 62-character alphabet (the same documented modulo approximation as
    /// the ranged integers).
    fn alnum_of(raw: u8) -> (b: u8)
        ensures
            is_alnum_byte(b),
    {
        let idx = raw % 62;
        if idx < 10 {
            48 + idx
        } else if idx < 36 {
            65 + (idx - 10)
        } else {
            97 + (idx - 36)
        }
    }

    /// Alphanumeric bytes of the given length.
    fn alnum_bytes(&mut self, len: usize) -> (v: Vec<u8>)
        ensures
            v@.len() == len,
            forall|i: int| 0 <= i < v@.len() ==> is_alnum_byte(#[trigger] v@[i]),
            final(self).constant() == old(self).constant(),
    {
        let raw = entropy_bytes(len);
        let mut v: Vec<u8> = Vec::new();
        let mut i: usize = 0;
        while i < len
            invariant
                i <= len,
                raw@.len() == len,
                v@.len() == i,
                forall|j: int| 0 <= j < v@.len() ==> is_alnum_byte(#[trigger] v@[j]),
                self.constant() == old(self).constant(),
            decreases len - i,
        {
            let b = Self::alnum_of(raw[i]);
            v.push(b);
            i = i + 1;
        }
        v
    }

    /// Random alphanumeric string, length uniform in `[len_low, len_high]`.
    pub fn alnum_string(&mut self, len_low: usize, len_high: usize) -> (s: String)
        requires
            len_low <= len_high,
            len_high <= 10000,
        ensures
            len_low <= s@.len() <= len_high,
            forall|i: int| 0 <= i < s@.len() ==> is_alnum_char(#[trigger] s@[i]),
            is_ascii_chars(s@),
            final(self).constant() == old(self).constant(),
    {
        let len = self.i32_range(len_low as i32, len_high as i32);
        let bytes = self.alnum_bytes(len as usize);
        assert(forall|i: int| 0 <= i < bytes@.len() ==> bytes@[i] < 128);
        let s = string_from_ascii(bytes);
        assert(forall|i: int| 0 <= i < s@.len() ==> is_alnum_char(#[trigger] s@[i])) by {
            assert(forall|i: int| 0 <= i < s@.len() ==> #[trigger] s@[i] as u8 as char == s@[i]);
        }
        s
    }

    /// Random fixed-length digit string.
    pub fn num_string(&mut self, len: usize) -> (s: String)
        requires
            len <= 10000,
        ensures
            s@.len() == len,
            forall|i: int| 0 <= i < s@.len() ==> is_digit_char(#[trigger] s@[i]),
            is_ascii_chars(s@),
            final(self).constant() == old(self).constant(),
    {
        let raw = entropy_bytes(len);
        let mut v: Vec<u8> = Vec::new();
        let mut i: usize = 0;
        while i < len
            invariant
                i <= len,
                raw@.len() == len,
                v@.len() == i,
                forall|j: int| 0 <= j < v@.len() ==> 48 <= #[trigger] v@[j] <= 57,
                self.constant() == old(self).constant(),
            decreases len - i,
        {
            let b = 48 + raw[i] % 10;
            v.push(b);
            i = i + 1;
        }
        string_from_ascii(v)
    }

    /// Zip code: four random digits then the fixed five-character suffix.
    pub fn zip_code(&mut self) -> (s: String)
        ensures
            s@.len() == 9,
            forall|i: int| 0 <= i < 4 ==> is_digit_char(#[trigger] s@[i]),
            s@.subrange(4, 9) == "11111"@,
            is_ascii_chars(s@),
            final(self).constant() == old(self).constant(),
    {
        let mut s = self.num_string(4);
        s.append("11111");
        proof {
            reveal_strlit("11111");
            assert(s@.subrange(4, 9) =~= "11111"@);
            assert(forall|i: int| 0 <= i < 4 ==> is_digit_char(#[trigger] s@[i]));
        }
        s
    }

    /// Item data string: alphanumeric, length uniform in `[26, 50]`; with
    /// ten percent probability eight characters at a random offset are
    /// replaced by the literal marker of a synthetic "original" item.
    pub fn item_data(&mut self) -> (s: String)
        ensures
            26 <= s@.len() <= 50,
            forall|i: int| 0 <= i < s@.len() ==> is_alnum_char(#[trigger] s@[i]),
            is_ascii_chars(s@),
            final(self).constant() == old(self).constant(),
    {
        let len = self.i32_range(26, 50);
        let mut bytes = self.alnum_bytes(len as usize);
        let marked = self.i32_range(0, 9);
        if marked == 0 {
            let pos = self.i32_range(0, len - 8) as usize;
            let marker: [u8; 8] = [79, 82, 73, 71, 73, 78, 65, 76];
            let mut k: usize = 0;
            while k < 8
                invariant
                    k <= 8,
                    pos + 8 <= bytes@.len(),
                    bytes@.len() == len as int,
                    forall|j: int| 0 <= j < bytes@.len() ==> is_alnum_byte(#[trigger] bytes@[j]),
                    marker@ == seq![79u8, 82u8, 73u8, 71u8, 73u8, 78u8, 65u8, 76u8],
                    self.constant() == old(self).constant(),
                decreases 8 - k,
            {
                let b = marker[k];
                assert(is_alnum_byte(b));
                bytes.set(pos + k, b);
                k = k + 1;
            }
        }
        assert(forall|i: int| 0 <= i < bytes@.len() ==> bytes@[i] < 128);
        let s = string_from_ascii(bytes);
        assert(forall|i: int| 0 <= i < s@.len() ==> is_alnum_char(#[trigger] s@[i])) by {
            assert(forall|i: int| 0 <= i < s@.len() ==> #[trigger] s@[i] as u8 as char == s@[i]);
        }
        s
    }

    /// The deterministic synthetic surname for `idx`, one of exactly 1000
    /// distinct surnames for indices 0 through 999.
    pub fn last_name(idx: i32) -> (s: String)
        requires
            0 <= idx <= 999,
        ensures
            s@ == spec_last_name(idx as int),
            is_ascii_chars(s@),
    {
        let h = idx / 100 % 10;
        let t = idx / 10 % 10;
        let u = idx % 10;
        let mut s = String::new();
        s.append(Self::syllable(h));
        s.append(Self::syllable(t));
        s.append(Self::syllable(u));
        s
    }

    /// The syllable table entry for one decimal digit.
    fn syllable(d: i32) -> (s: &'static str)
        requires
            0 <= d <= 9,
        ensures
            s@ == spec_syllable(d as int),
            is_ascii_chars(s@),
    {
        proof {
            reveal_strlit("BAR");
            reveal_strlit("OUGHT");
            reveal_strlit("ABLE");
            reveal_strlit("PRI");
            reveal_strlit("PRES");
            reveal_strlit("ESE");
            reveal_strlit("ANTI");
            reveal_strlit("CALLY");
            reveal_strlit("ATION");
            reveal_strlit("EING");
        }
        if d == 0 {
            "BAR"
        } else if d == 1 {
            "OUGHT"
        } else if d == 2 {
            "ABLE"
        } else if d == 3 {
            "PRI"
        } else if d == 4 {
            "PRES"
        } else if d == 5 {
            "ESE"
        } else if d == 6 {
            "ANTI"
        } else if d == 7 {
            "CALLY"
        } else if d == 8 {
            "ATION"
        } else {
            "EING"
        }
    }
}

/// The NURand fold of two uniform samples and the run constant into the
/// inclusive range `[low, high]`.
pub fn nurand(a: i32, b: i32, c: i32, low: i32, high: i32) -> (r: i32)
    requires
        0 <= a,
        0 <= c,
        0 <= low <= b <= high,
    ensures
        r == spec_nurand(a, b, c as int, low as int, high as int),
        low <= r <= high,
{
    assert((a | b) >= 0) by (bit_vector)
        requires
            a >= 0,
            b >= 0,
    ;
    let or: i32 = a | b;
    let span: i64 = high as i64 - low as i64 + 1;
    let folded: i64 = (or as i64 + c as i64) % span + low as i64;
    folded as i32
}

} // verus!
