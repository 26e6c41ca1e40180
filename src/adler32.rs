use vstd::prelude::*;

verus! {

/// The modulus of both running sums.
pub const MOD_ADLER: u32 = 65_521;

/// The two running sums `(A, B)` after `data`, starting from `start`.
pub open spec fn adler_sums_from(start: (nat, nat), data: Seq<u8>) -> (nat, nat)
    decreases data.len(),
{
    if data.len() == 0 {
        start
    } else {
        let prev = adler_sums_from(start, data.drop_last());
        let a = (prev.0 + data.last() as nat) % (MOD_ADLER as nat);
        let b = (prev.1 + a) % (MOD_ADLER as nat);
        (a, b)
    }
}

/// The packed value `(B << 16) | A` of a pair of running sums.
pub open spec fn adler_pack(sums: (nat, nat)) -> u32 {
    (sums.1 * 65536 + sums.0) as u32
}

/// The running sums held in a packed value.
pub open spec fn adler_unpack(value: u32) -> (nat, nat) {
    ((value % 65536) as nat, (value / 65536) as nat)
}

/// The Adler-32 checksum of `data`.
pub open spec fn adler32(data: Seq<u8>) -> u32 {
    adler_pack(adler_sums_from((1, 0), data))
}

/// The checksum of `prefix || data`, computed from the checksum of `prefix`
/// and `data` alone.
pub open spec fn adler32_resume(checksum: u32, data: Seq<u8>) -> u32 {
    adler_pack(adler_sums_from(adler_unpack(checksum), data))
}

proof fn lemma_sums_bounded(start: (nat, nat), data: Seq<u8>)
    requires
        start.0 < MOD_ADLER,
        start.1 < MOD_ADLER,
    ensures
        adler_sums_from(start, data).0 < MOD_ADLER,
        adler_sums_from(start, data).1 < MOD_ADLER,
    decreases data.len(),
{
    if data.len() > 0 {
        lemma_sums_bounded(start, data.drop_last());
    }
}

proof fn lemma_sums_concat(start: (nat, nat), a: Seq<u8>, b: Seq<u8>)
    ensures
        adler_sums_from(start, a + b) == adler_sums_from(adler_sums_from(start, a), b),
    decreases b.len(),
{
    if b.len() == 0 {
        assert(a + b =~= a);
    } else {
        assert((a + b).drop_last() =~= a + b.drop_last());
        lemma_sums_concat(start, a, b.drop_last());
    }
}

proof fn lemma_unpack_pack(sums: (nat, nat))
    requires
        sums.0 < MOD_ADLER,
        sums.1 < MOD_ADLER,
    ensures
        adler_unpack(adler_pack(sums)) == sums,
{
    let v = sums.1 * 65536 + sums.0;
    assert(v < 0x1_0000_0000) by (nonlinear_arith)
        requires sums.0 < 65521, sums.1 < 65521, v == sums.1 * 65536 + sums.0;
    assert(v % 65536 == sums.0 && v / 65536 == sums.1) by (nonlinear_arith)
        requires sums.0 < 65536, v == sums.1 * 65536 + sums.0;
}

/// The checksum of no bytes at all is the initial value 1.
pub proof fn lemma_adler32_empty()
    ensures
        adler32(Seq::<u8>::empty()) == Adler32Checksum::INITIAL,
{
}

/// The checksum of a concatenation is a function of the checksum of its
/// first part and of its second part: `adler32(a || b)` resumes from
/// `adler32(a)` over `b`.
pub proof fn lemma_adler32_concat(a: Seq<u8>, b: Seq<u8>)
    ensures
        adler32(a + b) == adler32_resume(adler32(a), b),
{
    lemma_sums_concat((1, 0), a, b);
    lemma_sums_bounded((1, 0), a);
    lemma_unpack_pack(adler_sums_from((1, 0), a));
}

/// Equal byte sequences have equal checksums.
pub proof fn lemma_adler32_deterministic(a: Seq<u8>, b: Seq<u8>)
    requires
        a =~= b,
    ensures
        adler32(a) == adler32(b),
{
}

/// The uppercase hexadecimal digit of `d` (below 16).
pub open spec fn upper_hex_digit(d: u32) -> char {
    if d < 10 {
        (48 + d) as char
    } else {
        (55 + d) as char
    }
}

/// The eight uppercase hexadecimal digits of `v`, most significant first.
pub open spec fn upper_hex8(v: u32) -> Seq<char> {
    Seq::new(8, |i: int| upper_hex_digit((v >> ((28 - 4 * i) as u32)) & 0xF))
}

/// Relies on `format!` with `{:08X}`: uppercase hexadecimal, zero-padded to
/// eight digits, which every `u32` fits.
#[verifier::external_body]
fn format_upper_hex8(v: u32) -> (r: String)
    ensures
        r@ == upper_hex8(v),
{
    format!("{:08X}", v)
}

/// A 32-bit Adler checksum value.
#[derive(Debug, Clone, Copy, PartialEq, Eq, Hash)]
pub struct Adler32Checksum(u32);

impl View for Adler32Checksum {
    type V = u32;

    closed spec fn view(&self) -> u32 {
        self.0
    }
}

impl Adler32Checksum {
    /// The modulus of both running sums.
    pub const MOD_ADLER: u32 = 65_521;

    /// The checksum of the empty input.
    pub const INITIAL: u32 = 1;

    /// Computes the checksum of `data`.
    pub fn calculate(data: &[u8]) -> (r: Self)
        ensures
            r@ == adler32(data@),
    {
        let mut sum_low: u32 = 1;
        let mut sum_high: u32 = 0;
        let mut i: usize = 0;
        while i < data.len()
            invariant
                i <= data@.len(),
                (sum_low as nat, sum_high as nat) == adler_sums_from((1, 0), data@.take(i as int)),
                sum_low < MOD_ADLER,
                sum_high < MOD_ADLER,
            decreases data@.len() - i,
        {
            assert(data@.take(i + 1).drop_last() =~= data@.take(i as int));
            sum_low = (sum_low + data[i] as u32) % MOD_ADLER;
            sum_high = (sum_high + sum_low) % MOD_ADLER;
            i += 1;
        }
        assert(data@.take(i as int) =~= data@);
        let h = sum_high;
        let l = sum_low;
        assert((h << 16) | l == h * 65536 + l) by (bit_vector)
            requires h < 65536, l < 65536;
        Adler32Checksum((sum_high << 16) | sum_low)
    }

    /// The value as eight uppercase hexadecimal digits.
    pub fn to_hex_string(&self) -> (r: String)
        ensures
            r@ == upper_hex8(self@),
    {
        format_upper_hex8(self.0)
    }

    /// Whether this is the checksum of the empty input.
    pub fn is_initial(&self) -> (r: bool)
        ensures
            r == (self@ == Self::INITIAL),
    {
        self.0 == Self::INITIAL
    }

    /// The low and high 16-bit halves: the sums `A` and `B`.
    pub fn components(&self) -> (r: (u16, u16))
        ensures
            r.0 == self@ % 65536,
            r.1 == self@ / 65536,
    {
        let v = self.0;
        let a = (v & 0xFFFF) as u16;
        let b = ((v >> 16) & 0xFFFF) as u16;
        assert(v & 0xFFFF == v % 65536 && (v >> 16) & 0xFFFF == v / 65536) by (bit_vector);
        (a, b)
    }
}

} // verus!

verus! {

impl From<u32> for Adler32Checksum {
    fn from(value: u32) -> (r: Self)
        ensures
            r@ == value,
    {
        Adler32Checksum(value)
    }
}

impl vstd::std_specs::convert::FromSpecImpl<u32> for Adler32Checksum {
    open spec fn obeys_from_spec() -> bool {
        true
    }

    closed spec fn from_spec(v: u32) -> Self {
        Adler32Checksum(v)
    }
}

impl<'a> From<&'a [u8]> for Adler32Checksum {
    fn from(bytes: &'a [u8]) -> (r: Self)
        ensures
            r@ == adler32(bytes@),
    {
        Self::calculate(bytes)
    }
}

impl<'a> vstd::std_specs::convert::FromSpecImpl<&'a [u8]> for Adler32Checksum {
    open spec fn obeys_from_spec() -> bool {
        true
    }

    closed spec fn from_spec(bytes: &'a [u8]) -> Self {
        Adler32Checksum(adler32(bytes@))
    }
}

impl From<Vec<u8>> for Adler32Checksum {
    fn from(bytes: Vec<u8>) -> (r: Self)
        ensures
            r@ == adler32(bytes@),
    {
        Self::calculate(bytes.as_slice())
    }
}

impl vstd::std_specs::convert::FromSpecImpl<Vec<u8>> for Adler32Checksum {
    open spec fn obeys_from_spec() -> bool {
        true
    }

    closed spec fn from_spec(bytes: Vec<u8>) -> Self {
        Adler32Checksum(adler32(bytes@))
    }
}

impl<'a, const N: usize> From<&'a [u8; N]> for Adler32Checksum {
    fn from(bytes: &'a [u8; N]) -> (r: Self)
        ensures
            r@ == adler32(bytes@),
    {
        Self::calculate(bytes.as_slice())
    }
}

impl<'a, const N: usize> vstd::std_specs::convert::FromSpecImpl<&'a [u8; N]> for Adler32Checksum {
    open spec fn obeys_from_spec() -> bool {
        true
    }

    closed spec fn from_spec(bytes: &'a [u8; N]) -> Self {
        Adler32Checksum(adler32(bytes@))
    }
}

impl core::ops::Deref for Adler32Checksum {
    type Target = u32;

    fn deref(&self) -> (r: &u32)
        ensures
            *r == self@,
    {
        &self.0
    }
}

} // verus!
