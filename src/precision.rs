//! Numeric precisions and the factor tables that the energy formulas read.
use vstd::prelude::*;

verus! {

/// Numeric representation used for weights and activations.
#[derive(Clone, Copy, Debug, PartialEq, Eq, Structural)]
pub enum Precision {
    Fp32,
    Fp16,
    Int8,
    Int4,
}

/// The label that selects a precision; every other label means `Fp32`.
pub open spec fn precision_of_label(s: Seq<char>) -> Precision {
    if s == seq!['f', 'p', '1', '6'] {
        Precision::Fp16
    } else if s == seq!['i', 'n', 't', '8'] {
        Precision::Int8
    } else if s == seq!['i', 'n', 't', '4'] {
        Precision::Int4
    } else {
        Precision::Fp32
    }
}

/// Computation power factor, in hundredths.
pub open spec fn compute_percent(p: Precision) -> nat {
    match p {
        Precision::Fp32 => 100,
        Precision::Fp16 => 65,
        Precision::Int8 => 35,
        Precision::Int4 => 20,
    }
}

/// Memory bandwidth factor, in hundredths.
pub open spec fn bandwidth_percent(p: Precision) -> nat {
    match p {
        Precision::Fp32 => 100,
        Precision::Fp16 => 80,
        Precision::Int8 => 60,
        Precision::Int4 => 40,
    }
}

/// Width of the representation in bits.
pub open spec fn bit_width(p: Precision) -> nat {
    match p {
        Precision::Fp32 => 32,
        Precision::Fp16 => 16,
        Precision::Int8 => 8,
        Precision::Int4 => 4,
    }
}

/// Position in the order of increasing width: int4, int8, fp16, fp32.
pub open spec fn width_rank(p: Precision) -> nat {
    match p {
        Precision::Int4 => 0,
        Precision::Int8 => 1,
        Precision::Fp16 => 2,
        Precision::Fp32 => 3,
    }
}

/// The golden ratio in units of 10^-12.
pub const GOLDEN_RATIO_PICO: u64 = 1618033988749;

/// One unit in the scale of `GOLDEN_RATIO_PICO`.
pub const PICO_SCALE: u64 = 1000000000000;

/// `floor(bits * golden ratio)`, the index the quantum efficiency term uses.
pub open spec fn golden_index_of(p: Precision) -> nat {
    (bit_width(p) * GOLDEN_RATIO_PICO as nat) / (PICO_SCALE as nat)
}

fn label_is(s: &str, w: &[char]) -> (r: bool)
    ensures
        r == (s@ == w@),
{
    let n = s.unicode_len();
    if n != w.len() {
        return false;
    }
    let mut i: usize = 0;
    while i < n
        invariant
            n == s@.len(),
            n == w@.len(),
            i <= n,
            forall|j: int| 0 <= j < i ==> s@[j] == w@[j],
        decreases n - i,
    {
        if s.get_char(i) != w[i] {
            assert(s@[i as int] != w@[i as int]);
            return false;
        }
        i += 1;
    }
    assert(s@ =~= w@);
    true
}

impl Precision {
    /// Reads a precision label; a label other than `fp16`, `int8` and `int4`
    /// selects the `Fp32` baseline.
    pub fn from_label(label: &str) -> (r: Precision)
        ensures
            r == precision_of_label(label@),
    {
        let fp16: [char; 4] = ['f', 'p', '1', '6'];
        let int8: [char; 4] = ['i', 'n', 't', '8'];
        let int4: [char; 4] = ['i', 'n', 't', '4'];
        assert(fp16@ =~= seq!['f', 'p', '1', '6']);
        assert(int8@ =~= seq!['i', 'n', 't', '8']);
        assert(int4@ =~= seq!['i', 'n', 't', '4']);
        if label_is(label, &fp16) {
            Precision::Fp16
        } else if label_is(label, &int8) {
            Precision::Int8
        } else if label_is(label, &int4) {
            Precision::Int4
        } else {
            Precision::Fp32
        }
    }

    /// Computation power factor in hundredths (fp16 0.65, int8 0.35,
    /// int4 0.2, fp32 1.0).
    pub fn compute_factor_percent(self) -> (r: u32)
        ensures
            r == compute_percent(self),
    {
        match self {
            Precision::Fp32 => 100,
            Precision::Fp16 => 65,
            Precision::Int8 => 35,
            Precision::Int4 => 20,
        }
    }

    /// Memory bandwidth factor in hundredths (fp16 0.8, int8 0.6, int4 0.4,
    /// fp32 1.0).
    pub fn bandwidth_factor_percent(self) -> (r: u32)
        ensures
            r == bandwidth_percent(self),
    {
        match self {
            Precision::Fp32 => 100,
            Precision::Fp16 => 80,
            Precision::Int8 => 60,
            Precision::Int4 => 40,
        }
    }

    /// Width in bits, which is also the harmonic amplitude of the Fourier term.
    pub fn bits(self) -> (r: u32)
        ensures
            r == bit_width(self),
    {
        match self {
            Precision::Fp32 => 32,
            Precision::Fp16 => 16,
            Precision::Int8 => 8,
            Precision::Int4 => 4,
        }
    }

    /// `floor(bits * 1.618033988749)`.
    pub fn golden_index(self) -> (r: u32)
        ensures
            r == golden_index_of(self),
    {
        let b = self.bits() as u64;
        let prod = b * GOLDEN_RATIO_PICO;
        (prod / PICO_SCALE) as u32
    }
}

proof fn lemma_fp32_label()
    ensures
        precision_of_label(seq!['f', 'p', '3', '2']) == Precision::Fp32,
{
    assert(seq!['f', 'p', '3', '2'] != seq!['f', 'p', '1', '6']) by {
        assert(seq!['f', 'p', '3', '2'][2] != seq!['f', 'p', '1', '6'][2]);
    }
    assert(seq!['f', 'p', '3', '2'] != seq!['i', 'n', 't', '8']) by {
        assert(seq!['f', 'p', '3', '2'][0] != seq!['i', 'n', 't', '8'][0]);
    }
    assert(seq!['f', 'p', '3', '2'] != seq!['i', 'n', 't', '4']) by {
        assert(seq!['f', 'p', '3', '2'][0] != seq!['i', 'n', 't', '4'][0]);
    }
}

/// A label that names no precision gives the same precision, and so the same
/// factors, as `fp32`.
pub proof fn lemma_unknown_label_is_baseline(s: Seq<char>)
    requires
        s != seq!['f', 'p', '1', '6'],
        s != seq!['i', 'n', 't', '8'],
        s != seq!['i', 'n', 't', '4'],
    ensures
        precision_of_label(s) == precision_of_label(seq!['f', 'p', '3', '2']),
        compute_percent(precision_of_label(s)) == compute_percent(Precision::Fp32),
        bandwidth_percent(precision_of_label(s)) == bandwidth_percent(Precision::Fp32),
        bit_width(precision_of_label(s)) == bit_width(Precision::Fp32),
{
    lemma_fp32_label();
}

/// Both factors grow strictly with the width of the precision: along
/// int4, int8, fp16, fp32 each factor is larger than the one before.
pub proof fn lemma_factors_grow_with_width(a: Precision, b: Precision)
    requires
        width_rank(a) < width_rank(b),
    ensures
        compute_percent(a) < compute_percent(b),
        bandwidth_percent(a) < bandwidth_percent(b),
        bit_width(a) < bit_width(b),
{
}

} // verus!
