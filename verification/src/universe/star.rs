use vstd::prelude::*;
use crate::text::{chars_of, chars_eq, trim, trim_seq};

verus! {

/// Stellar classification, including stellar remnants.
#[derive(Debug, Clone, Copy, PartialEq, Eq, Structural)]
pub enum SpectralClass {
    O,
    B,
    A,
    F,
    G,
    K,
    M,
    /// Neutron star
    NS,
    /// White dwarf
    WD,
    /// Black hole
    BH,
}

/// The class that a spectral type string names: "BH" (after trimming) is a
/// black hole; otherwise the leading letter decides, with 'D' for white
/// dwarfs, 'N' and 'P' for neutron stars and M for anything unknown.
pub open spec fn spectral_class_of(s: Seq<char>) -> SpectralClass {
    let t = trim_seq(s);
    if t == "BH"@ {
        SpectralClass::BH
    } else if t.len() == 0 {
        SpectralClass::M
    } else if t[0] == 'O' {
        SpectralClass::O
    } else if t[0] == 'B' {
        SpectralClass::B
    } else if t[0] == 'A' {
        SpectralClass::A
    } else if t[0] == 'F' {
        SpectralClass::F
    } else if t[0] == 'G' {
        SpectralClass::G
    } else if t[0] == 'K' {
        SpectralClass::K
    } else if t[0] == 'M' {
        SpectralClass::M
    } else if t[0] == 'D' {
        SpectralClass::WD
    } else if t[0] == 'N' || t[0] == 'P' {
        SpectralClass::NS
    } else {
        SpectralClass::M
    }
}

/// The description shown for each class.
pub open spec fn spectral_label(c: SpectralClass) -> Seq<char> {
    match c {
        SpectralClass::O => "O (blue, ~30 000 K)"@,
        SpectralClass::B => "B (blue-white, ~10 000 K)"@,
        SpectralClass::A => "A (white, ~7 500 K)"@,
        SpectralClass::F => "F (yellow-white, ~6 000 K)"@,
        SpectralClass::G => "G (yellow, ~5 500 K) — like the Sun"@,
        SpectralClass::K => "K (orange, ~4 000 K)"@,
        SpectralClass::M => "M (red dwarf, ~3 000 K)"@,
        SpectralClass::NS => "Neutron Star"@,
        SpectralClass::WD => "White Dwarf"@,
        SpectralClass::BH => "Black Hole"@,
    }
}

impl SpectralClass {
    /// Parse the leading character(s) of a spectral type string.
    pub fn from_spectral_str(s: &str) -> (c: SpectralClass)
        ensures
            c == spectral_class_of(s@),
    {
        let t = trim(s);
        let v = chars_of(t.as_str());
        let bh = chars_of("BH");
        if chars_eq(&v, &bh) {
            return SpectralClass::BH;
        }
        if v.len() == 0 {
            return SpectralClass::M;
        }
        match v[0] {
            'O' => SpectralClass::O,
            'B' => SpectralClass::B,
            'A' => SpectralClass::A,
            'F' => SpectralClass::F,
            'G' => SpectralClass::G,
            'K' => SpectralClass::K,
            'M' => SpectralClass::M,
            'D' => SpectralClass::WD,  // DA, DQ, DZ white dwarfs
            'N' | 'P' => SpectralClass::NS,
            _ => SpectralClass::M,
        }
    }

    pub fn display(&self) -> (r: &'static str)
        ensures
            r@ == spectral_label(*self),
    {
        match self {
            SpectralClass::O => "O (blue, ~30 000 K)",
            SpectralClass::B => "B (blue-white, ~10 000 K)",
            SpectralClass::A => "A (white, ~7 500 K)",
            SpectralClass::F => "F (yellow-white, ~6 000 K)",
            SpectralClass::G => "G (yellow, ~5 500 K) — like the Sun",
            SpectralClass::K => "K (orange, ~4 000 K)",
            SpectralClass::M => "M (red dwarf, ~3 000 K)",
            SpectralClass::NS => "Neutron Star",
            SpectralClass::WD => "White Dwarf",
            SpectralClass::BH => "Black Hole",
        }
    }
}

/// Different classes are described differently: the description names the
/// class.
pub proof fn lemma_labels_distinct(a: SpectralClass, b: SpectralClass)
    ensures
        spectral_label(a) == spectral_label(b) ==> a == b,
{
    reveal_strlit("O (blue, ~30 000 K)");
    reveal_strlit("B (blue-white, ~10 000 K)");
    reveal_strlit("A (white, ~7 500 K)");
    reveal_strlit("F (yellow-white, ~6 000 K)");
    reveal_strlit("G (yellow, ~5 500 K) — like the Sun");
    reveal_strlit("K (orange, ~4 000 K)");
    reveal_strlit("M (red dwarf, ~3 000 K)");
    reveal_strlit("Neutron Star");
    reveal_strlit("White Dwarf");
    reveal_strlit("Black Hole");
    if spectral_label(a) == spectral_label(b) {
        assert(spectral_label(a)[0] == spectral_label(b)[0]);
        assert(spectral_label(a)[1] == spectral_label(b)[1]);
    }
}

/// A spectral type beginning with 'D' (DA, DQ, DZ, ...) is a white dwarf,
/// described as "White Dwarf".
pub proof fn lemma_white_dwarf(s: Seq<char>)
    requires
        trim_seq(s).len() > 0,
        trim_seq(s)[0] == 'D',
    ensures
        spectral_class_of(s) == SpectralClass::WD,
        spectral_label(spectral_class_of(s)) == "White Dwarf"@,
{
    reveal_strlit("BH");
    assert("BH"@[0] == 'B');
}

/// The description of an ordinary star begins with the letter of its
/// spectral type: a type starting with O, B, A, F, G, K or M is described
/// by that letter.
pub proof fn lemma_label_starts_with_type_letter(s: Seq<char>)
    requires
        trim_seq(s).len() > 0,
        trim_seq(s) != "BH"@,
        trim_seq(s)[0] == 'O' || trim_seq(s)[0] == 'B' || trim_seq(s)[0] == 'A' || trim_seq(s)[0]
            == 'F' || trim_seq(s)[0] == 'G' || trim_seq(s)[0] == 'K' || trim_seq(s)[0] == 'M',
    ensures
        spectral_label(spectral_class_of(s))[0] == trim_seq(s)[0],
{
    reveal_strlit("O (blue, ~30 000 K)");
    reveal_strlit("B (blue-white, ~10 000 K)");
    reveal_strlit("A (white, ~7 500 K)");
    reveal_strlit("F (yellow-white, ~6 000 K)");
    reveal_strlit("G (yellow, ~5 500 K) — like the Sun");
    reveal_strlit("K (orange, ~4 000 K)");
    reveal_strlit("M (red dwarf, ~3 000 K)");
}

} // verus!
