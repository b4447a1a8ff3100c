use vstd::prelude::*;
use rand::Rng;
use rand::rngs::SmallRng;

verus! {

#[verifier::external_type_specification]
#[verifier::external_body]
pub struct ExSmallRng(SmallRng);

/// How the galaxy is populated.
#[derive(Debug, Clone, Copy, PartialEq, Eq, Structural)]
pub enum GalaxyMode {
    /// Real star catalog + known exoplanets, procedural fallback for deep space.
    RealUniverse,
    /// Fully deterministic procedural generation — no catalog data.
    Procedural,
}

/// `Rng::random_range(0..n)` on a `SmallRng`: a draw from `0..n`. The value
/// depends on the generator's state, so nothing more than its range is
/// stated; `n > 0` because the call panics on an empty range.
#[verifier::external_body]
fn random_index(rng: &mut SmallRng, n: usize) -> (r: usize)
    requires
        n > 0,
    ensures
        r < n,
{
    rng.random_range(0..n)
}

/// Number of name prefixes for procedural stars.
pub const NAME_PREFIX_COUNT: usize = 15;

/// Number of name suffixes for procedural stars.
pub const NAME_SUFFIX_COUNT: usize = 16;

/// The prefixes of procedural star names.
pub open spec fn name_prefixes() -> Seq<Seq<char>> {
    seq![
        "Kep"@, "Ari"@, "Tau"@, "Vel"@, "Cen"@, "Lyr"@, "Cyg"@, "Her"@, "Aqu"@, "Per"@, "Ori"@,
        "Gem"@, "Leo"@, "Vir"@, "Sco"@,
    ]
}

/// The suffixes of procedural star names.
pub open spec fn name_suffixes() -> Seq<Seq<char>> {
    seq![
        "ara"@, "ion"@, "eon"@, "ius"@, "an"@, "is"@, "os"@, "us"@, "ix"@, "ax"@, "id"@, "ux"@,
        "el"@, "al"@, "on"@, "en"@,
    ]
}

fn name_prefix(i: usize) -> (r: &'static str)
    requires
        i < NAME_PREFIX_COUNT,
    ensures
        r@ == name_prefixes()[i as int],
{
    match i {
        0 => "Kep",
        1 => "Ari",
        2 => "Tau",
        3 => "Vel",
        4 => "Cen",
        5 => "Lyr",
        6 => "Cyg",
        7 => "Her",
        8 => "Aqu",
        9 => "Per",
        10 => "Ori",
        11 => "Gem",
        12 => "Leo",
        13 => "Vir",
        _ => "Sco",
    }
}

fn name_suffix(i: usize) -> (r: &'static str)
    requires
        i < NAME_SUFFIX_COUNT,
    ensures
        r@ == name_suffixes()[i as int],
{
    match i {
        0 => "ara",
        1 => "ion",
        2 => "eon",
        3 => "ius",
        4 => "an",
        5 => "is",
        6 => "os",
        7 => "us",
        8 => "ix",
        9 => "ax",
        10 => "id",
        11 => "ux",
        12 => "el",
        13 => "al",
        14 => "on",
        _ => "en",
    }
}

/// The procedural star name made of prefix `p` and suffix `s`.
pub fn name_from_parts(p: usize, s: usize) -> (r: String)
    requires
        p < NAME_PREFIX_COUNT,
        s < NAME_SUFFIX_COUNT,
    ensures
        r@ == name_prefixes()[p as int] + name_suffixes()[s as int],
{
    let mut r = String::from_str(name_prefix(p));
    r.append(name_suffix(s));
    r
}

/// A random procedural star name: a prefix and a suffix drawn from `rng`.
pub fn random_name(rng: &mut SmallRng) -> (r: String)
    ensures
        exists|p: int, s: int|
            0 <= p < NAME_PREFIX_COUNT && 0 <= s < NAME_SUFFIX_COUNT && r@ == name_prefixes()[p]
                + name_suffixes()[s],
{
    let p = random_index(rng, NAME_PREFIX_COUNT);
    let s = random_index(rng, NAME_SUFFIX_COUNT);
    name_from_parts(p, s)
}

} // verus!
