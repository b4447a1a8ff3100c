use vstd::prelude::*;

verus! {

/// The broad classes of planet that the galaxy generator produces.
#[derive(Debug, Clone, Copy, PartialEq, Eq, Structural)]
pub enum PlanetType {
    /// Rocky, Earth-like
    Terrestrial,
    /// Large rocky, thick atmosphere (Venus-like)
    SuperEarth,
    /// Gas giant (Jupiter/Saturn-like)
    GasGiant,
    /// Ice giant (Uranus/Neptune-like)
    IceGiant,
    /// Small, airless (Mercury/Moon-like)
    Barren,
    /// Ocean world
    OceanWorld,
    /// Hot Jupiter
    HotJupiter,
}

/// The label shown for each planet type.
pub open spec fn planet_type_label(t: PlanetType) -> Seq<char> {
    match t {
        PlanetType::Terrestrial => "Terrestrial"@,
        PlanetType::SuperEarth => "Super-Earth"@,
        PlanetType::GasGiant => "Gas Giant"@,
        PlanetType::IceGiant => "Ice Giant"@,
        PlanetType::Barren => "Barren"@,
        PlanetType::OceanWorld => "Ocean World"@,
        PlanetType::HotJupiter => "Hot Jupiter"@,
    }
}

impl PlanetType {
    /// Human-readable name of the planet type.
    pub fn display(&self) -> (r: &'static str)
        ensures
            r@ == planet_type_label(*self),
    {
        match self {
            PlanetType::Terrestrial => "Terrestrial",
            PlanetType::SuperEarth => "Super-Earth",
            PlanetType::GasGiant => "Gas Giant",
            PlanetType::IceGiant => "Ice Giant",
            PlanetType::Barren => "Barren",
            PlanetType::OceanWorld => "Ocean World",
            PlanetType::HotJupiter => "Hot Jupiter",
        }
    }
}

/// Infrastructure risk for digital consciousnesses operating on a surface,
/// from the most benign to the most hostile.
#[derive(Debug, Clone, Copy, PartialEq, Eq, Structural)]
pub enum InfraRisk {
    Minimal,
    Low,
    Moderate,
    High,
    Extreme,
}

/// The upper-case label of each risk level.
pub open spec fn risk_label(r: InfraRisk) -> Seq<char> {
    match r {
        InfraRisk::Minimal => "MINIMAL"@,
        InfraRisk::Low => "LOW"@,
        InfraRisk::Moderate => "MODERATE"@,
        InfraRisk::High => "HIGH"@,
        InfraRisk::Extreme => "EXTREME"@,
    }
}

/// The one-line explanation of each risk level.
pub open spec fn risk_description(r: InfraRisk) -> Seq<char> {
    match r {
        InfraRisk::Minimal => "benign — full sensor deployment possible"@,
        InfraRisk::Low => "standard shielding sufficient"@,
        InfraRisk::Moderate => "elevated shielding recommended"@,
        InfraRisk::High => "reinforced housing required"@,
        InfraRisk::Extreme => "hostile to digital substrate"@,
    }
}

impl InfraRisk {
    pub fn label(&self) -> (r: &'static str)
        ensures
            r@ == risk_label(*self),
    {
        match self {
            InfraRisk::Minimal => "MINIMAL",
            InfraRisk::Low => "LOW",
            InfraRisk::Moderate => "MODERATE",
            InfraRisk::High => "HIGH",
            InfraRisk::Extreme => "EXTREME",
        }
    }

    pub fn description(&self) -> (r: &'static str)
        ensures
            r@ == risk_description(*self),
    {
        match self {
            InfraRisk::Minimal => "benign — full sensor deployment possible",
            InfraRisk::Low => "standard shielding sufficient",
            InfraRisk::Moderate => "elevated shielding recommended",
            InfraRisk::High => "reinforced housing required",
            InfraRisk::Extreme => "hostile to digital substrate",
        }
    }

    /// True for the two levels at which landing needs no warning.
    pub fn is_low(&self) -> (r: bool)
        ensures
            r <==> (*self == InfraRisk::Minimal || *self == InfraRisk::Low),
    {
        matches!(self, InfraRisk::Minimal | InfraRisk::Low)
    }
}

/// Different planet types are labelled differently.
pub proof fn lemma_planet_labels_distinct(a: PlanetType, b: PlanetType)
    ensures
        planet_type_label(a) == planet_type_label(b) ==> a == b,
{
    reveal_strlit("Terrestrial");
    reveal_strlit("Super-Earth");
    reveal_strlit("Gas Giant");
    reveal_strlit("Ice Giant");
    reveal_strlit("Barren");
    reveal_strlit("Ocean World");
    reveal_strlit("Hot Jupiter");
    if planet_type_label(a) == planet_type_label(b) {
        assert(planet_type_label(a)[0] == planet_type_label(b)[0]);
    }
}

/// Different risk levels have different labels and different explanations.
pub proof fn lemma_risk_labels_distinct(a: InfraRisk, b: InfraRisk)
    ensures
        risk_label(a) == risk_label(b) ==> a == b,
        risk_description(a) == risk_description(b) ==> a == b,
{
    reveal_strlit("MINIMAL");
    reveal_strlit("LOW");
    reveal_strlit("MODERATE");
    reveal_strlit("HIGH");
    reveal_strlit("EXTREME");
    reveal_strlit("benign — full sensor deployment possible");
    reveal_strlit("standard shielding sufficient");
    reveal_strlit("elevated shielding recommended");
    reveal_strlit("reinforced housing required");
    reveal_strlit("hostile to digital substrate");
    if risk_label(a) == risk_label(b) {
        assert(risk_label(a)[0] == risk_label(b)[0]);
        assert(risk_label(a)[1] == risk_label(b)[1]);
    }
    if risk_description(a) == risk_description(b) {
        assert(risk_description(a)[0] == risk_description(b)[0]);
    }
}

} // verus!
