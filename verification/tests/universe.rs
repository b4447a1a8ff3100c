use cosmic_sim::universe::galaxy::{
    name_from_parts, random_name, NAME_PREFIX_COUNT, NAME_SUFFIX_COUNT,
};
use cosmic_sim::universe::planet::{InfraRisk, PlanetType};
use cosmic_sim::universe::star::SpectralClass;
use cosmic_sim::universe::system::{planet_name, roman};
use rand::rngs::SmallRng;
use rand::SeedableRng;

#[test]
fn planet_type_labels() {
    assert_eq!(PlanetType::Terrestrial.display(), "Terrestrial");
    assert_eq!(PlanetType::SuperEarth.display(), "Super-Earth");
    assert_eq!(PlanetType::GasGiant.display(), "Gas Giant");
    assert_eq!(PlanetType::IceGiant.display(), "Ice Giant");
    assert_eq!(PlanetType::Barren.display(), "Barren");
    assert_eq!(PlanetType::OceanWorld.display(), "Ocean World");
    assert_eq!(PlanetType::HotJupiter.display(), "Hot Jupiter");
}

#[test]
fn infra_risk_labels_and_descriptions() {
    assert_eq!(InfraRisk::Minimal.label(), "MINIMAL");
    assert_eq!(InfraRisk::Extreme.label(), "EXTREME");
    assert_eq!(InfraRisk::Moderate.description(), "elevated shielding recommended");
    assert_eq!(InfraRisk::Extreme.description(), "hostile to digital substrate");
}

#[test]
fn only_minimal_and_low_risk_are_low() {
    assert!(InfraRisk::Minimal.is_low());
    assert!(InfraRisk::Low.is_low());
    assert!(!InfraRisk::Moderate.is_low());
    assert!(!InfraRisk::High.is_low());
    assert!(!InfraRisk::Extreme.is_low());
}

#[test]
fn spectral_types_parse_by_leading_letter() {
    assert_eq!(SpectralClass::from_spectral_str("G2V"), SpectralClass::G);
    assert_eq!(SpectralClass::from_spectral_str("M5.5Ve"), SpectralClass::M);
    assert_eq!(SpectralClass::from_spectral_str("A1V"), SpectralClass::A);
    assert_eq!(SpectralClass::from_spectral_str("K1V"), SpectralClass::K);
    assert_eq!(SpectralClass::from_spectral_str("B8Ia"), SpectralClass::B);
    assert_eq!(SpectralClass::from_spectral_str("O9.5"), SpectralClass::O);
    assert_eq!(SpectralClass::from_spectral_str("F5IV-V"), SpectralClass::F);
}

#[test]
fn spectral_types_of_remnants() {
    assert_eq!(SpectralClass::from_spectral_str("DA2"), SpectralClass::WD);
    assert_eq!(SpectralClass::from_spectral_str("NS"), SpectralClass::NS);
    assert_eq!(SpectralClass::from_spectral_str("PSR"), SpectralClass::NS);
    assert_eq!(SpectralClass::from_spectral_str(" BH "), SpectralClass::BH);
    // "BHx" is not "BH": the leading B decides.
    assert_eq!(SpectralClass::from_spectral_str("BHx"), SpectralClass::B);
}

#[test]
fn unknown_spectral_types_default_to_m() {
    assert_eq!(SpectralClass::from_spectral_str(""), SpectralClass::M);
    assert_eq!(SpectralClass::from_spectral_str("   "), SpectralClass::M);
    assert_eq!(SpectralClass::from_spectral_str("L3"), SpectralClass::M);
    assert_eq!(SpectralClass::from_spectral_str("g2v"), SpectralClass::M);
}

#[test]
fn spectral_class_display() {
    assert_eq!(SpectralClass::G.display(), "G (yellow, ~5 500 K) — like the Sun");
    assert_eq!(SpectralClass::BH.display(), "Black Hole");
}

#[test]
fn roman_numerals_up_to_ten() {
    let expected = ["?", "I", "II", "III", "IV", "V", "VI", "VII", "VIII", "IX", "X", "?"];
    for (n, e) in expected.iter().enumerate() {
        assert_eq!(roman(n as u8), *e);
    }
    assert_eq!(roman(255), "?");
}

#[test]
fn planets_are_numbered_from_one() {
    assert_eq!(planet_name("Kepion", 0), "Kepion I");
    assert_eq!(planet_name("Tauis", 3), "Tauis IV");
    assert_eq!(planet_name("Tauis", 10), "Tauis ?");
}

#[test]
fn procedural_names_combine_prefix_and_suffix() {
    assert_eq!(name_from_parts(0, 0), "Kepara");
    assert_eq!(name_from_parts(14, 15), "Scoen");
    assert_eq!(name_from_parts(12, 3), "Leoius");
}

#[test]
fn random_names_come_from_the_tables() {
    let mut all = Vec::new();
    for p in 0..NAME_PREFIX_COUNT {
        for s in 0..NAME_SUFFIX_COUNT {
            all.push(name_from_parts(p, s));
        }
    }
    let mut rng = SmallRng::seed_from_u64(42);
    let mut seen = std::collections::HashSet::new();
    for _ in 0..500 {
        let n = random_name(&mut rng);
        assert!(all.contains(&n), "{}", n);
        seen.insert(n);
    }
    // the draws vary rather than repeating one name
    assert!(seen.len() > 50);
}
