use vstd::prelude::*;

verus! {

/// The Roman numeral of `n` for 1..=10, and "?" beyond.
pub open spec fn roman_numeral(n: u8) -> Seq<char> {
    if n == 1 {
        "I"@
    } else if n == 2 {
        "II"@
    } else if n == 3 {
        "III"@
    } else if n == 4 {
        "IV"@
    } else if n == 5 {
        "V"@
    } else if n == 6 {
        "VI"@
    } else if n == 7 {
        "VII"@
    } else if n == 8 {
        "VIII"@
    } else if n == 9 {
        "IX"@
    } else if n == 10 {
        "X"@
    } else {
        "?"@
    }
}

/// Roman numeral used to number the planets of a system.
pub fn roman(n: u8) -> (r: &'static str)
    ensures
        r@ == roman_numeral(n),
{
    match n {
        1 => "I",
        2 => "II",
        3 => "III",
        4 => "IV",
        5 => "V",
        6 => "VI",
        7 => "VII",
        8 => "VIII",
        9 => "IX",
        10 => "X",
        _ => "?",
    }
}

/// The name of the planet at position `index` (from 0, innermost first) of
/// a generated system: the system's name, a space and the planet's numeral.
pub fn planet_name(system_name: &str, index: u8) -> (r: String)
    requires
        index < u8::MAX,
    ensures
        r@ == system_name@ + " "@ + roman_numeral((index + 1) as u8),
{
    let mut r = String::from_str(system_name);
    r.append(" ");
    r.append(roman(index + 1));
    r
}

} // verus!
