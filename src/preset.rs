use vstd::prelude::*;

verus! {

/// A named set of location filters for one collection run.
#[derive(Debug)]
pub struct LocationPreset {
    pub title: String,
    /// Locations a result must match.
    pub locations: Vec<String>,
    /// Locations a result must not match.
    pub excluded: Vec<String>,
}

impl LocationPreset {
    /// The New Zealand preset: the country and its main cities.
    pub fn new_zealand() -> (r: LocationPreset)
        ensures
            r.title@ == "New Nealand"@,
            r.locations.deep_view() == seq![
                "new+zealand"@,
                "auckland"@,
                "wellington"@,
                "christchurch"@,
                "hamilton"@,
                "tauranga"@,
                "napier-hastings"@,
                "dunedin"@,
                "palmerston+north"@,
                "nelson"@,
                "rotorua"@,
                "whangarei"@,
                "new+plymouth"@,
                "invercargill"@,
                "whanganui"@,
                "gisborne"@,
            ],
            r.excluded@.len() == 0,
    {
        let mut locations: Vec<String> = Vec::new();
        locations.push(String::from_str("new+zealand"));
        locations.push(String::from_str("auckland"));
        locations.push(String::from_str("wellington"));
        locations.push(String::from_str("christchurch"));
        locations.push(String::from_str("hamilton"));
        locations.push(String::from_str("tauranga"));
        locations.push(String::from_str("napier-hastings"));
        locations.push(String::from_str("dunedin"));
        locations.push(String::from_str("palmerston+north"));
        locations.push(String::from_str("nelson"));
        locations.push(String::from_str("rotorua"));
        locations.push(String::from_str("whangarei"));
        locations.push(String::from_str("new+plymouth"));
        locations.push(String::from_str("invercargill"));
        locations.push(String::from_str("whanganui"));
        locations.push(String::from_str("gisborne"));
        LocationPreset { title: String::from_str("New Nealand"), locations, excluded: Vec::new() }
    }
}

} // verus!
