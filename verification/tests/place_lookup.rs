//! End-to-end tests of the place detector: loading the bundled reference
//! datasets, classifying names, and formatting capitals.

use place_detector::{DataLoadError, PlaceDetector, PlaceType};

/// The bundled country-to-capital reference dataset.
const COUNTRIES_JSON: &str = r#"{
  "afghanistan": "Kabul",
  "albania": "Tirana",
  "algeria": "Algiers",
  "andorra": "Andorra La Vella",
  "angola": "Luanda",
  "argentina": "Buenos Aires",
  "armenia": "Yerevan",
  "australia": "Canberra",
  "austria": "Vienna",
  "azerbaijan": "Baku",
  "bahamas": "Nassau",
  "bahrain": "Manama",
  "bangladesh": "Dhaka",
  "barbados": "Bridgetown",
  "belarus": "Minsk",
  "belgium": "Brussels",
  "belize": "Belmopan",
  "benin": "Porto-Novo",
  "bhutan": "Thimphu",
  "bolivia": "Sucre",
  "botswana": "Gaborone",
  "brazil": "Brasilia",
  "brunei": "Bandar Seri Begawan",
  "bulgaria": "Sofia",
  "burkina faso": "Ouagadougou",
  "burundi": "Gitega",
  "cambodia": "Phnom Penh",
  "cameroon": "Yaounde",
  "canada": "Ottawa",
  "chad": "N'Djamena",
  "chile": "Santiago",
  "china": "Beijing",
  "colombia": "Bogota",
  "costa rica": "San Jose",
  "croatia": "Zagreb",
  "cuba": "Havana",
  "cyprus": "Nicosia",
  "czechia": "Prague",
  "denmark": "Copenhagen",
  "djibouti": "Djibouti",
  "dominica": "Roseau",
  "ecuador": "Quito",
  "egypt": "Cairo",
  "el salvador": "San Salvador",
  "estonia": "Tallinn",
  "eswatini": "Mbabane",
  "ethiopia": "Addis Ababa",
  "fiji": "Suva",
  "finland": "Helsinki",
  "france": "Paris",
  "gabon": "Libreville",
  "gambia": "Banjul",
  "georgia": "Tbilisi",
  "germany": "Berlin",
  "ghana": "Accra",
  "greece": "Athens",
  "guatemala": "Guatemala City",
  "guinea": "Conakry",
  "guyana": "Georgetown",
  "haiti": "Port-au-Prince",
  "honduras": "Tegucigalpa",
  "hungary": "Budapest",
  "iceland": "Reykjavik",
  "india": "New Delhi",
  "indonesia": "Jakarta",
  "iran": "Tehran",
  "iraq": "Baghdad",
  "ireland": "Dublin",
  "israel": "Jerusalem",
  "italy": "Rome",
  "jamaica": "Kingston",
  "japan": "Tokyo",
  "jordan": "Amman",
  "kazakhstan": "Astana",
  "kenya": "Nairobi",
  "kiribati": "Tarawa Atoll",
  "kuwait": "Kuwait City",
  "kyrgyzstan": "Bishkek",
  "laos": "Vientiane",
  "latvia": "Riga",
  "lebanon": "Beirut",
  "lesotho": "Maseru",
  "liberia": "Monrovia",
  "libya": "Tripoli",
  "liechtenstein": "Vaduz",
  "lithuania": "Vilnius",
  "luxembourg": "Luxembourg",
  "madagascar": "Antananarivo",
  "malawi": "Lilongwe",
  "malaysia": "Kuala Lumpur",
  "maldives": "Male",
  "mali": "Bamako",
  "malta": "Valletta",
  "mexico": "Mexico City",
  "moldova": "Chisinau",
  "monaco": "Monaco",
  "mongolia": "Ulaanbaatar",
  "montenegro": "Podgorica",
  "morocco": "Rabat",
  "mozambique": "Maputo",
  "myanmar": "Naypyidaw",
  "namibia": "Windhoek",
  "nepal": "Kathmandu",
  "netherlands": "Amsterdam",
  "new zealand": "Wellington",
  "nicaragua": "Managua",
  "niger": "Niamey",
  "nigeria": "Abuja",
  "north macedonia": "Skopje",
  "norway": "Oslo",
  "oman": "Muscat",
  "pakistan": "Islamabad",
  "panama": "Panama City",
  "papua new guinea": "Port Moresby",
  "paraguay": "Asuncion",
  "peru": "Lima",
  "philippines": "Manila",
  "poland": "Warsaw",
  "portugal": "Lisbon",
  "qatar": "Doha",
  "romania": "Bucharest",
  "russia": "Moscow",
  "rwanda": "Kigali",
  "samoa": "Apia",
  "san marino": "San Marino",
  "saudi arabia": "Riyadh",
  "senegal": "Dakar",
  "serbia": "Belgrade",
  "seychelles": "Victoria",
  "sierra leone": "Freetown",
  "singapore": "Singapore",
  "slovakia": "Bratislava",
  "slovenia": "Ljubljana",
  "somalia": "Mogadishu",
  "south africa": "Pretoria",
  "south korea": "Seoul",
  "south sudan": "Juba",
  "spain": "Madrid",
  "sri lanka": "Sri Jayawardenepura Kotte",
  "sudan": "Khartoum",
  "suriname": "Paramaribo",
  "sweden": "Stockholm",
  "switzerland": "Bern",
  "syria": "Damascus",
  "tajikistan": "Dushanbe",
  "tanzania": "Dodoma",
  "thailand": "Bangkok",
  "togo": "Lome",
  "tunisia": "Tunis",
  "turkey": "Ankara",
  "turkmenistan": "Ashgabat",
  "uganda": "Kampala",
  "ukraine": "Kyiv",
  "united arab emirates": "Abu Dhabi",
  "united kingdom": "London",
  "united states": "Washington, D.C.",
  "uruguay": "Montevideo",
  "uzbekistan": "Tashkent",
  "vanuatu": "Port Vila",
  "venezuela": "Caracas",
  "vietnam": "Hanoi",
  "yemen": "Sanaa",
  "zambia": "Lusaka",
  "zimbabwe": "Harare"
}"#;

/// The bundled U.S.-state-to-capital reference dataset.
const US_STATES_JSON: &str = r#"{
  "alabama": "Montgomery",
  "alaska": "Juneau",
  "arizona": "Phoenix",
  "arkansas": "Little Rock",
  "california": "Sacramento",
  "colorado": "Denver",
  "connecticut": "Hartford",
  "delaware": "Dover",
  "florida": "Tallahassee",
  "georgia": "Atlanta",
  "hawaii": "Honolulu",
  "idaho": "Boise",
  "illinois": "Springfield",
  "indiana": "Indianapolis",
  "iowa": "Des Moines",
  "kansas": "Topeka",
  "kentucky": "Frankfort",
  "louisiana": "Baton Rouge",
  "maine": "Augusta",
  "maryland": "Annapolis",
  "massachusetts": "Boston",
  "michigan": "Lansing",
  "minnesota": "Saint Paul",
  "mississippi": "Jackson",
  "missouri": "Jefferson City",
  "montana": "Helena",
  "nebraska": "Lincoln",
  "nevada": "Carson City",
  "new hampshire": "Concord",
  "new jersey": "Trenton",
  "new mexico": "Santa Fe",
  "new york": "Albany",
  "north carolina": "Raleigh",
  "north dakota": "Bismarck",
  "ohio": "Columbus",
  "oklahoma": "Oklahoma City",
  "oregon": "Salem",
  "pennsylvania": "Harrisburg",
  "rhode island": "Providence",
  "south carolina": "Columbia",
  "south dakota": "Pierre",
  "tennessee": "Nashville",
  "texas": "Austin",
  "utah": "Salt Lake City",
  "vermont": "Montpelier",
  "virginia": "Richmond",
  "washington": "Olympia",
  "west virginia": "Charleston",
  "wisconsin": "Madison",
  "wyoming": "Cheyenne"
}"#;

fn detector() -> PlaceDetector {
    PlaceDetector::new(COUNTRIES_JSON, US_STATES_JSON)
        .expect("the bundled reference datasets are well-formed")
}

#[test]
fn test_get_place_type_country() {
    let place_detector = detector();
    // Test if a known country is correctly identified as a country.
    assert_eq!(place_detector.get_place_type("India"), PlaceType::Country);
}

#[test]
fn test_get_place_type_us_state() {
    let place_detector = detector();
    // Test if a known US state is correctly identified as a US state.
    assert_eq!(place_detector.get_place_type("Texas"), PlaceType::USAState);
}

#[test]
fn test_get_place_type_other() {
    let place_detector = detector();
    // Test if an unknown place is correctly identified as "Other".
    assert_eq!(place_detector.get_place_type("Las Vegas"), PlaceType::Other);
}

#[test]
fn test_get_capital_country() {
    let place_detector = detector();
    // Test if the capital of a known country is returned correctly.
    assert_eq!(
        place_detector.get_capital("Kiribati"),
        Some("Tarawa Atoll".to_string())
    );
}

#[test]
fn test_get_capital_us_state() {
    let place_detector = detector();
    // Test if the capital of a known US state is returned correctly.
    assert_eq!(
        place_detector.get_capital("Utah"),
        Some("Salt Lake City".to_string())
    );
}

#[test]
fn test_get_capital_other() {
    let place_detector = detector();
    // Test if an unknown place returns None for capital.
    assert_eq!(place_detector.get_capital("Mumbai"), None);
}

#[test]
fn test_queries_ignore_ascii_case() {
    let place_detector = detector();
    assert_eq!(place_detector.get_place_type("INDIA"), PlaceType::Country);
    assert_eq!(place_detector.get_place_type("india"), PlaceType::Country);
    assert_eq!(place_detector.get_place_type("InDiA"), PlaceType::Country);
    assert_eq!(
        place_detector.get_capital("TEXAS"),
        Some("Austin".to_string())
    );
}

#[test]
fn test_country_checked_before_state() {
    // "georgia" is both a country and a U.S. state; the country wins.
    let place_detector = detector();
    assert_eq!(place_detector.get_place_type("Georgia"), PlaceType::Country);
    assert_eq!(
        place_detector.get_capital("Georgia"),
        Some("Tbilisi".to_string())
    );
}

#[test]
fn test_capital_is_title_cased() {
    // A capital stored in lowercase comes back with each word capitalized.
    let countries = vec![("india".to_string(), "new delhi".to_string())];
    let us_states = vec![("texas".to_string(), "  austin ".to_string())];
    let place_detector = PlaceDetector::from_entries(&countries, &us_states);
    assert_eq!(
        place_detector.get_capital("India"),
        Some("New Delhi".to_string())
    );
    assert_eq!(place_detector.get_capital("Texas"), Some("Austin".to_string()));
}

#[test]
fn test_capitalize_string_scenarios() {
    assert_eq!(PlaceDetector::capitalize_string("new delhi"), "New Delhi");
    assert_eq!(
        PlaceDetector::capitalize_string("  salt   lake city "),
        "Salt Lake City"
    );
    assert_eq!(PlaceDetector::capitalize_string(""), "");
    assert_eq!(PlaceDetector::capitalize_string("   "), "");
    // The remaining letters of each word keep their original case.
    assert_eq!(PlaceDetector::capitalize_string("mcDonald"), "McDonald");
    assert_eq!(PlaceDetector::capitalize_string("SALT lake"), "SALT Lake");
}

#[test]
fn test_capitalize_string_idempotent() {
    let once = PlaceDetector::capitalize_string("tarawa  atoll ");
    let twice = PlaceDetector::capitalize_string(&once);
    assert_eq!(once, "Tarawa Atoll");
    assert_eq!(once, twice);
}

#[test]
fn test_from_entries_first_entry_wins() {
    // Two entries whose keys share a canonical form: the first one wins.
    let countries = vec![
        ("India".to_string(), "First".to_string()),
        ("INDIA".to_string(), "Second".to_string()),
    ];
    let us_states: Vec<(String, String)> = Vec::new();
    let place_detector = PlaceDetector::from_entries(&countries, &us_states);
    assert_eq!(place_detector.get_capital("india"), Some("First".to_string()));
}

#[test]
fn test_empty_datasets_answer_other() {
    let place_detector =
        PlaceDetector::new("{}", "{}").expect("empty objects are well-formed datasets");
    assert_eq!(place_detector.get_place_type("India"), PlaceType::Other);
    assert_eq!(place_detector.get_capital("India"), None);
}

#[test]
fn test_corrupted_dataset_is_rejected() {
    // A dataset that is not JSON at all.
    let err = PlaceDetector::new("not json", US_STATES_JSON)
        .expect_err("a corrupted dataset must be rejected");
    assert!(matches!(err, DataLoadError::Malformed { .. }));
    // A dataset that is JSON but not a flat string-to-string object.
    let err = PlaceDetector::new(COUNTRIES_JSON, r#"{"texas": 3}"#)
        .expect_err("a non-string value must be rejected");
    assert!(matches!(err, DataLoadError::Malformed { .. }));
    // A dataset whose top value is not an object.
    let err = PlaceDetector::new(r#"["india"]"#, US_STATES_JSON)
        .expect_err("a non-object dataset must be rejected");
    assert!(matches!(err, DataLoadError::Malformed { .. }));
}
