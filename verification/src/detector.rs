//! The place detector: two immutable name-to-capital tables, a three-way
//! classification of a queried name, and capital lookup with title-cased
//! formatting.

use vstd::prelude::*;
use crate::json::json_error_message;
use crate::json::json_string_map;
use crate::json::parse_string_map;
use crate::tables::find_value;
use crate::tables::lemma_find_table;
use crate::tables::lemma_normalized_table_keys;
use crate::tables::lemma_normalized_table_props;
use crate::tables::lemma_table_of_normalized;
use crate::tables::normalize_entries;
use crate::tables::normalized_table_of;
use crate::tables::table_of;
use crate::text::capitalize_words;
use crate::text::lower_seq;
use crate::text::normalize_key;
use crate::text::title_case;

verus! {

/// The three-way classification of a place name.
#[derive(Clone, Copy, Debug, PartialEq, Eq, Structural)]
pub enum PlaceType {
    Country,
    USAState,
    Other,
}

/// The one error the detector's construction can surface: a reference
/// dataset could not be read, or its text is not a flat string-to-string
/// mapping.  `detail` carries the underlying cause's description.
#[derive(Clone, Debug, PartialEq, Eq)]
pub enum DataLoadError {
    Unreadable { detail: String },
    Malformed { detail: String },
}

/// The mathematical content of a [`PlaceDetector`]: its two name-to-capital
/// maps, each keyed by names in canonical lowercase form.
pub struct PlaceTables {
    pub countries: Map<Seq<char>, Seq<char>>,
    pub us_states: Map<Seq<char>, Seq<char>>,
}

impl PlaceTables {
    /// Every key is stored in its canonical lowercase form.
    pub open spec fn wf(self) -> bool {
        &&& forall|k: Seq<char>| #[trigger] self.countries.contains_key(k) ==> lower_seq(k) == k
        &&& forall|k: Seq<char>| #[trigger] self.us_states.contains_key(k) ==> lower_seq(k) == k
    }
}

/// The classification of a name against the two tables: the name is put in
/// canonical lowercase form and looked up in the country table first.
pub open spec fn place_type_of(t: PlaceTables, name: Seq<char>) -> PlaceType {
    if t.countries.contains_key(lower_seq(name)) {
        PlaceType::Country
    } else if t.us_states.contains_key(lower_seq(name)) {
        PlaceType::USAState
    } else {
        PlaceType::Other
    }
}

/// The capital returned for a name: the value mapped under the name's
/// canonical form, title-cased; the country table is checked first; `None`
/// when the name is in neither table.
pub open spec fn capital_of(t: PlaceTables, name: Seq<char>) -> Option<Seq<char>> {
    if t.countries.contains_key(lower_seq(name)) {
        Some(title_case(t.countries[lower_seq(name)]))
    } else if t.us_states.contains_key(lower_seq(name)) {
        Some(title_case(t.us_states[lower_seq(name)]))
    } else {
        None
    }
}

/// How a detector table relates to the source mapping it was loaded from:
/// its keys are exactly the canonical forms of the source's keys, every
/// value comes from a source entry whose canonical key it is, and where no
/// two source keys share a canonical form the values correspond exactly.
pub open spec fn loads_table(table: Map<Seq<char>, Seq<char>>, source: Map<Seq<char>, Seq<char>>) -> bool {
    &&& forall|k: Seq<char>|
        table.contains_key(k) <==> exists|k0: Seq<char>| #[trigger]
            source.contains_key(k0) && lower_seq(k0) == k
    &&& forall|k: Seq<char>| #[trigger]
        table.contains_key(k) ==> exists|k0: Seq<char>| #[trigger]
            source.contains_key(k0) && lower_seq(k0) == k && table[k] == source[k0]
    &&& (distinct_lowered(source) ==> forall|k0: Seq<char>| #[trigger]
        source.contains_key(k0) ==> table.contains_key(lower_seq(k0)) && table[lower_seq(k0)]
            == source[k0])
}

/// No two keys of the mapping share a canonical lowercase form.
pub open spec fn distinct_lowered(source: Map<Seq<char>, Seq<char>>) -> bool {
    forall|k0: Seq<char>, k1: Seq<char>|
        #[trigger] source.contains_key(k0) && #[trigger] source.contains_key(k1) && lower_seq(k0)
            == lower_seq(k1) ==> k0 == k1
}

/// A static lookup over two immutable name-to-capital tables, one for
/// countries and one for U.S. states, populated once at construction.
#[derive(Clone, Debug)]
pub struct PlaceDetector {
    countries: Vec<(String, String)>,
    us_states: Vec<(String, String)>,
}

impl View for PlaceDetector {
    type V = PlaceTables;

    closed spec fn view(&self) -> PlaceTables {
        PlaceTables { countries: table_of(self.countries@), us_states: table_of(self.us_states@) }
    }
}

/// An association list read as a normalized table satisfies `loads_table`
/// against any source mapping whose entries it carries.
proof fn lemma_entries_load(entries: Seq<(String, String)>, source: Map<Seq<char>, Seq<char>>)
    requires
        forall|i: int|
            0 <= i < entries.len() ==> source.contains_key((#[trigger] entries[i]).0@)
                && source[entries[i].0@] == entries[i].1@,
        forall|k: Seq<char>| #[trigger]
            source.contains_key(k) ==> exists|i: int|
                0 <= i < entries.len() && (#[trigger] entries[i]).0@ == k,
    ensures
        loads_table(normalized_table_of(entries), source),
{
    let table = normalized_table_of(entries);
    lemma_normalized_table_props(entries);
    assert forall|k: Seq<char>| table.contains_key(k) implies exists|k0: Seq<char>| #[trigger]
        source.contains_key(k0) && lower_seq(k0) == k by {
        let i = choose|i: int| 0 <= i < entries.len() && #[trigger] lower_seq(entries[i].0@) == k;
        assert(source.contains_key(entries[i].0@));
    }
    assert forall|k: Seq<char>|
        (exists|k0: Seq<char>| #[trigger] source.contains_key(k0) && lower_seq(k0) == k)
        implies table.contains_key(k) by {
        let k0 = choose|k0: Seq<char>| #[trigger] source.contains_key(k0) && lower_seq(k0) == k;
        let i = choose|i: int| 0 <= i < entries.len() && (#[trigger] entries[i]).0@ == k0;
        assert(lower_seq(entries[i].0@) == k);
    }
    assert forall|k: Seq<char>| #[trigger] table.contains_key(k) implies exists|k0: Seq<char>|
        #[trigger] source.contains_key(k0) && lower_seq(k0) == k && table[k] == source[k0] by {
        let i = choose|i: int|
            0 <= i < entries.len() && #[trigger] lower_seq(entries[i].0@) == k && table[k]
                == entries[i].1@;
        assert(source.contains_key(entries[i].0@) && lower_seq(entries[i].0@) == k && table[k]
            == source[entries[i].0@]);
    }
    if distinct_lowered(source) {
        assert forall|k0: Seq<char>| #[trigger]
            source.contains_key(k0) implies table.contains_key(lower_seq(k0)) && table[lower_seq(
            k0,
        )] == source[k0] by {
            let i = choose|i: int| 0 <= i < entries.len() && (#[trigger] entries[i]).0@ == k0;
            assert(lower_seq(entries[i].0@) == lower_seq(k0));
            assert(table.contains_key(lower_seq(k0)));
            let k = lower_seq(k0);
            let j = choose|k1: Seq<char>|
                #[trigger] source.contains_key(k1) && lower_seq(k1) == k && table[k] == source[k1];
            assert(j == k0);
        }
    }
}

impl PlaceDetector {
    /// Builds a detector from raw country and U.S. state entries: each key is
    /// put into its canonical lowercase form, and within each table the first
    /// entry carrying a given canonical key wins.
    pub fn from_entries(countries: &Vec<(String, String)>, us_states: &Vec<(String, String)>) -> (d:
        PlaceDetector)
        ensures
            d@.countries == normalized_table_of(countries@),
            d@.us_states == normalized_table_of(us_states@),
            d@.wf(),
    {
        let c = normalize_entries(countries);
        let s = normalize_entries(us_states);
        proof {
            lemma_table_of_normalized(countries@, c@);
            lemma_table_of_normalized(us_states@, s@);
            lemma_normalized_table_keys(countries@);
            lemma_normalized_table_keys(us_states@);
        }
        PlaceDetector { countries: c, us_states: s }
    }

    /// Deserializes the two reference datasets - a country-to-capital and a
    /// U.S.-state-to-capital JSON object - into a ready-to-query detector.
    /// Construction fails, with the cause, exactly when either text is not
    /// such an object; a ready detector answers queries for every key of the
    /// datasets under the canonical lowercase form of that key.
    pub fn new(countries_json: &str, us_states_json: &str) -> (r: Result<
        PlaceDetector,
        DataLoadError,
    >)
        ensures
            r is Ok <==> json_string_map(countries_json@) is Some && json_string_map(
                us_states_json@,
            ) is Some,
            r is Ok ==> (r->Ok_0)@.wf() && loads_table(
                (r->Ok_0)@.countries,
                json_string_map(countries_json@)->Some_0,
            ) && loads_table((r->Ok_0)@.us_states, json_string_map(us_states_json@)->Some_0),
            r is Err ==> r->Err_0 is Malformed,
    {
        let centries = match parse_string_map(countries_json) {
            Ok(v) => v,
            Err(e) => {
                return Err(DataLoadError::Malformed { detail: json_error_message(&e) });
            },
        };
        let sentries = match parse_string_map(us_states_json) {
            Ok(v) => v,
            Err(e) => {
                return Err(DataLoadError::Malformed { detail: json_error_message(&e) });
            },
        };
        let d = Self::from_entries(&centries, &sentries);
        proof {
            lemma_entries_load(centries@, json_string_map(countries_json@)->Some_0);
            lemma_entries_load(sentries@, json_string_map(us_states_json@)->Some_0);
        }
        Ok(d)
    }

    /// Classifies a name: `Country` when its canonical form is a key of the
    /// country table, else `USAState` when it is a key of the state table,
    /// else `Other`.  Total: no input fails.
    pub fn get_place_type(&self, place_name: &str) -> (t: PlaceType)
        ensures
            t == place_type_of(self@, place_name@),
    {
        let key = normalize_key(place_name);
        proof {
            lemma_find_table(self.countries@, key@);
            lemma_find_table(self.us_states@, key@);
        }
        if find_value(&self.countries, &key).is_some() {
            PlaceType::Country
        } else if find_value(&self.us_states, &key).is_some() {
            PlaceType::USAState
        } else {
            PlaceType::Other
        }
    }

    /// Returns the capital mapped under the name's canonical form, title-cased,
    /// with the country table checked first; `None` when the name is in
    /// neither table.  Total: no input fails.
    pub fn get_capital(&self, place_name: &str) -> (r: Option<String>)
        ensures
            match r {
                Some(c) => capital_of(self@, place_name@) == Some(c@),
                None => capital_of(self@, place_name@) is None,
            },
    {
        let key = normalize_key(place_name);
        proof {
            lemma_find_table(self.countries@, key@);
            lemma_find_table(self.us_states@, key@);
        }
        if let Some(capital) = find_value(&self.countries, &key) {
            Some(Self::capitalize_string(capital.as_str()))
        } else if let Some(capital) = find_value(&self.us_states, &key) {
            Some(Self::capitalize_string(capital.as_str()))
        } else {
            None
        }
    }

    /// The presentation form of a stored capital: each whitespace-separated
    /// word with its first letter uppercased and the rest kept as written,
    /// the words joined by single spaces.
    pub fn capitalize_string(capital: &str) -> (r: String)
        ensures
            r@ == title_case(capital@),
    {
        capitalize_words(capital)
    }
}

/// Every name that is a key of the country table is classified as a
/// country, and its capital is the title-cased mapped value.  Keys of a
/// well-formed table are their own canonical forms, so the lookup finds
/// them.
pub proof fn lemma_country_key(t: PlaceTables, name: Seq<char>)
    requires
        t.wf(),
        t.countries.contains_key(name),
    ensures
        place_type_of(t, name) == PlaceType::Country,
        capital_of(t, name) == Some(title_case(t.countries[name])),
{
}

/// Every name that is a key of the state table and not of the country table
/// is classified as a U.S. state, and its capital is the title-cased mapped
/// value.
pub proof fn lemma_state_key(t: PlaceTables, name: Seq<char>)
    requires
        t.wf(),
        t.us_states.contains_key(name),
        !t.countries.contains_key(name),
    ensures
        place_type_of(t, name) == PlaceType::USAState,
        capital_of(t, name) == Some(title_case(t.us_states[name])),
{
}

/// Every name whose canonical form is a key of neither table is classified
/// as `Other` and has no capital.
pub proof fn lemma_unknown_name(t: PlaceTables, name: Seq<char>)
    requires
        !t.countries.contains_key(lower_seq(name)),
        !t.us_states.contains_key(lower_seq(name)),
    ensures
        place_type_of(t, name) == PlaceType::Other,
        capital_of(t, name) is None,
{
}

/// After a successful load, every key of the countries dataset is classified
/// as a country; and where no two dataset keys share a canonical form, its
/// capital is the title-cased dataset value.
pub proof fn lemma_loaded_country_key(
    t: PlaceTables,
    source: Map<Seq<char>, Seq<char>>,
    name: Seq<char>,
)
    requires
        loads_table(t.countries, source),
        source.contains_key(name),
    ensures
        place_type_of(t, name) == PlaceType::Country,
        distinct_lowered(source) ==> capital_of(t, name) == Some(title_case(source[name])),
{
    assert(t.countries.contains_key(lower_seq(name)));
}

/// After a successful load, every key of the states dataset whose canonical
/// form is not in the country table is classified as a U.S. state; and where
/// no two dataset keys share a canonical form, its capital is the
/// title-cased dataset value.
pub proof fn lemma_loaded_state_key(
    t: PlaceTables,
    source: Map<Seq<char>, Seq<char>>,
    name: Seq<char>,
)
    requires
        loads_table(t.us_states, source),
        source.contains_key(name),
        !t.countries.contains_key(lower_seq(name)),
    ensures
        place_type_of(t, name) == PlaceType::USAState,
        distinct_lowered(source) ==> capital_of(t, name) == Some(title_case(source[name])),
{
    assert(t.us_states.contains_key(lower_seq(name)));
}

/// The two queries agree: a name has a capital exactly when it is classified
/// as a country or a U.S. state.
pub proof fn lemma_capital_iff_known(t: PlaceTables, name: Seq<char>)
    ensures
        capital_of(t, name) is Some <==> place_type_of(t, name) != PlaceType::Other,
{
}

/// Lookups are case-insensitive over ASCII letters: two names with the same
/// canonical lowercase form classify alike and yield the same capital.
pub proof fn lemma_case_insensitive(t: PlaceTables, a: Seq<char>, b: Seq<char>)
    requires
        lower_seq(a) == lower_seq(b),
    ensures
        place_type_of(t, a) == place_type_of(t, b),
        capital_of(t, a) == capital_of(t, b),
{
}

} // verus!
