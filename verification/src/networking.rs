use crate::string_map::{collected, lemma_collected_step, StringMap};
use crate::text::same_text;
use vstd::prelude::*;
use vstd::string::*;

verus! {

/// A city as the schedule service lists it: its name in Turkish and in
/// English, and its identifier.
#[allow(non_snake_case)]
#[derive(Debug, PartialEq)]
pub struct CityResponse {
    pub SehirAdi: String,
    pub SehirAdiEn: String,
    pub SehirID: String,
}

/// A district as the schedule service lists it: its name in Turkish and in
/// English, and its identifier.
#[allow(non_snake_case)]
#[derive(Debug, PartialEq)]
pub struct DistrictResponse {
    pub IlceAdi: String,
    pub IlceAdiEn: String,
    pub IlceID: String,
}

/// The locale in which places go by their Turkish names: `tr-TR`.
pub open spec fn turkish_locale() -> Seq<char> {
    seq!['t', 'r', '-', 'T', 'R']
}

/// Whether a locale is the Turkish one.
pub fn is_turkish(locale: &str) -> (turkish: bool)
    ensures
        turkish == (locale@ == turkish_locale()),
{
    proof {
        reveal_strlit("tr-TR");
    }
    assert("tr-TR"@ =~= turkish_locale());
    same_text(locale, "tr-TR")
}

impl CityResponse {
    /// The name by which the city goes in a locale.
    pub open spec fn name_in(self, turkish: bool) -> String {
        if turkish {
            self.SehirAdi
        } else {
            self.SehirAdiEn
        }
    }
}

impl DistrictResponse {
    /// The name by which the district goes in a locale.
    pub open spec fn name_in(self, turkish: bool) -> String {
        if turkish {
            self.IlceAdi
        } else {
            self.IlceAdiEn
        }
    }
}

/// The listed cities as entries from name to identifier, in the order of
/// the list.
pub open spec fn city_entries(response: Seq<CityResponse>, turkish: bool) -> Seq<
    (Seq<char>, String),
> {
    Seq::new(response.len(), |i: int| (response[i].name_in(turkish)@, response[i].SehirID))
}

/// The listed districts as entries from name to identifier, in the order of
/// the list.
pub open spec fn district_entries(response: Seq<DistrictResponse>, turkish: bool) -> Seq<
    (Seq<char>, String),
> {
    Seq::new(response.len(), |i: int| (response[i].name_in(turkish)@, response[i].IlceID))
}

/// The identifiers of the listed cities by name. Of two cities of one name
/// the later in the list stays.
pub open spec fn cities_by_name(response: Seq<CityResponse>, turkish: bool) -> Map<
    Seq<char>,
    String,
> {
    collected(city_entries(response, turkish))
}

/// The identifiers of the listed districts by name. Of two districts of one
/// name the later in the list stays.
pub open spec fn districts_by_name(response: Seq<DistrictResponse>, turkish: bool) -> Map<
    Seq<char>,
    String,
> {
    collected(district_entries(response, turkish))
}

/// The map from name to identifier of a list of cities: by Turkish names in
/// the locale `tr-TR`, by English names in every other.
pub fn city_list(response: &Vec<CityResponse>, locale: &str) -> (cities: StringMap<String>)
    ensures
        cities@ == cities_by_name(response@, locale@ == turkish_locale()),
{
    let turkish = is_turkish(locale);
    let mut cities: StringMap<String> = StringMap::new();
    let mut i: usize = 0;
    while i < response.len()
        invariant
            i <= response@.len(),
            turkish == (locale@ == turkish_locale()),
            cities@ == collected(city_entries(response@, turkish).take(i as int)),
        decreases response@.len() - i,
    {
        let city = &response[i];
        let name = if turkish {
            city.SehirAdi.clone()
        } else {
            city.SehirAdiEn.clone()
        };
        cities.insert(name, city.SehirID.clone());
        proof {
            lemma_collected_step(city_entries(response@, turkish), i as int);
        }
        i = i + 1;
    }
    assert(city_entries(response@, turkish).take(i as int) =~= city_entries(response@, turkish));
    cities
}

/// The map from name to identifier of a list of districts: by Turkish names
/// in the locale `tr-TR`, by English names in every other.
pub fn district_list(response: &Vec<DistrictResponse>, locale: &str) -> (districts: StringMap<
    String,
>)
    ensures
        districts@ == districts_by_name(response@, locale@ == turkish_locale()),
{
    let turkish = is_turkish(locale);
    let mut districts: StringMap<String> = StringMap::new();
    let mut i: usize = 0;
    while i < response.len()
        invariant
            i <= response@.len(),
            turkish == (locale@ == turkish_locale()),
            districts@ == collected(district_entries(response@, turkish).take(i as int)),
        decreases response@.len() - i,
    {
        let district = &response[i];
        let name = if turkish {
            district.IlceAdi.clone()
        } else {
            district.IlceAdiEn.clone()
        };
        districts.insert(name, district.IlceID.clone());
        proof {
            lemma_collected_step(district_entries(response@, turkish), i as int);
        }
        i = i + 1;
    }
    assert(district_entries(response@, turkish).take(i as int) =~= district_entries(
        response@,
        turkish,
    ));
    districts
}

} // verus!
