//! Choosing a city and a map: how cities are grouped by country and region, what the city
//! browser and the pickers show, and where their clicks lead, with the pending callback.
use vstd::prelude::*;
use crate::grouping;
use crate::grouping::group_by_key;
use crate::text;
use crate::text::{chars_eq_str, chars_of, join2, owned, replace_char_exec, str_eq, str_lt, strip_prefix};
use vstd::string::StrSliceExecFns;

verus! {

broadcast use vstd::seq_lib::group_seq_properties;

/// A city, named by its country code and its own name.
#[derive(Clone, Debug, PartialEq, Eq)]
pub struct CityName {
    pub country: String,
    pub city: String,
}

/// A map of a city.
#[derive(Clone, Debug, PartialEq, Eq)]
pub struct MapName {
    pub city: CityName,
    pub map: String,
}

/// How a city is described in messages: its name, then its country code in brackets.
pub open spec fn city_description(c: CityName) -> Seq<char> {
    c.city@ + " ("@ + c.country@ + ")"@
}

/// How a map is described in messages: its name, then "in" and its city's description in
/// brackets.
pub open spec fn map_description(m: MapName) -> Seq<char> {
    m.map@ + " (in "@ + city_description(m.city) + ")"@
}

/// Two cities are the same when country and name agree.
pub open spec fn same_city(a: CityName, b: CityName) -> bool {
    a.country@ == b.country@ && a.city@ == b.city@
}

impl CityName {
    pub fn new(country: &str, city: &str) -> (c: Self)
        ensures
            c.country@ == country@,
            c.city@ == city@,
    {
        CityName { country: owned(country), city: owned(city) }
    }

    /// A copy of this name.
    pub fn copied(&self) -> (c: Self)
        ensures
            c == *self,
    {
        CityName { country: self.country.clone(), city: self.city.clone() }
    }

    /// The city described for messages: "city (country)".
    pub fn describe(&self) -> (d: String)
        ensures
            d@ == city_description(*self),
    {
        let mut d = join2(self.city.as_str(), " (");
        d.append(self.country.as_str());
        d.append(")");
        d
    }

    /// Whether this is the same city as `other`.
    pub fn same_as(&self, other: &CityName) -> (r: bool)
        ensures
            r == same_city(*self, *other),
    {
        str_eq(self.country.as_str(), other.country.as_str()) && str_eq(
            self.city.as_str(),
            other.city.as_str(),
        )
    }
}

impl MapName {
    pub fn new(country: &str, city: &str, map: &str) -> (m: Self)
        ensures
            m.city.country@ == country@,
            m.city.city@ == city@,
            m.map@ == map@,
    {
        MapName { city: CityName::new(country, city), map: owned(map) }
    }

    /// The map described for messages: "map (in city (country))".
    pub fn describe(&self) -> (d: String)
        ensures
            d@ == map_description(*self),
    {
        let c = self.city.describe();
        let mut d = join2(self.map.as_str(), " (in ");
        d.append(c.as_str());
        d.append(")");
        d
    }

    pub fn from_city(city: &CityName, map: &str) -> (m: Self)
        ensures
            m.city.country@ == city.country@,
            m.city.city@ == city.city@,
            m.map@ == map@,
    {
        MapName { city: city.copied(), map: owned(map) }
    }
}

/// What the city browser says of a city of which `installed` of `total` maps are on disk.
pub open spec fn availability(installed: nat, total: nat, online_only: bool) -> Seq<char> {
    if online_only {
        "Available online"@
    } else if installed == 0 {
        "Download"@
    } else if installed == total {
        "Installed"@
    } else {
        "Partly installed"@
    }
}

/// How available a city is: online only on the web; else by how many of its maps are
/// installed.
pub fn city_availability_label(installed: usize, total: usize, online_only: bool) -> (l: &'static str)
    ensures
        l@ == availability(installed as nat, total as nat, online_only),
{
    if online_only {
        "Available online"
    } else if installed == 0 {
        "Download"
    } else if installed == total {
        "Installed"
    } else {
        "Partly installed"
    }
}

/// What the browser says of a city follows from its maps: "Available online" on the web;
/// natively "Download" when none of its maps is installed, "Installed" when all of them
/// (at least one) are, and "Partly installed" when some but not all are.
pub proof fn lemma_availability_follows_installed_maps(installed: nat, total: nat, online_only: bool)
    ensures
        online_only ==> availability(installed, total, online_only) == "Available online"@,
        !online_only && installed == 0 ==> availability(installed, total, online_only) == "Download"@,
        !online_only && 0 < installed && installed == total ==> availability(installed, total, online_only)
            == "Installed"@,
        !online_only && 0 < installed && installed != total ==> availability(installed, total, online_only)
            == "Partly installed"@,
{
}

/// The browser's buttons are named by what they open: "country:" and a code browses that
/// country, "city:" and a path chooses that city, and "close" closes the browser.
pub proof fn lemma_browser_buttons_name_what_they_open(c: Seq<char>)
    ensures
        browse_click_of("country:"@ + c) == BrowseClickView::Country(c),
        browse_click_of("city:"@ + c) == BrowseClickView::City(c),
        browse_click_of("close"@) == BrowseClickView::Close,
{
    reveal_strlit("country:");
    assert("country:"@.len() == 8 && "country:"@[1] == 'o');
    reveal_strlit("city:");
    assert("city:"@.len() == 5 && "city:"@[1] == 'i');
    reveal_strlit("close");
    assert("close"@.len() == 5 && "close"@[1] == 'l');
    assert(("country:"@ + c).subrange(0, 8) =~= "country:"@);
    assert(("country:"@ + c).subrange(8, ("country:"@ + c).len() as int) =~= c);
    assert(("city:"@ + c).subrange(0, 5) =~= "city:"@);
    assert(("city:"@ + c).subrange(5, ("city:"@ + c).len() as int) =~= c);
    assert(("city:"@ + c)[1] == 'i');
    assert(("country:"@ + c)[1] == 'o');
}

/// The district picker's buttons: "close", "Search all maps", "import new city" and
/// "re-import this city" do what they say; any other name is a map's path or a country.
pub proof fn lemma_picker_buttons_do_what_they_say(x: Seq<char>)
    ensures
        picker_click_of("close"@) == PickerClick::Close,
        picker_click_of("Search all maps"@) == PickerClick::SearchAllMaps,
        picker_click_of("import new city"@) == PickerClick::ImportNewCity,
        picker_click_of("re-import this city"@) == PickerClick::ReimportThisCity,
        picker_click_of(x) == PickerClick::Other <==> !set![
            "close"@,
            "Search all maps"@,
            "import new city"@,
            "re-import this city"@,
        ].contains(x),
{
    reveal_strlit("close");
    assert("close"@.len() == 5 && "close"@[0] == 'c');
    reveal_strlit("Search all maps");
    assert("Search all maps"@.len() == 15 && "Search all maps"@[0] == 'S');
    reveal_strlit("import new city");
    assert("import new city"@.len() == 15 && "import new city"@[0] == 'i');
    reveal_strlit("re-import this city");
    assert("re-import this city"@.len() == 19 && "re-import this city"@[0] == 'r');
}

/// The browser lays itself out side by side from 1100 pixels on and stacked below: its
/// search box is 26 characters wide with 6 results either way; the panel takes 82% of the
/// window's width and height side by side, 90% and 86% stacked; the geography takes 34% of
/// its row side by side and 78% stacked.
pub proof fn lemma_browser_stacks_below_1100_pixels(l: CityBrowserLayout, window_width: u64)
    requires
        layout_for(l, window_width),
    ensures
        l.stacked <==> window_width < 1100,
        l.autocomplete_chars == 26 && l.search_results == 6,
        l.stacked ==> l.panel_width_percent == 90 && l.panel_height_percent == 86
            && l.geography_width_percent == 78,
        !l.stacked ==> l.panel_width_percent == 82 && l.panel_height_percent == 82
            && l.geography_width_percent == 34,
{
}

/// The region of the world that a country code belongs to.
pub open spec fn region_of(c: Seq<char>) -> Seq<char> {
    if c == "br"@ || c == "ca"@ || c == "cl"@ || c == "us"@ {
        "Americas"@
    } else if c == "at"@ || c == "ch"@ || c == "cz"@ || c == "de"@ || c == "fr"@ || c == "gb"@ || c
        == "nl"@ || c == "pl"@ || c == "pt"@ {
        "Europe"@
    } else if c == "il"@ || c == "ir"@ || c == "ly"@ {
        "Africa and Middle East"@
    } else if c == "au"@ || c == "hk"@ || c == "in"@ || c == "jp"@ || c == "kr"@ || c == "my"@ || c
        == "nz"@ || c == "sg"@ || c == "tw"@ {
        "Asia-Pacific"@
    } else {
        "Other"@
    }
}

/// The countries of each region, as the city browser files them.
pub open spec fn americas() -> Set<Seq<char>> {
    set!["br"@, "ca"@, "cl"@, "us"@]
}

/// The European countries.
pub open spec fn europe() -> Set<Seq<char>> {
    set!["at"@, "ch"@, "cz"@, "de"@, "fr"@, "gb"@, "nl"@, "pl"@, "pt"@]
}

/// The countries of Africa and the Middle East.
pub open spec fn africa_and_middle_east() -> Set<Seq<char>> {
    set!["il"@, "ir"@, "ly"@]
}

/// The countries of Asia and the Pacific.
pub open spec fn asia_pacific() -> Set<Seq<char>> {
    set!["au"@, "hk"@, "in"@, "jp"@, "kr"@, "my"@, "nz"@, "sg"@, "tw"@]
}

/// Every country code is filed under exactly the region whose list holds it, and under
/// "Other" exactly when no list holds it: each of br, ca, cl, us is in the Americas; at,
/// ch, cz, de, fr, gb, nl, pl, pt in Europe; il, ir, ly in Africa and the Middle East; au,
/// hk, in, jp, kr, my, nz, sg, tw in Asia-Pacific.
pub proof fn lemma_regions_file_each_listed_country(c: Seq<char>)
    ensures
        region_of(c) == "Americas"@ <==> americas().contains(c),
        region_of(c) == "Europe"@ <==> europe().contains(c),
        region_of(c) == "Africa and Middle East"@ <==> africa_and_middle_east().contains(c),
        region_of(c) == "Asia-Pacific"@ <==> asia_pacific().contains(c),
        region_of(c) == "Other"@ <==> !(americas().contains(c) || europe().contains(c)
            || africa_and_middle_east().contains(c) || asia_pacific().contains(c)),
{
    reveal_strlit("Americas");
    assert("Americas"@.len() == 8);
    reveal_strlit("Europe");
    assert("Europe"@.len() == 6);
    reveal_strlit("Africa and Middle East");
    assert("Africa and Middle East"@.len() == 22);
    reveal_strlit("Asia-Pacific");
    assert("Asia-Pacific"@.len() == 12);
    reveal_strlit("Other");
    assert("Other"@.len() == 5);
    reveal_strlit("br");
    assert("br"@.len() == 2 && "br"@[0] == 'b' && "br"@[1] == 'r');
    reveal_strlit("ca");
    assert("ca"@.len() == 2 && "ca"@[0] == 'c' && "ca"@[1] == 'a');
    reveal_strlit("cl");
    assert("cl"@.len() == 2 && "cl"@[0] == 'c' && "cl"@[1] == 'l');
    reveal_strlit("us");
    assert("us"@.len() == 2 && "us"@[0] == 'u' && "us"@[1] == 's');
    reveal_strlit("at");
    assert("at"@.len() == 2 && "at"@[0] == 'a' && "at"@[1] == 't');
    reveal_strlit("ch");
    assert("ch"@.len() == 2 && "ch"@[0] == 'c' && "ch"@[1] == 'h');
    reveal_strlit("cz");
    assert("cz"@.len() == 2 && "cz"@[0] == 'c' && "cz"@[1] == 'z');
    reveal_strlit("de");
    assert("de"@.len() == 2 && "de"@[0] == 'd' && "de"@[1] == 'e');
    reveal_strlit("fr");
    assert("fr"@.len() == 2 && "fr"@[0] == 'f' && "fr"@[1] == 'r');
    reveal_strlit("gb");
    assert("gb"@.len() == 2 && "gb"@[0] == 'g' && "gb"@[1] == 'b');
    reveal_strlit("nl");
    assert("nl"@.len() == 2 && "nl"@[0] == 'n' && "nl"@[1] == 'l');
    reveal_strlit("pl");
    assert("pl"@.len() == 2 && "pl"@[0] == 'p' && "pl"@[1] == 'l');
    reveal_strlit("pt");
    assert("pt"@.len() == 2 && "pt"@[0] == 'p' && "pt"@[1] == 't');
    reveal_strlit("il");
    assert("il"@.len() == 2 && "il"@[0] == 'i' && "il"@[1] == 'l');
    reveal_strlit("ir");
    assert("ir"@.len() == 2 && "ir"@[0] == 'i' && "ir"@[1] == 'r');
    reveal_strlit("ly");
    assert("ly"@.len() == 2 && "ly"@[0] == 'l' && "ly"@[1] == 'y');
    reveal_strlit("au");
    assert("au"@.len() == 2 && "au"@[0] == 'a' && "au"@[1] == 'u');
    reveal_strlit("hk");
    assert("hk"@.len() == 2 && "hk"@[0] == 'h' && "hk"@[1] == 'k');
    reveal_strlit("in");
    assert("in"@.len() == 2 && "in"@[0] == 'i' && "in"@[1] == 'n');
    reveal_strlit("jp");
    assert("jp"@.len() == 2 && "jp"@[0] == 'j' && "jp"@[1] == 'p');
    reveal_strlit("kr");
    assert("kr"@.len() == 2 && "kr"@[0] == 'k' && "kr"@[1] == 'r');
    reveal_strlit("my");
    assert("my"@.len() == 2 && "my"@[0] == 'm' && "my"@[1] == 'y');
    reveal_strlit("nz");
    assert("nz"@.len() == 2 && "nz"@[0] == 'n' && "nz"@[1] == 'z');
    reveal_strlit("sg");
    assert("sg"@.len() == 2 && "sg"@[0] == 's' && "sg"@[1] == 'g');
    reveal_strlit("tw");
    assert("tw"@.len() == 2 && "tw"@[0] == 't' && "tw"@[1] == 'w');
}

/// The region of the world that the country belongs to.
pub fn geographic_region(country: &str) -> (r: &'static str)
    ensures
        r@ == region_of(country@),
{
    let c = chars_of(country);
    if chars_eq_str(&c, "br") || chars_eq_str(&c, "ca") || chars_eq_str(&c, "cl") || chars_eq_str(&c, "us") {
        "Americas"
    } else if chars_eq_str(&c, "at") || chars_eq_str(&c, "ch") || chars_eq_str(&c, "cz") || chars_eq_str(&c, "de") || chars_eq_str(&c, "fr") || chars_eq_str(
        &c,
        "gb",
    ) || chars_eq_str(&c, "nl") || chars_eq_str(&c, "pl") || chars_eq_str(&c, "pt") {
        "Europe"
    } else if chars_eq_str(&c, "il") || chars_eq_str(&c, "ir") || chars_eq_str(&c, "ly") {
        "Africa and Middle East"
    } else if chars_eq_str(&c, "au") || chars_eq_str(&c, "hk") || chars_eq_str(&c, "in") || chars_eq_str(&c, "jp") || chars_eq_str(&c, "kr") || chars_eq_str(
        &c,
        "my",
    ) || chars_eq_str(&c, "nz") || chars_eq_str(&c, "sg") || chars_eq_str(&c, "tw") {
        "Asia-Pacific"
    } else {
        "Other"
    }
}

/// The order in which the city browser lists the regions.
pub open spec fn region_order() -> Seq<Seq<char>> {
    seq!["Americas"@, "Europe"@, "Africa and Middle East"@, "Asia-Pacific"@, "Other"@]
}

/// The countries of a region, in their order.
pub open spec fn countries_in(countries: Seq<Seq<char>>, region: Seq<char>) -> Seq<Seq<char>> {
    countries.filter(|c: Seq<char>| region_of(c) == region)
}

/// The regions in their order, each with its countries; regions without countries left out.
pub open spec fn region_listing(countries: Seq<Seq<char>>) -> Seq<(Seq<char>, Seq<Seq<char>>)> {
    region_order().map_values(|r: Seq<char>| (r, countries_in(countries, r))).filter(
        |p: (Seq<char>, Seq<Seq<char>>)| p.1.len() > 0,
    )
}

/// The views of a list of (region, countries) pairs.
pub open spec fn listing_views(v: Seq<(&'static str, Vec<String>)>) -> Seq<(Seq<char>, Seq<Seq<char>>)> {
    v.map_values(|p: (&'static str, Vec<String>)| (p.0@, grouping::views(p.1@)))
}

fn region_name(i: usize) -> (r: &'static str)
    requires
        i < 5,
    ensures
        r@ == region_order()[i as int],
{
    if i == 0 {
        "Americas"
    } else if i == 1 {
        "Europe"
    } else if i == 2 {
        "Africa and Middle East"
    } else if i == 3 {
        "Asia-Pacific"
    } else {
        "Other"
    }
}

/// The countries grouped by region of the world, regions in the browser's order and
/// countries in their given order; regions without countries are left out.
pub fn countries_by_region(countries: &Vec<String>) -> (listing: Vec<(&'static str, Vec<String>)>)
    ensures
        listing_views(listing@) == region_listing(grouping::views(countries@)),
{
    let ghost cs = grouping::views(countries@);
    let ghost all = region_order().map_values(|r: Seq<char>| (r, countries_in(cs, r)));
    let mut listing: Vec<(&'static str, Vec<String>)> = Vec::new();
    let mut r: usize = 0;
    while r < 5
        invariant
            r <= 5,
            cs == grouping::views(countries@),
            all == region_order().map_values(|x: Seq<char>| (x, countries_in(cs, x))),
            listing_views(listing@) == all.take(r as int).filter(
                |p: (Seq<char>, Seq<Seq<char>>)| p.1.len() > 0,
            ),
        decreases 5 - r,
    {
        let region = region_name(r);
        let mut members: Vec<String> = Vec::new();
        let mut i: usize = 0;
        while i < countries.len()
            invariant
                i <= countries.len(),
                cs == grouping::views(countries@),
                grouping::views(members@) == cs.take(i as int).filter(
                    |c: Seq<char>| region_of(c) == region@,
                ),
            decreases countries.len() - i,
        {
            proof {
                reveal(Seq::filter);
                assert(cs.take(i + 1).drop_last() =~= cs.take(i as int));
            }
            let here = geographic_region(countries[i].as_str());
            if str_eq(here, region) {
                let ghost before = grouping::views(members@);
                members.push(countries[i].clone());
                assert(grouping::views(members@) =~= before.push(cs[i as int]));
            }
            i = i + 1;
        }
        assert(cs.take(countries.len() as int) =~= cs);
        assert(grouping::views(members@) == countries_in(cs, region@));
        proof {
            reveal(Seq::filter);
            assert(all.take(r + 1).drop_last() =~= all.take(r as int));
            assert(all[r as int] == (region@, countries_in(cs, region@)));
        }
        if members.len() > 0 {
            let ghost before = listing_views(listing@);
            listing.push((region, members));
            assert(listing_views(listing@) =~= before.push(all[r as int]));
        }
        r = r + 1;
    }
    assert(all.take(5) =~= all);
    listing
}

/// The label of a city in the search box: its name with underscores shown as spaces,
/// then the country's name in brackets.
pub open spec fn search_label(city: Seq<char>, country_name: Seq<char>) -> Seq<char> {
    text::replace_char(city, '_', ' ') + " ("@ + country_name + ")"@
}

/// The label of `city` in the search box, `country_name` being the readable name of its
/// country.
pub fn city_search_label(city: &CityName, country_name: &str) -> (l: String)
    ensures
        l@ == search_label(city.city@, country_name@),
{
    let shown = replace_char_exec(city.city.as_str(), '_', ' ');
    let mut l = join2(shown.as_str(), " (");
    l.append(country_name);
    l.append(")");
    l
}

/// The (country, city) pairs of a list of cities.
pub open spec fn country_pairs(cities: Seq<CityName>) -> Seq<(String, CityName)> {
    cities.map_values(|c: CityName| (c.country, c))
}

/// The cities grouped by country: countries in ascending order, each with its cities in
/// their given order.
pub fn cities_per_country_from_manifest(cities: Vec<CityName>) -> (per_country: Vec<
    (String, Vec<CityName>),
>)
    ensures
        grouping::is_grouping(country_pairs(cities@), per_country@),
{
    let ghost orig = cities@;
    let mut rest = cities;
    let mut pairs: Vec<(String, CityName)> = Vec::new();
    let n = rest.len();
    let mut i: usize = 0;
    assert(rest@ =~= orig.skip(0));
    while i < n
        invariant
            n == orig.len(),
            i <= n,
            rest@ == orig.skip(i as int),
            pairs@ == country_pairs(orig.take(i as int)),
        decreases n - i,
    {
        let c = rest.remove(0);
        assert(orig.skip(i as int)[0] == c);
        assert(rest@ =~= orig.skip(i + 1));
        let country = c.country.clone();
        pairs.push((country, c));
        assert(pairs@ =~= country_pairs(orig.take(i + 1)));
        i = i + 1;
    }
    assert(orig.take(n as int) =~= orig);
    group_by_key(pairs)
}

/// How the city browser is laid out in a window of a given width.
pub struct CityBrowserLayout {
    pub autocomplete_chars: usize,
    pub search_results: usize,
    pub geography_width_percent: usize,
    /// The width of the panel, in percent of the window's.
    pub panel_width_percent: usize,
    /// The height of the panel, in percent of the window's.
    pub panel_height_percent: usize,
    pub stacked: bool,
}

/// `l` is the layout for a window of `window_width` whole pixels.
pub open spec fn layout_for(l: CityBrowserLayout, window_width: u64) -> bool {
    &&& l.autocomplete_chars == 26
    &&& l.search_results == 6
    &&& window_width >= 1100 ==> l.geography_width_percent == 34 && l.panel_width_percent == 82
        && l.panel_height_percent == 82 && !l.stacked
    &&& window_width < 1100 ==> l.geography_width_percent == 78 && l.panel_width_percent == 90
        && l.panel_height_percent == 86 && l.stacked
}

/// The layout for a window of `window_width` whole pixels (the width rounded down, which
/// keeps the comparison with 1100 exact): side by side from 1100 pixels on, stacked below.
pub fn city_browser_layout(window_width: u64) -> (l: CityBrowserLayout)
    ensures
        layout_for(l, window_width),
{
    if window_width >= 1100 {
        CityBrowserLayout {
            autocomplete_chars: 26,
            search_results: 6,
            geography_width_percent: 34,
            panel_width_percent: 82,
            panel_height_percent: 82,
            stacked: false,
        }
    } else {
        CityBrowserLayout {
            autocomplete_chars: 26,
            search_results: 6,
            geography_width_percent: 78,
            panel_width_percent: 90,
            panel_height_percent: 86,
            stacked: true,
        }
    }
}

/// What a click in the city browser asks for.
#[derive(Clone, Debug)]
pub enum BrowseClick {
    /// Close the browser.
    Close,
    /// Browse the cities of this country.
    Country(String),
    /// Choose the city at this path.
    City(String),
    /// Nothing.
    Nothing,
}

/// What a click on the button named `x` in the city browser asks for.
pub open spec fn browse_click_of(x: Seq<char>) -> BrowseClickView {
    if x == "close"@ {
        BrowseClickView::Close
    } else if text::has_prefix(x, "country:"@) {
        BrowseClickView::Country(x.subrange(8, x.len() as int))
    } else if text::has_prefix(x, "city:"@) {
        BrowseClickView::City(x.subrange(5, x.len() as int))
    } else {
        BrowseClickView::Nothing
    }
}

/// A click in the city browser, its strings taken as views.
pub enum BrowseClickView {
    Close,
    Country(Seq<char>),
    City(Seq<char>),
    Nothing,
}

impl View for BrowseClick {
    type V = BrowseClickView;

    open spec fn view(&self) -> BrowseClickView {
        match self {
            BrowseClick::Close => BrowseClickView::Close,
            BrowseClick::Country(c) => BrowseClickView::Country(c@),
            BrowseClick::City(c) => BrowseClickView::City(c@),
            BrowseClick::Nothing => BrowseClickView::Nothing,
        }
    }
}

/// What a click on the button named `x` in the city browser asks for: "close" closes it,
/// "country:" and "city:" name a country or a city.
pub fn browse_click(x: &str) -> (c: BrowseClick)
    ensures
        c@ == browse_click_of(x@),
{
    proof {
        reveal_strlit("country:");
        reveal_strlit("city:");
    }
    if str_eq(x, "close") {
        return BrowseClick::Close;
    }
    match strip_prefix(x, "country:") {
        Some(country) => {
            return BrowseClick::Country(country);
        },
        None => {},
    }
    match strip_prefix(x, "city:") {
        Some(city) => BrowseClick::City(city),
        None => BrowseClick::Nothing,
    }
}

/// What a click in the district picker of one city asks for.
#[derive(Clone, Copy, Debug, PartialEq, Eq, Structural)]
pub enum PickerClick {
    Close,
    SearchAllMaps,
    ImportNewCity,
    ReimportThisCity,
    /// A map's path or a country: anything else.
    Other,
}

/// What a click on the button named `x` in the district picker asks for.
pub open spec fn picker_click_of(x: Seq<char>) -> PickerClick {
    if x == "close"@ {
        PickerClick::Close
    } else if x == "Search all maps"@ {
        PickerClick::SearchAllMaps
    } else if x == "import new city"@ {
        PickerClick::ImportNewCity
    } else if x == "re-import this city"@ {
        PickerClick::ReimportThisCity
    } else {
        PickerClick::Other
    }
}

/// What a click on the button named `x` in the district picker asks for.
pub fn picker_click(x: &str) -> (c: PickerClick)
    ensures
        c == picker_click_of(x@),
{
    if str_eq(x, "close") {
        PickerClick::Close
    } else if str_eq(x, "Search all maps") {
        PickerClick::SearchAllMaps
    } else if str_eq(x, "import new city") {
        PickerClick::ImportNewCity
    } else if str_eq(x, "re-import this city") {
        PickerClick::ReimportThisCity
    } else {
        PickerClick::Other
    }
}

/// The first character of `char::to_uppercase` of `c`.
pub uninterp spec fn upper_first(c: char) -> char;

/// std's `char::to_uppercase`, first character of its result (there always is one); the
/// contract names that character and says nothing more of it.
#[verifier::external_body]
fn uppercase_first(c: char) -> (u: char)
    ensures
        u == upper_first(c),
{
    c.to_uppercase().next().unwrap()
}

/// The letter a city is filed under: its name's first character, upper-cased.
pub open spec fn initial_of(c: CityName) -> char {
    upper_first(c.city@[0])
}

/// The cities cut into runs of neighbours filed under the same letter, in order.
pub open spec fn letter_runs(cs: Seq<CityName>) -> Seq<(char, Seq<CityName>)>
    decreases cs.len(),
{
    if cs.len() == 0 {
        Seq::empty()
    } else {
        let prev = letter_runs(cs.drop_last());
        let c = cs.last();
        if prev.len() > 0 && prev.last().0 == initial_of(c) {
            prev.update(prev.len() - 1, (prev.last().0, prev.last().1.push(c)))
        } else {
            prev.push((initial_of(c), seq![c]))
        }
    }
}

/// The rows, one after the other.
pub open spec fn concat_runs(rows: Seq<(char, Seq<CityName>)>) -> Seq<CityName>
    decreases rows.len(),
{
    if rows.len() == 0 {
        Seq::empty()
    } else {
        concat_runs(rows.drop_last()) + rows.last().1
    }
}

/// Filing cities by letter loses and reorders nothing: the rows, one after the other, are
/// the cities; no row is empty; every city of a row is filed under its letter; and
/// neighbouring rows have different letters.
pub proof fn lemma_letter_runs_partition(cs: Seq<CityName>)
    ensures
        concat_runs(letter_runs(cs)) == cs,
        forall|i: int| 0 <= i < letter_runs(cs).len() ==> (#[trigger] letter_runs(cs)[i]).1.len() > 0,
        forall|i: int, j: int|
            0 <= i < letter_runs(cs).len() && 0 <= j < letter_runs(cs)[i].1.len() ==> initial_of(
                #[trigger] letter_runs(cs)[i].1[j],
            ) == letter_runs(cs)[i].0,
        forall|i: int|
            0 < i < letter_runs(cs).len() ==> (#[trigger] letter_runs(cs)[i]).0 != letter_runs(cs)[i
                - 1].0,
    decreases cs.len(),
{
    if cs.len() > 0 {
        let prev = letter_runs(cs.drop_last());
        lemma_letter_runs_partition(cs.drop_last());
        let c = cs.last();
        let r = letter_runs(cs);
        assert(cs.drop_last().push(c) =~= cs);
        if prev.len() > 0 && prev.last().0 == initial_of(c) {
            assert(r.drop_last() =~= prev.drop_last());
            assert(concat_runs(prev) == concat_runs(prev.drop_last()) + prev.last().1);
            assert(concat_runs(r) == concat_runs(r.drop_last()) + r.last().1);
            assert(concat_runs(r) =~= concat_runs(prev).push(c));
            assert forall|i: int, j: int| 0 <= i < r.len() && 0 <= j < r[i].1.len() implies initial_of(
                #[trigger] r[i].1[j],
            ) == r[i].0 by {
                if i == r.len() - 1 && j == r[i].1.len() - 1 {
                } else if i == r.len() - 1 {
                    assert(r[i].1[j] == prev[i].1[j]);
                } else {
                    assert(r[i] == prev[i]);
                }
            }
            assert forall|i: int| 0 < i < r.len() implies (#[trigger] r[i]).0 != r[i - 1].0 by {
                assert(r[i].0 == prev[i].0);
                assert(r[i - 1].0 == prev[i - 1].0);
            }
            assert forall|i: int| 0 <= i < r.len() implies (#[trigger] r[i]).1.len() > 0 by {
                if i < r.len() - 1 {
                    assert(r[i] == prev[i]);
                }
            }
        } else {
            assert(r.drop_last() =~= prev);
            assert(concat_runs(r) == concat_runs(r.drop_last()) + r.last().1);
            assert(concat_runs(r) =~= concat_runs(prev).push(c));
            assert forall|i: int, j: int| 0 <= i < r.len() && 0 <= j < r[i].1.len() implies initial_of(
                #[trigger] r[i].1[j],
            ) == r[i].0 by {
                if i < r.len() - 1 {
                    assert(r[i] == prev[i]);
                }
            }
            assert forall|i: int| 0 < i < r.len() implies (#[trigger] r[i]).0 != r[i - 1].0 by {
                if i < r.len() - 1 {
                    assert(r[i] == prev[i]);
                }
                assert(r[i - 1] == prev[i - 1]);
            }
            assert forall|i: int| 0 <= i < r.len() implies (#[trigger] r[i]).1.len() > 0 by {
                if i < r.len() - 1 {
                    assert(r[i] == prev[i]);
                }
            }
        }
    }
}

/// Every country falls in one of the regions that the browser lists.
pub proof fn lemma_every_region_is_listed(country: Seq<char>)
    ensures
        region_order().contains(region_of(country)),
{
    let r = region_of(country);
    let k: int = if r == "Americas"@ {
        0
    } else if r == "Europe"@ {
        1
    } else if r == "Africa and Middle East"@ {
        2
    } else if r == "Asia-Pacific"@ {
        3
    } else {
        4
    };
    assert(region_order()[k] == r);
}

/// Every listed region holds only countries of that region, and every given country is
/// listed under its own region.
pub proof fn lemma_countries_listed_under_their_region(countries: Seq<Seq<char>>)
    ensures
        forall|i: int, j: int|
            0 <= i < region_listing(countries).len() && 0 <= j < region_listing(countries)[i].1.len()
                ==> region_of(#[trigger] region_listing(countries)[i].1[j]) == region_listing(
                countries,
            )[i].0,
        forall|c: Seq<char>|
            countries.contains(c) ==> exists|i: int|
                0 <= i < region_listing(countries).len() && #[trigger] region_listing(countries)[i].0
                    == region_of(c) && region_listing(countries)[i].1.contains(c),
{
    broadcast use vstd::seq_lib::group_filter_ensures;

    let all = region_order().map_values(|r: Seq<char>| (r, countries_in(countries, r)));
    let nonempty = |p: (Seq<char>, Seq<Seq<char>>)| p.1.len() > 0;
    let listing = region_listing(countries);
    assert(listing == all.filter(nonempty));
    assert forall|i: int, j: int|
        0 <= i < listing.len() && 0 <= j < listing[i].1.len() implies region_of(
        #[trigger] listing[i].1[j],
    ) == listing[i].0 by {
        assert(listing.contains(listing[i]));
        all.lemma_filter_contains_rev(nonempty, listing[i]);
        let k = choose|k: int| 0 <= k < all.len() && all[k] == listing[i];
        let r = region_order()[k];
        assert(listing[i].1 == countries_in(countries, r));
        countries.lemma_filter_pred(|c: Seq<char>| region_of(c) == r, j);
    }
    assert forall|c: Seq<char>| countries.contains(c) implies exists|i: int|
        0 <= i < listing.len() && #[trigger] listing[i].0 == region_of(c) && listing[i].1.contains(
            c,
        ) by {
        let r = region_of(c);
        lemma_every_region_is_listed(c);
        let k = choose|k: int| 0 <= k < region_order().len() && region_order()[k] == r;
        let j = choose|j: int| 0 <= j < countries.len() && countries[j] == c;
        countries.lemma_filter_contains(|x: Seq<char>| region_of(x) == r, j);
        let members = countries_in(countries, r);
        assert(members.contains(c));
        assert(members.len() > 0);
        assert(all[k] == (r, members));
        all.lemma_filter_contains(nonempty, k);
        assert(listing.contains((r, members)));
        let i = choose|i: int| 0 <= i < listing.len() && listing[i] == (r, members);
        assert(listing[i].0 == r);
    }
}

/// The cities other than `current`, in their order.
pub open spec fn others(cities: Seq<CityName>, current: CityName) -> Seq<CityName> {
    cities.filter(|c: CityName| !same_city(c, current))
}

/// The views of rows of cities.
pub open spec fn row_views(rows: Seq<(char, Vec<CityName>)>) -> Seq<(char, Seq<CityName>)> {
    rows.map_values(|r: (char, Vec<CityName>)| (r.0, r.1@))
}

/// The rows of the country's city list: the cities other than the current one, in runs of
/// neighbours filed under the same letter.
pub fn letter_rows(cities: Vec<CityName>, current: &CityName) -> (rows: Vec<(char, Vec<CityName>)>)
    requires
        forall|i: int| 0 <= i < cities.len() ==> (#[trigger] cities@[i]).city@.len() > 0,
    ensures
        row_views(rows@) == letter_runs(others(cities@, *current)),
{
    let ghost orig = cities@;
    let mut rest = cities;
    let mut rows: Vec<(char, Vec<CityName>)> = Vec::new();
    let n = rest.len();
    let mut i: usize = 0;
    assert(rest@ =~= orig.skip(0));
    assert(row_views(rows@) =~= letter_runs(others(orig.take(0), *current))) by {
        reveal(Seq::filter);
        assert(orig.take(0) =~= Seq::<CityName>::empty());
    }
    while i < n
        invariant
            n == orig.len(),
            i <= n,
            rest@ == orig.skip(i as int),
            forall|k: int| 0 <= k < orig.len() ==> (#[trigger] orig[k]).city@.len() > 0,
            row_views(rows@) == letter_runs(others(orig.take(i as int), *current)),
        decreases n - i,
    {
        let c = rest.remove(0);
        assert(orig.skip(i as int)[0] == c);
        assert(rest@ =~= orig.skip(i + 1));
        let ghost prev = others(orig.take(i as int), *current);
        proof {
            reveal(Seq::filter);
            assert(orig.take(i + 1).drop_last() =~= orig.take(i as int));
        }
        if c.same_as(current) {
            assert(others(orig.take(i + 1), *current) == prev);
        } else {
            assert(others(orig.take(i + 1), *current) == prev.push(c));
            assert(prev.push(c).drop_last() =~= prev);
            let first = c.city.as_str().get_char(0);
            let letter = uppercase_first(first);
            let ghost before = row_views(rows@);
            let n_rows = rows.len();
            let extend = n_rows > 0 && rows[n_rows - 1].0 == letter;
            if extend {
                let (l, mut members) = rows.pop().unwrap();
                members.push(c);
                rows.push((l, members));
                assert(row_views(rows@) =~= before.update(before.len() - 1, (before.last().0, before.last().1.push(c))));
            } else {
                let mut members: Vec<CityName> = Vec::new();
                members.push(c);
                rows.push((letter, members));
                assert(row_views(rows@) =~= before.push((letter, seq![c])));
            }
        }
        i = i + 1;
    }
    assert(orig.take(n as int) =~= orig);
    rows
}

/// The other places that the district picker offers: each country with its number of
/// cities, but for a country whose only city is the current one.
pub open spec fn other_places_of(per_country: Seq<(String, Vec<CityName>)>, current: CityName) -> Seq<
    (Seq<char>, nat),
> {
    per_country.filter(
        |p: (String, Vec<CityName>)| !(p.1.len() == 1 && same_city(p.1@[0], current)),
    ).map_values(|p: (String, Vec<CityName>)| (p.0@, p.1.len() as nat))
}

/// The countries to offer besides the current city, each with its number of cities; a
/// country whose only city is the current one is left out.
pub fn other_places(per_country: &Vec<(String, Vec<CityName>)>, current: &CityName) -> (places: Vec<
    (String, usize),
>)
    ensures
        places@.map_values(|p: (String, usize)| (p.0@, p.1 as nat)) == other_places_of(
            per_country@,
            *current,
        ),
{
    let mut places: Vec<(String, usize)> = Vec::new();
    let mut i: usize = 0;
    while i < per_country.len()
        invariant
            i <= per_country.len(),
            places@.map_values(|p: (String, usize)| (p.0@, p.1 as nat)) == other_places_of(
                per_country@.take(i as int),
                *current,
            ),
        decreases per_country.len() - i,
    {
        proof {
            reveal(Seq::filter);
            assert(per_country@.take(i + 1).drop_last() =~= per_country@.take(i as int));
        }
        let cities = &per_country[i].1;
        let skip = cities.len() == 1 && cities[0].same_as(current);
        if !skip {
            let ghost before = places@.map_values(|p: (String, usize)| (p.0@, p.1 as nat));
            places.push((per_country[i].0.clone(), cities.len()));
            assert(places@.map_values(|p: (String, usize)| (p.0@, p.1 as nat)) =~= before.push(
                (per_country@[i as int].0@, cities.len() as nat),
            ));
        }
        assert(places@.map_values(|p: (String, usize)| (p.0@, p.1 as nat)) =~= other_places_of(
            per_country@.take(i + 1),
            *current,
        ));
        i = i + 1;
    }
    assert(per_country@.take(per_country.len() as int) =~= per_country@);
    places
}

/// What choosing a map leads to.
#[derive(Clone, Debug)]
pub enum MapChoice {
    /// The map's file is missing: offer to download it, then load it.
    PromptDownload(MapName),
    /// Load the map.
    Load(MapName),
}

/// Choosing the map `name`: natively, a map whose file does not exist is offered for
/// download first; on the web, and when the file exists, it is loaded.
pub fn chose_city(name: MapName, file_exists: bool, on_web: bool) -> (c: MapChoice)
    ensures
        !on_web && !file_exists ==> c == MapChoice::PromptDownload(name),
        on_web || file_exists ==> c == MapChoice::Load(name),
{
    if !on_web && !file_exists {
        MapChoice::PromptDownload(name)
    } else {
        MapChoice::Load(name)
    }
}

/// The file of a city's districts, below the data directory.
pub open spec fn city_file_of(c: CityName) -> Seq<char> {
    "system/"@ + c.country@ + "/"@ + c.city@ + "/city.bin"@
}

impl CityName {
    /// The file of this city's districts, below the data directory:
    /// "system/<country>/<city>/city.bin".
    pub fn city_file(&self) -> (f: String)
        ensures
            f@ == city_file_of(*self),
    {
        let mut f = join2("system/", self.country.as_str());
        f.append("/");
        f.append(self.city.as_str());
        f.append("/city.bin");
        f
    }
}

/// What choosing a city in a country's list leads to.
#[derive(Clone, Debug)]
pub enum CountryCityChoice {
    /// The city has one map: choose it.
    OnlyMap(MapName),
    /// The city's district file is listed for download but missing: offer to download the
    /// data, for this map of the city.
    PromptDownload(MapName),
    /// Pick a district of the city.
    Districts,
}

/// Choosing a city, whose maps are `maps`, in a country's list: its only map when it has
/// exactly one; else, natively, when its district file is listed among the downloads but
/// missing on disk, the offer to download it, for the city's last map; else the district
/// picker.
pub fn chose_city_in_country(
    maps: Vec<MapName>,
    city_file_listed: bool,
    city_file_exists: bool,
    on_web: bool,
) -> (c: CountryCityChoice)
    requires
        maps.len() == 0 ==> on_web || !city_file_listed || city_file_exists,
    ensures
        maps.len() == 1 ==> c == CountryCityChoice::OnlyMap(maps@[0]),
        maps.len() != 1 && !on_web && city_file_listed && !city_file_exists ==> c
            == CountryCityChoice::PromptDownload(maps@.last()),
        maps.len() != 1 && !(!on_web && city_file_listed && !city_file_exists) ==> c is Districts,
{
    let mut maps = maps;
    if maps.len() == 1 {
        return CountryCityChoice::OnlyMap(maps.pop().unwrap());
    }
    if !on_web && city_file_listed && !city_file_exists {
        return CountryCityChoice::PromptDownload(maps.pop().unwrap());
    }
    CountryCityChoice::Districts
}

/// What choosing a city leads to.
#[derive(Clone, Debug)]
pub enum CityChoice {
    /// The city has one map: load it.
    OnlyMap(MapName),
    /// The city has several maps (or none): pick a district.
    Districts,
}

/// Choosing a city with the given maps: its only map when it has exactly one, else the
/// district picker.
pub fn chose_city_name(maps: Vec<MapName>) -> (c: CityChoice)
    ensures
        maps.len() == 1 ==> (c matches CityChoice::OnlyMap(m) && m == maps@[0]),
        maps.len() != 1 ==> c is Districts,
{
    let mut maps = maps;
    if maps.len() == 1 {
        let m = maps.pop().unwrap();
        return CityChoice::OnlyMap(m);
    }
    CityChoice::Districts
}

/// Lets the player switch maps.
pub struct CityPicker;

impl CityPicker {
    /// Picking a city starts with the browser on the country of the current city (see
    /// `BrowseCities::new_state` for the rest).
    pub fn new_state(
        current: &CityName,
        cities: Vec<CityName>,
        maps: &Vec<(MapName, bool)>,
        names: &Vec<(String, String)>,
        window_width: u64,
        online_only: bool,
    ) -> (b: BrowseCities)
        ensures
            is_browser_of(b, current.country@, cities@, maps@, names@, window_width, online_only),
    {
        BrowseCities::new_state(current.country.clone(), cities, maps, names, window_width, online_only)
    }
}

/// The path of a city below the data directory: "country/city".
pub open spec fn city_path(country: Seq<char>, city: Seq<char>) -> Seq<char> {
    country + "/"@ + city
}

/// The readable name of the country `code`: the first name given for it in `names`
/// (pairs of code and name), else the code itself.
pub open spec fn name_for(names: Seq<(String, String)>, code: Seq<char>) -> Seq<char>
    decreases names.len(),
{
    if names.len() == 0 {
        code
    } else if names[0].0@ == code {
        names[0].1@
    } else {
        name_for(names.drop_first(), code)
    }
}

/// The cities of the groups, one group after the other.
pub open spec fn flatten_groups(groups: Seq<(String, Vec<CityName>)>) -> Seq<CityName>
    decreases groups.len(),
{
    if groups.len() == 0 {
        Seq::empty()
    } else {
        flatten_groups(groups.drop_last()) + groups.last().1@
    }
}

/// The entry of a city in the city search: its label and its path.
pub open spec fn search_entry_of(names: Seq<(String, String)>, c: CityName) -> (Seq<char>, Seq<char>) {
    (search_label(c.city@, name_for(names, c.country@)), city_path(c.country@, c.city@))
}

/// Whether a city is in the country `country`.
pub open spec fn in_country(country: Seq<char>) -> spec_fn(CityName) -> bool {
    |c: CityName| c.country@ == country
}

/// Whether a map (with whether it is installed) belongs to the city `c`.
pub open spec fn map_in_city(c: CityName) -> spec_fn((MapName, bool)) -> bool {
    |m: (MapName, bool)| same_city(m.0.city, c)
}

/// Whether a map (with whether it is installed) belongs to the city `c` and is installed.
pub open spec fn installed_in_city(c: CityName) -> spec_fn((MapName, bool)) -> bool {
    |m: (MapName, bool)| same_city(m.0.city, c) && m.1
}

/// The keys of groups of cities, as strings.
pub open spec fn group_keys(groups: Seq<(String, Vec<CityName>)>) -> Seq<Seq<char>> {
    groups.map_values(|g: (String, Vec<CityName>)| g.0@)
}

impl CityName {
    /// The path of this city below the data directory: "country/city".
    pub fn to_path(&self) -> (p: String)
        ensures
            p@ == city_path(self.country@, self.city@),
    {
        let mut p = join2(self.country.as_str(), "/");
        p.append(self.city.as_str());
        p
    }
}

/// The readable name of the country `code` among `names` (see `name_for`).
pub fn country_name(names: &Vec<(String, String)>, code: &str) -> (n: String)
    ensures
        n@ == name_for(names@, code@),
{
    let mut i: usize = 0;
    while i < names.len()
        invariant
            i <= names.len(),
            name_for(names@, code@) == name_for(names@.skip(i as int), code@),
        decreases names.len() - i,
    {
        assert(names@.skip(i as int)[0] == names@[i as int]);
        assert(names@.skip(i as int).drop_first() =~= names@.skip(i + 1));
        if str_eq(names[i].0.as_str(), code) {
            return owned(names[i].1.as_str());
        }
        i = i + 1;
    }
    assert(names@.skip(i as int) =~= Seq::<(String, String)>::empty());
    owned(code)
}

/// The cities of the groups, one group after the other.
pub fn flatten_cities(groups: &Vec<(String, Vec<CityName>)>) -> (flat: Vec<CityName>)
    ensures
        flat@ == flatten_groups(groups@),
{
    let mut flat: Vec<CityName> = Vec::new();
    let mut i: usize = 0;
    while i < groups.len()
        invariant
            i <= groups.len(),
            flat@ == flatten_groups(groups@.take(i as int)),
        decreases groups.len() - i,
    {
        let members = &groups[i].1;
        let ghost before = flat@;
        let mut j: usize = 0;
        while j < members.len()
            invariant
                j <= members.len(),
                flat@ == before + members@.take(j as int),
            decreases members.len() - j,
        {
            flat.push(members[j].copied());
            assert(members@.take(j + 1) =~= members@.take(j as int).push(members@[j as int]));
            j = j + 1;
        }
        assert(groups@.take(i + 1).drop_last() =~= groups@.take(i as int));
        assert(members@.take(members.len() as int) =~= members@);
        i = i + 1;
    }
    assert(groups@.take(groups.len() as int) =~= groups@);
    flat
}

/// The entries of the city search: each city of the groups, in order, with its label and
/// path.
pub fn search_entries(groups: &Vec<(String, Vec<CityName>)>, names: &Vec<(String, String)>) -> (entries:
    Vec<(String, String)>)
    ensures
        entries.len() == flatten_groups(groups@).len(),
        forall|k: int|
            0 <= k < entries.len() ==> ((#[trigger] entries@[k]).0@, entries@[k].1@) == search_entry_of(
                names@,
                flatten_groups(groups@)[k],
            ),
{
    let flat = flatten_cities(groups);
    let mut entries: Vec<(String, String)> = Vec::new();
    let mut k: usize = 0;
    while k < flat.len()
        invariant
            k <= flat.len(),
            entries.len() == k,
            forall|m: int|
                0 <= m < k ==> ((#[trigger] entries@[m]).0@, entries@[m].1@) == search_entry_of(names@, flat@[m]),
        decreases flat.len() - k,
    {
        let c = &flat[k];
        let name = country_name(names, c.country.as_str());
        let label = city_search_label(c, name.as_str());
        entries.push((label, c.to_path()));
        k = k + 1;
    }
    entries
}

/// How many maps of the city `c` there are, and how many of them are installed.
pub fn map_counts(maps: &Vec<(MapName, bool)>, c: &CityName) -> (r: (usize, usize))
    ensures
        r.0 == maps@.filter(map_in_city(*c)).len(),
        r.1 == maps@.filter(installed_in_city(*c)).len(),
{
    let mut total: usize = 0;
    let mut installed: usize = 0;
    let mut i: usize = 0;
    while i < maps.len()
        invariant
            i <= maps.len(),
            total == maps@.take(i as int).filter(map_in_city(*c)).len(),
            installed == maps@.take(i as int).filter(installed_in_city(*c)).len(),
            total <= i,
            installed <= i,
        decreases maps.len() - i,
    {
        proof {
            reveal(Seq::filter);
            assert(maps@.take(i + 1).drop_last() =~= maps@.take(i as int));
        }
        if maps[i].0.city.same_as(c) {
            total = total + 1;
            if maps[i].1 {
                installed = installed + 1;
            }
        }
        i = i + 1;
    }
    assert(maps@.take(maps.len() as int) =~= maps@);
    (total, installed)
}

/// A row of the city browser's list: the city, its button's label (its name with
/// underscores shown as spaces) and name ("city:" and its path), and how available it is.
#[derive(Clone, Debug)]
pub struct CityRow {
    pub city: CityName,
    pub label: String,
    pub button: String,
    pub availability: &'static str,
}

/// `row` is the row of the city `c`, whose maps are among `maps`.
pub open spec fn is_row_of(row: CityRow, c: CityName, maps: Seq<(MapName, bool)>, online_only: bool) -> bool {
    &&& row.city == c
    &&& row.label@ == text::replace_char(c.city@, '_', ' ')
    &&& row.button@ == "city:"@ + city_path(c.country@, c.city@)
    &&& row.availability@ == availability(
        maps.filter(installed_in_city(c)).len(),
        maps.filter(map_in_city(c)).len(),
        online_only,
    )
}

/// The rows of the cities of `country`, in their order.
pub fn city_rows(cities: &Vec<CityName>, country: &str, maps: &Vec<(MapName, bool)>, online_only: bool) -> (rows:
    Vec<CityRow>)
    ensures
        rows.len() == cities@.filter(in_country(country@)).len(),
        forall|k: int|
            0 <= k < rows.len() ==> is_row_of(
                #[trigger] rows@[k],
                cities@.filter(in_country(country@))[k],
                maps@,
                online_only,
            ),
{
    let mut rows: Vec<CityRow> = Vec::new();
    let mut i: usize = 0;
    while i < cities.len()
        invariant
            i <= cities.len(),
            rows.len() == cities@.take(i as int).filter(in_country(country@)).len(),
            forall|k: int|
                0 <= k < rows.len() ==> is_row_of(
                    #[trigger] rows@[k],
                    cities@.take(i as int).filter(in_country(country@))[k],
                    maps@,
                    online_only,
                ),
        decreases cities.len() - i,
    {
        let ghost before = cities@.take(i as int).filter(in_country(country@));
        proof {
            reveal(Seq::filter);
            assert(cities@.take(i + 1).drop_last() =~= cities@.take(i as int));
        }
        let c = &cities[i];
        if str_eq(c.country.as_str(), country) {
            let (total, installed) = map_counts(maps, c);
            let label = replace_char_exec(c.city.as_str(), '_', ' ');
            let path = c.to_path();
            let button = join2("city:", path.as_str());
            let availability = city_availability_label(installed, total, online_only);
            rows.push(CityRow { city: c.copied(), label, button, availability });
            assert(cities@.take(i + 1).filter(in_country(country@)) == before.push(cities@[i as int]));
        }
        i = i + 1;
    }
    assert(cities@.take(cities.len() as int) =~= cities@);
    rows
}

/// The keys of the groups.
fn group_key_list(groups: &Vec<(String, Vec<CityName>)>) -> (keys: Vec<String>)
    ensures
        grouping::views(keys@) == group_keys(groups@),
{
    let mut keys: Vec<String> = Vec::new();
    let mut i: usize = 0;
    while i < groups.len()
        invariant
            i <= groups.len(),
            grouping::views(keys@) == group_keys(groups@.take(i as int)),
        decreases groups.len() - i,
    {
        let ghost before = keys@;
        let k = owned(groups[i].0.as_str());
        keys.push(k);
        assert(keys@ == before.push(k));
        assert(groups@.take(i + 1) =~= groups@.take(i as int).push(groups@[i as int]));
        assert(grouping::views(keys@) =~= grouping::views(before).push(k@));
        assert(group_keys(groups@.take(i + 1)) =~= group_keys(groups@.take(i as int)).push(groups@[i as int].0@));
        i = i + 1;
    }
    assert(groups@.take(groups.len() as int) =~= groups@);
    keys
}

/// The number of cities of the first group with key `c`, or 0 when there is none.
pub open spec fn group_size_of(groups: Seq<(String, Vec<CityName>)>, c: Seq<char>) -> nat
    decreases groups.len(),
{
    if groups.len() == 0 {
        0
    } else if groups[0].0@ == c {
        groups[0].1.len() as nat
    } else {
        group_size_of(groups.drop_first(), c)
    }
}

/// The number of cities of the country `c` among the groups (see `group_size_of`).
pub fn group_size(groups: &Vec<(String, Vec<CityName>)>, c: &str) -> (n: usize)
    ensures
        n == group_size_of(groups@, c@),
{
    let mut i: usize = 0;
    while i < groups.len()
        invariant
            i <= groups.len(),
            group_size_of(groups@, c@) == group_size_of(groups@.skip(i as int), c@),
        decreases groups.len() - i,
    {
        assert(groups@.skip(i as int)[0] == groups@[i as int]);
        assert(groups@.skip(i as int).drop_first() =~= groups@.skip(i + 1));
        if str_eq(groups[i].0.as_str(), c) {
            return groups[i].1.len();
        }
        i = i + 1;
    }
    assert(groups@.skip(i as int) =~= Seq::<(String, Vec<CityName>)>::empty());
    0
}

/// The button of a country in the city browser: the country, the button's name
/// ("country:" and the code), the country's readable name and number of cities (which
/// its label shows), and whether it is disabled.
#[derive(Clone, Debug)]
pub struct CountryButton {
    pub country: String,
    pub name: String,
    pub country_name: String,
    pub cities: usize,
    pub disabled: bool,
}

/// `b` is the button of its country, for the groups `per_country`, the readable country
/// `names` and the selected country: disabled exactly when it is the selected one.
pub open spec fn is_button_for(
    b: CountryButton,
    selected: Seq<char>,
    per_country: Seq<(String, Vec<CityName>)>,
    names: Seq<(String, String)>,
) -> bool {
    &&& b.name@ == "country:"@ + b.country@
    &&& b.country_name@ == name_for(names, b.country@)
    &&& b.cities == group_size_of(per_country, b.country@)
    &&& b.disabled == (b.country@ == selected)
}

/// The regions with the countries of their buttons.
pub open spec fn button_listing(v: Seq<(&'static str, Vec<CountryButton>)>) -> Seq<(Seq<char>, Seq<Seq<char>>)> {
    v.map_values(
        |p: (&'static str, Vec<CountryButton>)| (p.0@, p.1@.map_values(|b: CountryButton| b.country@)),
    )
}

/// The country buttons of the browser on `selected`, under the regions of `listing`.
fn country_buttons(
    listing: &Vec<(&'static str, Vec<String>)>,
    selected: &str,
    per_country: &Vec<(String, Vec<CityName>)>,
    names: &Vec<(String, String)>,
) -> (buttons: Vec<(&'static str, Vec<CountryButton>)>)
    ensures
        button_listing(buttons@) == listing_views(listing@),
        forall|i: int, j: int|
            0 <= i < buttons.len() && 0 <= j < buttons@[i].1.len() ==> is_button_for(
                #[trigger] buttons@[i].1@[j],
                selected@,
                per_country@,
                names@,
            ),
{
    let mut buttons: Vec<(&'static str, Vec<CountryButton>)> = Vec::new();
    let mut i: usize = 0;
    while i < listing.len()
        invariant
            i <= listing.len(),
            button_listing(buttons@) == listing_views(listing@.take(i as int)),
            forall|a: int, j: int|
                0 <= a < buttons.len() && 0 <= j < buttons@[a].1.len() ==> is_button_for(
                    #[trigger] buttons@[a].1@[j],
                    selected@,
                    per_country@,
                    names@,
                ),
        decreases listing.len() - i,
    {
        let countries = &listing[i].1;
        let mut row: Vec<CountryButton> = Vec::new();
        let mut j: usize = 0;
        while j < countries.len()
            invariant
                j <= countries.len(),
                row@.map_values(|b: CountryButton| b.country@) == grouping::views(countries@.take(j as int)),
                forall|k: int| 0 <= k < row.len() ==> is_button_for(#[trigger] row@[k], selected@, per_country@, names@),
            decreases countries.len() - j,
        {
            let c = countries[j].as_str();
            let b = CountryButton {
                country: owned(c),
                name: join2("country:", c),
                country_name: country_name(names, c),
                cities: group_size(per_country, c),
                disabled: str_eq(c, selected),
            };
            let ghost before = row@;
            row.push(b);
            assert(row@ == before.push(b));
            assert(countries@.take(j + 1) =~= countries@.take(j as int).push(countries@[j as int]));
            assert(row@.map_values(|x: CountryButton| x.country@) =~= before.map_values(
                |x: CountryButton| x.country@,
            ).push(b.country@));
            assert(grouping::views(countries@.take(j + 1)) =~= grouping::views(countries@.take(j as int)).push(
                countries@[j as int]@,
            ));
            j = j + 1;
        }
        assert(countries@.take(countries.len() as int) =~= countries@);
        let ghost before = buttons@;
        let region = listing[i].0;
        buttons.push((region, row));
        proof {
            assert(listing@.take(i + 1) =~= listing@.take(i as int).push(listing@[i as int]));
            assert(button_listing(buttons@) =~= button_listing(before).push((region@, grouping::views(countries@))));
            assert(listing_views(listing@.take(i + 1)) =~= listing_views(listing@.take(i as int)).push(
                (listing@[i as int].0@, grouping::views(listing@[i as int].1@)),
            ));
            assert forall|a: int, k: int|
                0 <= a < buttons.len() && 0 <= k < buttons@[a].1.len() implies is_button_for(
                    #[trigger] buttons@[a].1@[k],
                    selected@,
                    per_country@,
                    names@,
                ) by {
                if a < before.len() {
                    assert(buttons@[a] == before[a]);
                }
            }
        }
        i = i + 1;
    }
    assert(listing@.take(listing.len() as int) =~= listing@);
    buttons
}

/// The city browser, showing the cities of one country: its layout, the cities grouped by
/// country, the entries of the city search, the rows of the selected country's cities,
/// and the countries' buttons under their regions, the selected country's disabled.
pub struct BrowseCities {
    pub selected_country: String,
    pub layout: CityBrowserLayout,
    pub per_country: Vec<(String, Vec<CityName>)>,
    pub search_entries: Vec<(String, String)>,
    pub city_rows: Vec<CityRow>,
    pub regions: Vec<(&'static str, Vec<CountryButton>)>,
}

/// `b` is the city browser on the country `selected`, for the manifest's `cities` and
/// `maps` (each with whether it is installed), the readable country `names`, a window of
/// `window_width` whole pixels, and whether maps are only online.
pub open spec fn is_browser_of(
    b: BrowseCities,
    selected: Seq<char>,
    cities: Seq<CityName>,
    maps: Seq<(MapName, bool)>,
    names: Seq<(String, String)>,
    window_width: u64,
    online_only: bool,
) -> bool {
    &&& b.selected_country@ == selected
    &&& layout_for(b.layout, window_width)
    &&& grouping::is_grouping(country_pairs(cities), b.per_country@)
    &&& b.search_entries.len() == flatten_groups(b.per_country@).len()
    &&& forall|k: int|
        0 <= k < b.search_entries.len() ==> ((#[trigger] b.search_entries@[k]).0@, b.search_entries@[k].1@)
            == search_entry_of(names, flatten_groups(b.per_country@)[k])
    &&& b.city_rows.len() == cities.filter(in_country(selected)).len()
    &&& forall|k: int|
        0 <= k < b.city_rows.len() ==> is_row_of(
            #[trigger] b.city_rows@[k],
            cities.filter(in_country(selected))[k],
            maps,
            online_only,
        )
    &&& button_listing(b.regions@) == region_listing(group_keys(b.per_country@))
    &&& forall|i: int, j: int|
        0 <= i < b.regions.len() && 0 <= j < b.regions@[i].1.len() ==> is_button_for(
            #[trigger] b.regions@[i].1@[j],
            selected,
            b.per_country@,
            names,
        )
}

impl BrowseCities {
    /// The city browser on `selected_country` (see `is_browser_of`).
    pub fn new_state(
        selected_country: String,
        cities: Vec<CityName>,
        maps: &Vec<(MapName, bool)>,
        names: &Vec<(String, String)>,
        window_width: u64,
        online_only: bool,
    ) -> (b: Self)
        ensures
            is_browser_of(b, selected_country@, cities@, maps@, names@, window_width, online_only),
    {
        let ghost all = cities@;
        let layout = city_browser_layout(window_width);
        let city_rows = city_rows(&cities, selected_country.as_str(), maps, online_only);
        let per_country = cities_per_country_from_manifest(cities);
        let search_entries = search_entries(&per_country, names);
        let keys = group_key_list(&per_country);
        let listing = countries_by_region(&keys);
        let regions = country_buttons(&listing, selected_country.as_str(), &per_country, names);
        BrowseCities { selected_country, layout, per_country, search_entries, city_rows, regions }
    }

    /// Whether the button of `country` is disabled: it is when `country` is the selected
    /// one.
    pub fn country_button_disabled(&self, country: &str) -> (r: bool)
        ensures
            r == (country@ == self.selected_country@),
    {
        str_eq(country, self.selected_country.as_str())
    }

    /// What an event in the city browser leads to, and what becomes of the pending
    /// callback `on_load`: without one the browser closes; "close" closes it and keeps the
    /// callback; a country or a city, clicked or the first path that a finished search
    /// gives, hands the callback on; anything else keeps both.
    pub fn event<F>(on_load: &mut Option<F>, event: BrowseEvent) -> (t: BrowseTransition<F>)
        ensures
            match *old(on_load) {
                None => t is Pop && *final(on_load) == *old(on_load),
                Some(cb) => match event {
                    BrowseEvent::Clicked(x) => match browse_click_of(x@) {
                        BrowseClickView::Close => t is Pop && *final(on_load) == *old(on_load),
                        BrowseClickView::Country(c) => t matches BrowseTransition::BrowseCountry(d, g)
                            && d@ == c && g == cb && (*final(on_load)) is None,
                        BrowseClickView::City(p) => t matches BrowseTransition::ChooseCity(q, g) && q@
                            == p && g == cb && (*final(on_load)) is None,
                        BrowseClickView::Nothing => t is Keep && *final(on_load) == *old(on_load),
                    },
                    BrowseEvent::SearchDone(paths) => if paths.len() > 0 {
                        t matches BrowseTransition::ChooseCity(q, g) && q@ == paths@[0]@ && g == cb
                            && (*final(on_load)) is None
                    } else {
                        t is Keep && *final(on_load) == *old(on_load)
                    },
                    BrowseEvent::Nothing => t is Keep && *final(on_load) == *old(on_load),
                },
            },
    {
        if on_load.is_none() {
            return BrowseTransition::Pop;
        }
        match event {
            BrowseEvent::Clicked(x) => match browse_click(x.as_str()) {
                BrowseClick::Close => BrowseTransition::Pop,
                BrowseClick::Country(c) => {
                    let cb = on_load.take().unwrap();
                    BrowseTransition::BrowseCountry(c, cb)
                },
                BrowseClick::City(p) => {
                    let cb = on_load.take().unwrap();
                    BrowseTransition::ChooseCity(p, cb)
                },
                BrowseClick::Nothing => BrowseTransition::Keep,
            },
            BrowseEvent::SearchDone(paths) => {
                let mut paths = paths;
                if paths.len() > 0 {
                    let p = paths.remove(0);
                    let cb = on_load.take().unwrap();
                    BrowseTransition::ChooseCity(p, cb)
                } else {
                    BrowseTransition::Keep
                }
            },
            BrowseEvent::Nothing => BrowseTransition::Keep,
        }
    }
}

/// What happens in the city browser.
#[derive(Clone, Debug)]
pub enum BrowseEvent {
    /// The button of this name was clicked.
    Clicked(String),
    /// The city search finished with these paths.
    SearchDone(Vec<String>),
    /// Nothing.
    Nothing,
}

/// What an event in the city browser leads to; a callback in it is handed on.
pub enum BrowseTransition<F> {
    Keep,
    Pop,
    /// Browse the cities of this country.
    BrowseCountry(String, F),
    /// Choose the city at this path.
    ChooseCity(String, F),
}

/// What happens in the district picker.
#[derive(Clone, Debug)]
pub enum PickerEvent {
    /// The button of this name was clicked; the map whose path it is, if it is one.
    Clicked(String, Option<MapName>),
    /// This district was clicked on the city's drawing.
    District(MapName),
    /// Nothing.
    Nothing,
}

/// What an event in the district picker leads to; a callback in it is handed on.
pub enum PickerTransition<F> {
    Keep,
    Pop,
    /// Search all maps.
    SearchAllMaps(F),
    /// Import a new city.
    ImportNewCity(F),
    /// Open this page in the browser and stay.
    OpenBrowser(&'static str),
    /// Re-import the current map; the picker keeps the callback.
    ReimportThisCity,
    /// Choose this map.
    ChooseMap(MapName, F),
    /// Browse the cities of this country.
    BrowseCountry(String, F),
}

/// Whether the event is a click on "re-import this city".
pub open spec fn is_reimport_click(e: PickerEvent) -> bool {
    match e {
        PickerEvent::Clicked(x, _) => picker_click_of(x@) == PickerClick::ReimportThisCity,
        _ => false,
    }
}

/// The page that explains how to import a new city.
pub open spec fn import_instructions() -> Seq<char> {
    "https://a-b-street.github.io/docs/user/new_city.html"@
}

/// The district picker of one city: the city file it draws the districts from, the
/// heading of the list of districts, each map of the city with whether its button is
/// disabled, and the other places to go.
pub struct DistrictPicker {
    pub city_file: String,
    pub heading: String,
    pub districts: Vec<(MapName, bool)>,
    pub other_places: Vec<(String, usize)>,
}

/// Whether two maps are the same map.
fn same_map_exec(a: &MapName, b: &MapName) -> (r: bool)
    ensures
        r == crate::load::same_map(*a, *b),
{
    a.city.same_as(&b.city) && str_eq(a.map.as_str(), b.map.as_str())
}

impl CityPicker {
    /// The district picker of `city`, whose maps are `maps`, while `current` is shown:
    /// the city file "system/<country>/<city>/city.bin", the heading "More districts in"
    /// and the city's description, one button per map in order, disabled exactly for the
    /// current map, and the other places (see `other_places`).
    pub fn new_in_city(
        city: &CityName,
        maps: Vec<MapName>,
        current: &MapName,
        per_country: &Vec<(String, Vec<CityName>)>,
    ) -> (p: DistrictPicker)
        ensures
            p.city_file@ == city_file_of(*city),
            p.heading@ == "More districts in "@ + city_description(*city),
            p.districts.len() == maps.len(),
            forall|k: int|
                0 <= k < maps.len() ==> (#[trigger] p.districts@[k]).0 == maps@[k] && p.districts@[k].1
                    == crate::load::same_map(maps@[k], *current),
            p.other_places@.map_values(|q: (String, usize)| (q.0@, q.1 as nat)) == other_places_of(
                per_country@,
                *city,
            ),
    {
        let city_file = city.city_file();
        let described = city.describe();
        let heading = join2("More districts in ", described.as_str());
        let ghost given = maps@;
        let mut rest = maps;
        let mut districts: Vec<(MapName, bool)> = Vec::new();
        let n = rest.len();
        let mut i: usize = 0;
        assert(rest@ =~= given.skip(0));
        while i < n
            invariant
                n == given.len(),
                i <= n,
                rest@ == given.skip(i as int),
                districts.len() == i,
                forall|k: int|
                    0 <= k < i ==> (#[trigger] districts@[k]).0 == given[k] && districts@[k].1
                        == crate::load::same_map(given[k], *current),
            decreases n - i,
        {
            let m = rest.remove(0);
            assert(given.skip(i as int)[0] == m);
            assert(rest@ =~= given.skip(i + 1));
            let disabled = same_map_exec(&m, current);
            districts.push((m, disabled));
            i = i + 1;
        }
        let other_places = other_places(per_country, city);
        DistrictPicker { city_file, heading, districts, other_places }
    }

    /// What an event in the district picker leads to, and what becomes of the pending
    /// callback `on_load`: without one the picker closes; "close" closes it and keeps the
    /// callback; re-importing keeps it too, and so does importing a new city on the web,
    /// which opens the instructions; every other choice hands it on. Re-importing does not
    /// exist on the web.
    pub fn event<F>(on_load: &mut Option<F>, event: PickerEvent, on_web: bool) -> (t: PickerTransition<F>)
        requires
            !(on_web && (*old(on_load)) is Some && is_reimport_click(event)),
        ensures
            match *old(on_load) {
                None => t is Pop && *final(on_load) == *old(on_load),
                Some(cb) => match event {
                    PickerEvent::Clicked(x, parsed) => match picker_click_of(x@) {
                        PickerClick::Close => t is Pop && *final(on_load) == *old(on_load),
                        PickerClick::SearchAllMaps => t == PickerTransition::SearchAllMaps(cb)
                            && (*final(on_load)) is None,
                        PickerClick::ImportNewCity => if on_web {
                            t matches PickerTransition::OpenBrowser(u) && u@ == import_instructions()
                                && *final(on_load) == *old(on_load)
                        } else {
                            t == PickerTransition::ImportNewCity(cb) && (*final(on_load)) is None
                        },
                        PickerClick::ReimportThisCity => t is ReimportThisCity && *final(on_load)
                            == *old(on_load),
                        PickerClick::Other => match parsed {
                            Some(m) => t == PickerTransition::ChooseMap(m, cb) && (*final(on_load)) is None,
                            None => t matches PickerTransition::BrowseCountry(c, g) && c@ == x@ && g == cb
                                && (*final(on_load)) is None,
                        },
                    },
                    PickerEvent::District(m) => t == PickerTransition::ChooseMap(m, cb) && *final(on_load)
                        is None,
                    PickerEvent::Nothing => t is Keep && *final(on_load) == *old(on_load),
                },
            },
    {
        if on_load.is_none() {
            return PickerTransition::Pop;
        }
        match event {
            PickerEvent::Clicked(x, parsed) => match picker_click(x.as_str()) {
                PickerClick::Close => PickerTransition::Pop,
                PickerClick::SearchAllMaps => PickerTransition::SearchAllMaps(on_load.take().unwrap()),
                PickerClick::ImportNewCity => {
                    if on_web {
                        PickerTransition::OpenBrowser("https://a-b-street.github.io/docs/user/new_city.html")
                    } else {
                        PickerTransition::ImportNewCity(on_load.take().unwrap())
                    }
                },
                PickerClick::ReimportThisCity => PickerTransition::ReimportThisCity,
                PickerClick::Other => match parsed {
                    Some(m) => PickerTransition::ChooseMap(m, on_load.take().unwrap()),
                    None => PickerTransition::BrowseCountry(x, on_load.take().unwrap()),
                },
            },
            PickerEvent::District(m) => PickerTransition::ChooseMap(m, on_load.take().unwrap()),
            PickerEvent::Nothing => PickerTransition::Keep,
        }
    }
}

/// The list of the cities of one country.
pub struct CitiesInCountryPicker;

/// What an event in the list of a country's cities leads to; a callback in it is handed
/// on.
pub enum CountryTransition<F> {
    Keep,
    Pop,
    /// Go back to the city browser.
    BackToBrowser(F),
    /// Choose the city at this path.
    ChooseCity(String, F),
}

impl CitiesInCountryPicker {
    /// What a click (`Some` with the button's name) or its absence leads to, and what
    /// becomes of the pending callback `on_load`: without one the list closes; "close" goes
    /// back to the city browser and any other button chooses the city at its path, both
    /// handing the callback on.
    pub fn event<F>(on_load: &mut Option<F>, clicked: Option<String>) -> (t: CountryTransition<F>)
        ensures
            match *old(on_load) {
                None => t is Pop && *final(on_load) == *old(on_load),
                Some(cb) => match clicked {
                    Some(x) => if x@ == "close"@ {
                        t == CountryTransition::BackToBrowser(cb) && (*final(on_load)) is None
                    } else {
                        t matches CountryTransition::ChooseCity(p, g) && p@ == x@ && g == cb
                            && (*final(on_load)) is None
                    },
                    None => t is Keep && *final(on_load) == *old(on_load),
                },
            },
    {
        if on_load.is_none() {
            return CountryTransition::Pop;
        }
        match clicked {
            Some(x) => {
                if str_eq(x.as_str(), "close") {
                    CountryTransition::BackToBrowser(on_load.take().unwrap())
                } else {
                    CountryTransition::ChooseCity(x, on_load.take().unwrap())
                }
            },
            None => CountryTransition::Keep,
        }
    }
}

/// The search over all maps.
pub struct AllCityPicker;

/// What happens in the search over all maps.
#[derive(Clone, Debug)]
pub enum SearchEvent {
    /// The button of this name was clicked; the only button is "close".
    Clicked(String),
    /// The search finished with these map paths.
    SearchDone(Vec<String>),
    /// Nothing.
    Nothing,
}

/// What an event in the search over all maps leads to; a callback in it is handed on.
pub enum SearchTransition<F> {
    Keep,
    Pop,
    /// Choose the map at this path.
    ChooseMap(String, F),
}

/// The event is no click, or a click on "close".
pub open spec fn only_closes(e: SearchEvent) -> bool {
    match e {
        SearchEvent::Clicked(x) => x@ == "close"@,
        _ => true,
    }
}

impl AllCityPicker {
    /// The entries of the search over all maps: each map, in order, with its description
    /// (the map's path is its value).
    pub fn new_state(maps: &Vec<MapName>) -> (entries: Vec<String>)
        ensures
            entries.len() == maps.len(),
            forall|k: int| 0 <= k < maps.len() ==> (#[trigger] entries@[k])@ == map_description(maps@[k]),
    {
        let mut entries: Vec<String> = Vec::new();
        let mut i: usize = 0;
        while i < maps.len()
            invariant
                i <= maps.len(),
                entries.len() == i,
                forall|k: int| 0 <= k < i ==> (#[trigger] entries@[k])@ == map_description(maps@[k]),
            decreases maps.len() - i,
        {
            entries.push(maps[i].describe());
            i = i + 1;
        }
        entries
    }

    /// What an event in the search leads to, and what becomes of the pending callback
    /// `on_load`: without one the search closes; "close" closes it and keeps the callback;
    /// a finished search with paths chooses the first and hands the callback on. The search
    /// has no other button.
    pub fn event<F>(on_load: &mut Option<F>, event: SearchEvent) -> (t: SearchTransition<F>)
        requires
            (*old(on_load)) is Some ==> only_closes(event),
        ensures
            match *old(on_load) {
                None => t is Pop && *final(on_load) == *old(on_load),
                Some(cb) => match event {
                    SearchEvent::Clicked(_) => t is Pop && *final(on_load) == *old(on_load),
                    SearchEvent::SearchDone(paths) => if paths.len() > 0 {
                        t matches SearchTransition::ChooseMap(q, g) && q@ == paths@[0]@ && g == cb
                            && (*final(on_load)) is None
                    } else {
                        t is Keep && *final(on_load) == *old(on_load)
                    },
                    SearchEvent::Nothing => t is Keep && *final(on_load) == *old(on_load),
                },
            },
    {
        if on_load.is_none() {
            return SearchTransition::Pop;
        }
        match event {
            SearchEvent::Clicked(_) => SearchTransition::Pop,
            SearchEvent::SearchDone(paths) => {
                let mut paths = paths;
                if paths.len() > 0 {
                    let p = paths.remove(0);
                    SearchTransition::ChooseMap(p, on_load.take().unwrap())
                } else {
                    SearchTransition::Keep
                }
            },
            SearchEvent::Nothing => SearchTransition::Keep,
        }
    }
}

/// The order of cities: by country, then by name.
pub open spec fn city_lt(a: CityName, b: CityName) -> bool {
    text::seq_lt(a.country@, b.country@) || (a.country@ == b.country@ && text::seq_lt(
        a.city@,
        b.city@,
    ))
}

/// Whether a map belongs to the city `c`.
pub open spec fn in_city(c: CityName) -> spec_fn(MapName) -> bool {
    |m: MapName| same_city(m.city, c)
}

/// The maps of the city `c`, in their order.
pub open spec fn maps_of_city(maps: Seq<MapName>, c: CityName) -> Seq<MapName> {
    maps.filter(in_city(c))
}

/// Some group is the city `c`'s.
pub open spec fn has_city_group(groups: Seq<(CityName, Vec<MapName>)>, c: CityName) -> bool {
    exists|i: int| 0 <= i < groups.len() && same_city(#[trigger] groups[i].0, c)
}

/// `groups` holds, in city order, each city of `maps` once, with its maps in their order.
pub open spec fn is_city_grouping(maps: Seq<MapName>, groups: Seq<(CityName, Vec<MapName>)>) -> bool {
    &&& forall|i: int, j: int|
        0 <= i < j < groups.len() ==> city_lt(#[trigger] groups[i].0, #[trigger] groups[j].0)
    &&& forall|i: int|
        0 <= i < groups.len() ==> (#[trigger] groups[i]).1@ == maps_of_city(maps, groups[i].0)
            && groups[i].1.len() > 0
    &&& forall|j: int| 0 <= j < maps.len() ==> has_city_group(groups, (#[trigger] maps[j]).city)
}

proof fn lemma_city_lt_irreflexive(a: CityName)
    ensures
        !city_lt(a, a),
{
    grouping::lemma_lt_irreflexive(a.country@);
    grouping::lemma_lt_irreflexive(a.city@);
}

proof fn lemma_city_lt_total(a: CityName, b: CityName)
    ensures
        same_city(a, b) || city_lt(a, b) || city_lt(b, a),
{
    grouping::lemma_lt_total(a.country@, b.country@);
    grouping::lemma_lt_total(a.city@, b.city@);
}

proof fn lemma_city_lt_transitive(a: CityName, b: CityName, c: CityName)
    requires
        city_lt(a, b),
        city_lt(b, c),
    ensures
        city_lt(a, c),
{
    if text::seq_lt(a.country@, b.country@) && text::seq_lt(b.country@, c.country@) {
        grouping::lemma_lt_transitive(a.country@, b.country@, c.country@);
    }
    if a.country@ == b.country@ && b.country@ == c.country@ && text::seq_lt(a.city@, b.city@)
        && text::seq_lt(b.city@, c.city@) {
        grouping::lemma_lt_transitive(a.city@, b.city@, c.city@);
    }
}

proof fn lemma_maps_step(maps: Seq<MapName>, i: int, c: CityName)
    requires
        0 <= i < maps.len(),
    ensures
        maps_of_city(maps.take(i + 1), c) == if same_city(maps[i].city, c) {
            maps_of_city(maps.take(i), c).push(maps[i])
        } else {
            maps_of_city(maps.take(i), c)
        },
{
    reveal(Seq::filter);
    assert(maps.take(i + 1).drop_last() =~= maps.take(i));
}

proof fn lemma_maps_absent(maps: Seq<MapName>, c: CityName)
    requires
        forall|j: int| 0 <= j < maps.len() ==> !same_city((#[trigger] maps[j]).city, c),
    ensures
        maps_of_city(maps, c).len() == 0,
    decreases maps.len(),
{
    reveal(Seq::filter);
    if maps.len() > 0 {
        assert forall|j: int| 0 <= j < maps.len() - 1 implies !same_city(
            (#[trigger] maps.drop_last()[j]).city,
            c,
        ) by {
            assert(maps.drop_last()[j] == maps[j]);
        }
        lemma_maps_absent(maps.drop_last(), c);
        assert(maps.last() == maps[maps.len() - 1]);
    }
}

fn city_lt_exec(a: &CityName, b: &CityName) -> (r: bool)
    ensures
        r == city_lt(*a, *b),
{
    str_lt(a.country.as_str(), b.country.as_str()) || (str_eq(a.country.as_str(), b.country.as_str())
        && str_lt(a.city.as_str(), b.city.as_str()))
}

/// The maps grouped by city: cities in order of country, then name, each with its maps in
/// their given order.
pub fn maps_per_city(maps: Vec<MapName>) -> (per_city: Vec<(CityName, Vec<MapName>)>)
    ensures
        is_city_grouping(maps@, per_city@),
{
    let ghost orig = maps@;
    let mut rest = maps;
    let mut groups: Vec<(CityName, Vec<MapName>)> = Vec::new();
    let mut i: usize = 0;
    let n = rest.len();
    assert(orig.skip(0) =~= orig);
    while i < n
        invariant
            n == orig.len(),
            i <= n,
            rest@ == orig.skip(i as int),
            is_city_grouping(orig.take(i as int), groups@),
        decreases n - i,
    {
        let ghost old_groups = groups@;
        let ghost prefix = orig.take(i as int);
        let ghost next = orig.take(i + 1);
        let m = rest.remove(0);
        assert(orig.skip(i as int).drop_first() =~= orig.skip(i + 1));
        assert(orig[i as int] == m);
        assert forall|j: int| 0 <= j < i implies #[trigger] next[j] == prefix[j] by {}
        let mut p: usize = 0;
        while p < groups.len() && city_lt_exec(&groups[p].0, &m.city)
            invariant
                p <= groups.len(),
                groups@ == old_groups,
                forall|j: int| 0 <= j < p ==> city_lt(#[trigger] groups@[j].0, m.city),
            decreases groups.len() - p,
        {
            p = p + 1;
        }
        let ghost key = m.city;
        if p < groups.len() && groups[p].0.same_as(&m.city) {
            let mut entry = groups.remove(p);
            entry.1.push(m);
            groups.insert(p, entry);
            proof {
                assert forall|j: int| 0 <= j < groups.len() implies (#[trigger] groups@[j]).1@
                    == maps_of_city(next, groups@[j].0) && groups@[j].1.len() > 0 by {
                    lemma_maps_step(orig, i as int, groups@[j].0);
                    if j != p {
                        assert(groups@[j] == old_groups[j]);
                        lemma_city_lt_irreflexive(key);
                        if j < p {
                            assert(city_lt(old_groups[j].0, old_groups[p as int].0));
                        } else {
                            assert(city_lt(old_groups[p as int].0, old_groups[j].0));
                        }
                    }
                }
                assert forall|j: int| 0 <= j < next.len() implies has_city_group(
                    groups@,
                    (#[trigger] next[j]).city,
                ) by {
                    if j == i {
                        assert(same_city(groups@[p as int].0, next[j].city));
                    } else {
                        assert(next[j] == prefix[j]);
                        let g = choose|g: int|
                            0 <= g < old_groups.len() && same_city(#[trigger] old_groups[g].0, prefix[j].city);
                        assert(groups@[g].0 == old_groups[g].0);
                    }
                }
                assert forall|a: int, b: int| 0 <= a < b < groups.len() implies city_lt(
                    #[trigger] groups@[a].0,
                    #[trigger] groups@[b].0,
                ) by {
                    assert(groups@[a].0 == old_groups[a].0);
                    assert(groups@[b].0 == old_groups[b].0);
                }
                assert(is_city_grouping(next, groups@));
            }
        } else {
            let mut vals: Vec<MapName> = Vec::new();
            let c = m.city.copied();
            vals.push(m);
            groups.insert(p, (c, vals));
            proof {
                assert forall|j: int| 0 <= j < old_groups.len() implies !same_city(
                    #[trigger] old_groups[j].0,
                    key,
                ) by {
                    lemma_city_lt_irreflexive(key);
                    if j >= p {
                        lemma_city_lt_total(old_groups[p as int].0, key);
                        if j > p {
                            assert(city_lt(old_groups[p as int].0, old_groups[j].0));
                            lemma_city_lt_transitive(key, old_groups[p as int].0, old_groups[j].0);
                        }
                    }
                }
                assert forall|j: int| 0 <= j < prefix.len() implies !same_city(
                    (#[trigger] prefix[j]).city,
                    key,
                ) by {
                    let g = choose|g: int|
                        0 <= g < old_groups.len() && same_city(#[trigger] old_groups[g].0, prefix[j].city);
                }
                lemma_maps_absent(prefix, key);
                assert forall|j: int| 0 <= j < groups.len() implies (#[trigger] groups@[j]).1@
                    == maps_of_city(next, groups@[j].0) && groups@[j].1.len() > 0 by {
                    lemma_maps_step(orig, i as int, groups@[j].0);
                    if j < p {
                        assert(groups@[j] == old_groups[j]);
                    } else if j > p {
                        assert(groups@[j] == old_groups[j - 1]);
                    } else {
                        assert(groups@[j].1@ =~= Seq::<MapName>::empty().push(m));
                    }
                }
                assert forall|j: int| 0 <= j < next.len() implies has_city_group(
                    groups@,
                    (#[trigger] next[j]).city,
                ) by {
                    if j == i {
                        assert(same_city(groups@[p as int].0, next[j].city));
                    } else {
                        assert(next[j] == prefix[j]);
                        let g = choose|g: int|
                            0 <= g < old_groups.len() && same_city(#[trigger] old_groups[g].0, prefix[j].city);
                        if g < p {
                            assert(groups@[g].0 == old_groups[g].0);
                        } else {
                            assert(groups@[g + 1].0 == old_groups[g].0);
                        }
                    }
                }
                assert forall|a: int, b: int| 0 <= a < b < groups.len() implies city_lt(
                    #[trigger] groups@[a].0,
                    #[trigger] groups@[b].0,
                ) by {
                    if p < old_groups.len() {
                        lemma_city_lt_total(old_groups[p as int].0, key);
                    }
                    if b < p {
                    } else if a < p && b == p {
                    } else if a < p && b > p {
                        assert(groups@[b] == old_groups[b - 1]);
                    } else if a == p {
                        assert(groups@[b] == old_groups[b - 1]);
                        if b - 1 > p {
                            assert(city_lt(old_groups[p as int].0, old_groups[b - 1].0));
                            lemma_city_lt_transitive(key, old_groups[p as int].0, old_groups[b - 1].0);
                        }
                    } else {
                        assert(groups@[a] == old_groups[a - 1]);
                        assert(groups@[b] == old_groups[b - 1]);
                    }
                }
                assert(is_city_grouping(next, groups@));
            }
        }
        i = i + 1;
    }
    assert(orig.take(n as int) =~= orig);
    groups
}

/// Re-importing the current map: the command that imports it afresh from OpenStreetMap
/// (the command-line tool `cli_exe`, the boundary written to "boundary.json", and the new
/// map's name "updated_" followed by the current map's file name), and the map that the
/// import creates, in the "oneshot" city of the made-up country "zz".
pub fn reimport_city(cli_exe: &str, map_filename: &str) -> (r: (Vec<String>, MapName))
    ensures
        grouping::views(r.0@) == seq![
            cli_exe@,
            "one-step-import"@,
            "--geojson-path=boundary.json"@,
            "--map-name=updated_"@ + map_filename@,
        ],
        r.1.city.country@ == "zz"@,
        r.1.city.city@ == "oneshot"@,
        r.1.map@ == "updated_"@ + map_filename@,
{
    let name = join2("updated_", map_filename);
    let mut args: Vec<String> = Vec::new();
    args.push(owned(cli_exe));
    args.push(owned("one-step-import"));
    args.push(owned("--geojson-path=boundary.json"));
    args.push(join2("--map-name=", name.as_str()));
    proof {
        reveal_strlit("updated_");
        reveal_strlit("--map-name=");
        reveal_strlit("--map-name=updated_");
    }
    assert("--map-name="@ + ("updated_"@ + map_filename@) =~= "--map-name=updated_"@ + map_filename@);
    assert(grouping::views(args@) =~= seq![
        cli_exe@,
        "one-step-import"@,
        "--geojson-path=boundary.json"@,
        "--map-name=updated_"@ + map_filename@,
    ]);
    let m = MapName::new("zz", "oneshot", name.as_str());
    (args, m)
}

} // verus!
