//! Loading a map: where it is read from, which extra font its country needs, and the steps
//! from the first read to the callback that follows it.
use vstd::prelude::*;
use crate::city_picker::{map_description, MapName};
use crate::grouping;
use crate::text;
use crate::text::{chars_eq_str, chars_of, join2, owned, replace_char_by_exec, str_eq};

verus! {

/// Where the maps of Sarawak are served from on the web.
pub const SARAWAK_PAGES_BASE: &'static str = "https://tyu1996.github.io/abstreet/sarawak-data-v1";

/// The path of a map's data below the data directory.
pub open spec fn map_data_path(country: Seq<char>, city: Seq<char>, map: Seq<char>) -> Seq<char> {
    "data/system/"@ + country + "/"@ + city + "/maps/"@ + map + ".bin"@
}

/// The web address of a map of Malaysia: its data path with each '/' written as "--",
/// compressed, below the Sarawak pages. Other countries' maps have none.
pub open spec fn remote_url(country: Seq<char>, city: Seq<char>, map: Seq<char>) -> Option<Seq<char>> {
    if country == "my"@ {
        Some(SARAWAK_PAGES_BASE@ + "/"@ + text::replace_char_by(map_data_path(country, city, map), '/', "--"@)
            + ".gz"@)
    } else {
        None
    }
}

/// The web address of the map `name`, when it is served from somewhere of its own.
pub fn remote_map_url(_version: &str, name: &MapName) -> (url: Option<String>)
    ensures
        match url {
            Some(u) => remote_url(name.city.country@, name.city.city@, name.map@) == Some(u@),
            None => remote_url(name.city.country@, name.city.city@, name.map@) is None,
        },
{
    if str_eq(name.city.country.as_str(), "my") {
        let mut path = join2("data/system/", name.city.country.as_str());
        path.append("/");
        path.append(name.city.city.as_str());
        path.append("/maps/");
        path.append(name.map.as_str());
        path.append(".bin");
        let flat = replace_char_by_exec(path.as_str(), '/', "--");
        let mut url = join2(SARAWAK_PAGES_BASE, "/");
        url.append(flat.as_str());
        url.append(".gz");
        Some(url)
    } else {
        None
    }
}

/// The extra font that the maps of a country need, if any.
pub open spec fn extra_font_of(country: Seq<char>) -> Option<Seq<char>> {
    if country == "hk"@ || country == "jp"@ || country == "tw"@ {
        Some("NotoSerifCJKtc-Regular.otf"@)
    } else if country == "il"@ {
        Some("NotoSansHebrew-Regular.ttf"@)
    } else if country == "ir"@ || country == "ly"@ {
        Some("NotoSansArabic-Regular.ttf"@)
    } else if country == "kr"@ {
        Some("NotoSansKR-Regular.ttf"@)
    } else {
        None
    }
}

/// Only the maps of Malaysia have an address of their own, below the Sarawak pages and
/// compressed; every map is read from its own path natively, and on the web from that path
/// too unless it has an address of its own.
pub proof fn lemma_only_malaysian_maps_are_served_apart(name: MapName, native_path: Seq<char>)
    ensures
        remote_url(name.city.country@, name.city.city@, name.map@) is Some <==> name.city.country@ == "my"@,
        remote_url(name.city.country@, name.city.city@, name.map@) matches Some(u) ==> text::has_prefix(
            u,
            "https://tyu1996.github.io/abstreet/sarawak-data-v1/"@,
        ) && u.len() >= 3 && u.subrange(u.len() - 3, u.len() as int) == ".gz"@,
        map_source(name, native_path, false) == native_path,
        name.city.country@ != "my"@ ==> map_source(name, native_path, true) == native_path,
{
    reveal_strlit("https://tyu1996.github.io/abstreet/sarawak-data-v1");
    reveal_strlit("https://tyu1996.github.io/abstreet/sarawak-data-v1/");
    reveal_strlit("/");
    reveal_strlit(".gz");
    if name.city.country@ == "my"@ {
        let u = remote_url(name.city.country@, name.city.city@, name.map@)->0;
        let flat = text::replace_char_by(
            map_data_path(name.city.country@, name.city.city@, name.map@),
            '/',
            "--"@,
        );
        assert(u == SARAWAK_PAGES_BASE@ + "/"@ + flat + ".gz"@);
        assert(u.subrange(0, 51) =~= "https://tyu1996.github.io/abstreet/sarawak-data-v1/"@);
        assert(u.subrange(u.len() - 3, u.len() as int) =~= ".gz"@);
    }
}

/// The extra font that each country needs: the CJK font for Hong Kong, Japan and Taiwan,
/// the Hebrew font for Israel, the Arabic font for Iran and Libya, the Korean font for
/// Korea, and none for every other country.
pub proof fn lemma_extra_fonts_by_country(c: Seq<char>)
    ensures
        extra_font_of(c) == Some("NotoSerifCJKtc-Regular.otf"@) <==> set!["hk"@, "jp"@, "tw"@].contains(c),
        extra_font_of(c) == Some("NotoSansHebrew-Regular.ttf"@) <==> c == "il"@,
        extra_font_of(c) == Some("NotoSansArabic-Regular.ttf"@) <==> set!["ir"@, "ly"@].contains(c),
        extra_font_of(c) == Some("NotoSansKR-Regular.ttf"@) <==> c == "kr"@,
        extra_font_of(c) is None <==> !set!["hk"@, "jp"@, "tw"@, "il"@, "ir"@, "ly"@, "kr"@].contains(c),
{
    reveal_strlit("hk");
    assert("hk"@.len() == 2 && "hk"@[0] == 'h' && "hk"@[1] == 'k');
    reveal_strlit("jp");
    assert("jp"@.len() == 2 && "jp"@[0] == 'j' && "jp"@[1] == 'p');
    reveal_strlit("tw");
    assert("tw"@.len() == 2 && "tw"@[0] == 't' && "tw"@[1] == 'w');
    reveal_strlit("il");
    assert("il"@.len() == 2 && "il"@[0] == 'i' && "il"@[1] == 'l');
    reveal_strlit("ir");
    assert("ir"@.len() == 2 && "ir"@[0] == 'i' && "ir"@[1] == 'r');
    reveal_strlit("ly");
    assert("ly"@.len() == 2 && "ly"@[0] == 'l' && "ly"@[1] == 'y');
    reveal_strlit("kr");
    assert("kr"@.len() == 2 && "kr"@[0] == 'k' && "kr"@[1] == 'r');
    reveal_strlit("NotoSerifCJKtc-Regular.otf");
    assert("NotoSerifCJKtc-Regular.otf"@.len() == 26 && "NotoSerifCJKtc-Regular.otf"@[5] == 'e' && "NotoSerifCJKtc-Regular.otf"@[8] == 'f');
    reveal_strlit("NotoSansHebrew-Regular.ttf");
    assert("NotoSansHebrew-Regular.ttf"@.len() == 26 && "NotoSansHebrew-Regular.ttf"@[5] == 'a' && "NotoSansHebrew-Regular.ttf"@[8] == 'H');
    reveal_strlit("NotoSansArabic-Regular.ttf");
    assert("NotoSansArabic-Regular.ttf"@.len() == 26 && "NotoSansArabic-Regular.ttf"@[5] == 'a' && "NotoSansArabic-Regular.ttf"@[8] == 'A');
    reveal_strlit("NotoSansKR-Regular.ttf");
    assert("NotoSansKR-Regular.ttf"@.len() == 22 && "NotoSansKR-Regular.ttf"@[5] == 'a' && "NotoSansKR-Regular.ttf"@[8] == 'K');
}

/// The extra font that the maps of `country` need before they can be shown, if any.
pub fn extra_font(country: &str) -> (font: Option<&'static str>)
    ensures
        match font {
            Some(f) => extra_font_of(country@) == Some(f@),
            None => extra_font_of(country@) is None,
        },
{
    let c = chars_of(country);
    if chars_eq_str(&c, "hk") || chars_eq_str(&c, "jp") || chars_eq_str(&c, "tw") {
        Some("NotoSerifCJKtc-Regular.otf")
    } else if chars_eq_str(&c, "il") {
        Some("NotoSansHebrew-Regular.ttf")
    } else if chars_eq_str(&c, "ir") || chars_eq_str(&c, "ly") {
        Some("NotoSansArabic-Regular.ttf")
    } else if chars_eq_str(&c, "kr") {
        Some("NotoSansKR-Regular.ttf")
    } else {
        None
    }
}

/// Loads maps by name.
pub struct MapLoader;

/// What loading a map starts with.
#[derive(Clone, Copy, Debug, PartialEq, Eq, Structural)]
pub enum LoadStart {
    /// The map is the current one: nothing to load.
    AlreadyLoaded,
    /// The map must be loaded.
    Reload,
}

/// Two maps are the same when city and map name agree.
pub open spec fn same_map(a: MapName, b: MapName) -> bool {
    a.city.country@ == b.city.country@ && a.city.city@ == b.city.city@ && a.map@ == b.map@
}

/// The next step of loading a map.
#[derive(Clone, Debug)]
pub enum ReloadStep {
    /// Load this font first, then try again.
    LoadFont(&'static str),
    /// Load the map from this path.
    LoadMap(String),
}

/// Where a map is read from: natively its own path; on the web its own address when it
/// has one, else its path.
pub open spec fn map_source(name: MapName, native_path: Seq<char>, on_web: bool) -> Seq<char> {
    if on_web {
        match remote_url(name.city.country@, name.city.city@, name.map@) {
            Some(u) => u,
            None => native_path,
        }
    } else {
        native_path
    }
}

/// Where the map `name` is read from (see `map_source`).
fn map_source_exec(name: &MapName, native_path: &str, on_web: bool) -> (p: String)
    ensures
        p@ == map_source(*name, native_path@, on_web),
{
    if on_web {
        match remote_map_url("", name) {
            Some(url) => url,
            None => owned(native_path),
        }
    } else {
        owned(native_path)
    }
}

impl MapLoader {
    /// Loading `name` even when it is the current map: first the extra font its country
    /// needs, unless it is among `loaded_fonts`; then the map, from `native_path` natively
    /// and from its own address on the web when it has one.
    pub fn force_reload(
        name: &MapName,
        native_path: &str,
        on_web: bool,
        loaded_fonts: &Vec<String>,
    ) -> (step: ReloadStep)
        ensures
            match extra_font_of(name.city.country@) {
                Some(f) if !loaded_fonts@.map_values(|l: String| l@).contains(f) => step matches ReloadStep::LoadFont(g)
                    && g@ == f,
                _ => step matches ReloadStep::LoadMap(p) && p@ == map_source(*name, native_path@, on_web),
            },
    {
        match extra_font(name.city.country.as_str()) {
            Some(font) => {
                let mut i: usize = 0;
                let mut loaded = false;
                let ghost lv = loaded_fonts@.map_values(|l: String| l@);
                while i < loaded_fonts.len()
                    invariant
                        i <= loaded_fonts.len(),
                        lv == loaded_fonts@.map_values(|l: String| l@),
                        loaded <==> exists|k: int| 0 <= k < i && #[trigger] lv[k] == font@,
                    decreases loaded_fonts.len() - i,
                {
                    if str_eq(loaded_fonts[i].as_str(), font) {
                        loaded = true;
                        assert(lv[i as int] == font@);
                    }
                    i = i + 1;
                }
                if !loaded {
                    return ReloadStep::LoadFont(font);
                }
            },
            None => {},
        }
        ReloadStep::LoadMap(map_source_exec(name, native_path, on_web))
    }

    /// Loading `name` while `current` is shown: nothing to do when they are the same map.
    pub fn new_state(current: &MapName, name: &MapName) -> (s: LoadStart)
        ensures
            s == if same_map(*current, *name) {
                LoadStart::AlreadyLoaded
            } else {
                LoadStart::Reload
            },
    {
        if current.city.same_as(&name.city) && str_eq(current.map.as_str(), name.map.as_str()) {
            LoadStart::AlreadyLoaded
        } else {
            LoadStart::Reload
        }
    }
}

/// Where a load stands, holding the callback `F` to run once the map is there.
pub enum LoadStage<F> {
    /// The extra font of this name is being read.
    ReadingFont(&'static str, F),
    /// The map is being read.
    ReadingMap(F),
    /// The load is over: the callback was handed out or dropped.
    Finished,
}

/// What the surroundings report back of a read that the load asked for.
#[derive(Debug)]
pub enum LoadEvent {
    /// The font file was read and the font installed (`Ok`), or reading it failed (`Err`
    /// with the error's text).
    FontRead(Result<(), String>),
    /// The map file was read and the map is ready to switch to (`Ok`), or reading it failed
    /// (`Err` with the error's text).
    MapRead(Result<(), String>),
}

/// What a load asks of its surroundings.
pub enum LoadAction<F> {
    /// Read the extra font of this name, install it, and report `FontRead`.
    ReadFont(&'static str),
    /// Read the map from this path and report `MapRead`.
    ReadMap(String),
    /// Switch to the map just read, then call the callback once and follow what it returns.
    SwitchMapThenCall(F),
    /// The map is already shown: call the callback once and follow what it returns.
    Call(F),
    /// Replace the load by a popup titled "Error" that shows these lines.
    ShowError(Vec<String>),
    /// Nothing to do.
    Wait,
}

/// A load of one map, from its first read to the callback that follows it.
pub struct MapLoad<F> {
    name: MapName,
    source: String,
    stage: LoadStage<F>,
}

/// What a load that starts reading `name` looks like: the extra font first when its
/// country needs one that is not among `loaded_fonts`, else the map from its source.
pub open spec fn is_reload_start<F>(
    load: MapLoad<F>,
    action: LoadAction<F>,
    name: MapName,
    native_path: Seq<char>,
    on_web: bool,
    loaded_fonts: Seq<String>,
    on_load: F,
) -> bool {
    &&& load.map_view() == name
    &&& load.source_view() == map_source(name, native_path, on_web)
    &&& match extra_font_of(name.city.country@) {
        Some(f) if !loaded_fonts.map_values(|l: String| l@).contains(f) => {
            &&& load.stage_view() matches LoadStage::ReadingFont(g, cb) && g@ == f && cb == on_load
            &&& action matches LoadAction::ReadFont(h) && h@ == f
        },
        _ => {
            &&& load.stage_view() == LoadStage::ReadingMap(on_load)
            &&& action matches LoadAction::ReadMap(p) && p@ == map_source(name, native_path, on_web)
        },
    }
}

/// One step of a load: `before` hears `event`, becomes `after` and asks for `action`. A
/// font that was read leads on to reading the map (a forced reload reads the map even
/// when it is the current one); a map that was read is switched to and the callback is
/// handed out; a failed read ends the load with an error popup, "Couldn't load" and what
/// was read, then the error, and drops the callback. A report that the load did not ask
/// for changes nothing. The map and its source never change.
pub open spec fn load_step<F>(before: MapLoad<F>, event: LoadEvent, after: MapLoad<F>, action: LoadAction<F>) -> bool {
    &&& after.map_view() == before.map_view()
    &&& after.source_view() == before.source_view()
    &&& match (before.stage_view(), event) {
        (LoadStage::ReadingFont(_f, cb), LoadEvent::FontRead(Ok(()))) => {
            &&& after.stage_view() == LoadStage::ReadingMap(cb)
            &&& action matches LoadAction::ReadMap(p) && p@ == before.source_view()
        },
        (LoadStage::ReadingFont(f, _cb), LoadEvent::FontRead(Err(e))) => {
            &&& after.stage_view() is Finished
            &&& action matches LoadAction::ShowError(lines) && grouping::views(lines@)
                == seq!["Couldn't load "@ + f@, e@]
        },
        (LoadStage::ReadingMap(cb), LoadEvent::MapRead(Ok(()))) => {
            &&& after.stage_view() is Finished
            &&& action == LoadAction::SwitchMapThenCall(cb)
        },
        (LoadStage::ReadingMap(_cb), LoadEvent::MapRead(Err(e))) => {
            &&& after.stage_view() is Finished
            &&& action matches LoadAction::ShowError(lines) && grouping::views(lines@)
                == seq!["Couldn't load "@ + map_description(before.map_view()), e@]
        },
        _ => {
            &&& after.stage_view() == before.stage_view()
            &&& action is Wait
        },
    }
}

/// The callback is handed out at most once: a load that is finished answers every report
/// with `Wait` and stays finished.
pub proof fn lemma_finished_load_stays_finished<F>(
    before: MapLoad<F>,
    event: LoadEvent,
    after: MapLoad<F>,
    action: LoadAction<F>,
)
    requires
        before.stage_view() is Finished,
        load_step(before, event, after, action),
    ensures
        after.stage_view() is Finished,
        action is Wait,
{
}

/// A step that hands the callback out, or shows an error, finishes the load; a step that
/// asks for nothing changes nothing.
pub proof fn lemma_handing_out_finishes_the_load<F>(
    before: MapLoad<F>,
    event: LoadEvent,
    after: MapLoad<F>,
    action: LoadAction<F>,
)
    requires
        load_step(before, event, after, action),
    ensures
        action is SwitchMapThenCall || action is ShowError ==> after.stage_view() is Finished,
        action is Wait ==> after.stage_view() == before.stage_view(),
        !(action is Call),
{
}

impl<F> MapLoad<F> {
    /// The map being loaded.
    pub closed spec fn map_view(self) -> MapName {
        self.name
    }

    /// Where the map is read from.
    pub closed spec fn source_view(self) -> Seq<char> {
        self.source@
    }

    /// Where the load stands.
    pub closed spec fn stage_view(self) -> LoadStage<F> {
        self.stage
    }

    /// Loads `name` even when it is the current map: the extra font its country needs
    /// first (unless it is among `loaded_fonts`), then the map from its source; `on_load`
    /// runs once the map is there.
    pub fn force_reload(
        name: MapName,
        native_path: &str,
        on_web: bool,
        loaded_fonts: &Vec<String>,
        on_load: F,
    ) -> (r: (Self, LoadAction<F>))
        ensures
            is_reload_start(r.0, r.1, name, native_path@, on_web, loaded_fonts@, on_load),
    {
        let step = MapLoader::force_reload(&name, native_path, on_web, loaded_fonts);
        let source = map_source_exec(&name, native_path, on_web);
        match step {
            ReloadStep::LoadFont(font) => (
                MapLoad { name, source, stage: LoadStage::ReadingFont(font, on_load) },
                LoadAction::ReadFont(font),
            ),
            ReloadStep::LoadMap(path) => (
                MapLoad { name, source, stage: LoadStage::ReadingMap(on_load) },
                LoadAction::ReadMap(path),
            ),
        }
    }

    /// Loads `name` while `current` is shown: when they are the same map, nothing is read
    /// and `on_load` is called at once; otherwise as `force_reload`.
    pub fn new_state(
        current: &MapName,
        name: MapName,
        native_path: &str,
        on_web: bool,
        loaded_fonts: &Vec<String>,
        on_load: F,
    ) -> (r: (Self, LoadAction<F>))
        ensures
            same_map(*current, name) ==> r.0.map_view() == name && r.0.stage_view() is Finished
                && r.1 == LoadAction::Call(on_load),
            !same_map(*current, name) ==> is_reload_start(
                r.0,
                r.1,
                name,
                native_path@,
                on_web,
                loaded_fonts@,
                on_load,
            ),
    {
        match MapLoader::new_state(current, &name) {
            LoadStart::AlreadyLoaded => {
                let source = map_source_exec(&name, native_path, on_web);
                (MapLoad { name, source, stage: LoadStage::Finished }, LoadAction::Call(on_load))
            },
            LoadStart::Reload => Self::force_reload(name, native_path, on_web, loaded_fonts, on_load),
        }
    }

    /// The next step of the load, given what a read gave (see `load_step`).
    pub fn event(&mut self, event: LoadEvent) -> (action: LoadAction<F>)
        ensures
            final(self).map_view() == old(self).map_view(),
            final(self).source_view() == old(self).source_view(),
            load_step(*old(self), event, *final(self), action),
    {
        let mut stage = LoadStage::Finished;
        std::mem::swap(&mut stage, &mut self.stage);
        match stage {
            LoadStage::ReadingFont(font, cb) => match event {
                LoadEvent::FontRead(Ok(())) => {
                    self.stage = LoadStage::ReadingMap(cb);
                    LoadAction::ReadMap(owned(self.source.as_str()))
                },
                LoadEvent::FontRead(Err(e)) => {
                    let mut lines: Vec<String> = Vec::new();
                    lines.push(join2("Couldn't load ", font));
                    lines.push(e);
                    assert(grouping::views(lines@) =~= seq!["Couldn't load "@ + font@, e@]);
                    LoadAction::ShowError(lines)
                },
                LoadEvent::MapRead(_) => {
                    self.stage = LoadStage::ReadingFont(font, cb);
                    LoadAction::Wait
                },
            },
            LoadStage::ReadingMap(cb) => match event {
                LoadEvent::MapRead(Ok(())) => LoadAction::SwitchMapThenCall(cb),
                LoadEvent::MapRead(Err(e)) => {
                    let mut lines: Vec<String> = Vec::new();
                    let described = self.name.describe();
                    lines.push(join2("Couldn't load ", described.as_str()));
                    lines.push(e);
                    assert(grouping::views(lines@) =~= seq![
                        "Couldn't load "@ + map_description(self.name),
                        e@,
                    ]);
                    LoadAction::ShowError(lines)
                },
                LoadEvent::FontRead(_) => {
                    self.stage = LoadStage::ReadingMap(cb);
                    LoadAction::Wait
                },
            },
            LoadStage::Finished => LoadAction::Wait,
        }
    }
}

} // verus!
