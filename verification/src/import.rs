//! The name under which a one-step import stores its map.
use vstd::prelude::*;
use crate::city_picker::{city_path, CityName, MapName};
use crate::text::{chars_of, join2, owned};

verus! {

/// A name that can stand in a file name: not empty, and without spaces or slashes.
pub open spec fn filename_safe(s: Seq<char>) -> bool {
    s.len() > 0 && !s.contains(' ') && !s.contains('/') && !s.contains('\\')
}

/// A name can stand in a file name exactly when it is not empty and none of its
/// characters is a space, a slash or a backslash.
pub proof fn lemma_filename_safe_characters(s: Seq<char>)
    ensures
        filename_safe(s) <==> s.len() > 0 && forall|i: int|
            0 <= i < s.len() ==> #[trigger] s[i] != ' ' && s[i] != '/' && s[i] != '\\',
{
}

/// Why an import target cannot be used.
#[derive(Clone, Debug)]
pub enum TargetNameError {
    /// A part of the name is empty or not filename-safe: `label` says which ("city" or
    /// "map"), `component` is what was given for it.
    Unsafe { label: &'static str, component: String },
    /// The country and the city, joined as "country/city", do not split on '/' into exactly
    /// a country and a city; the joined path is given.
    BadCityName(String),
}

impl TargetNameError {
    /// The message that explains the error.
    pub fn message(&self) -> (m: String)
        ensures
            m@ == match self {
                TargetNameError::Unsafe { label, component } => label@
                    + " must be a non-empty, filename-safe name: "@ + component@,
                TargetNameError::BadCityName(path) => "Bad CityName "@ + path@,
            },
    {
        match self {
            TargetNameError::Unsafe { label, component } => {
                let mut m = join2(label, " must be a non-empty, filename-safe name: ");
                m.append(component.as_str());
                m
            },
            TargetNameError::BadCityName(path) => join2("Bad CityName ", path.as_str()),
        }
    }
}

fn is_filename_safe(s: &str) -> (r: bool)
    ensures
        r == filename_safe(s@),
{
    let cs = chars_of(s);
    if cs.len() == 0 {
        return false;
    }
    let mut i: usize = 0;
    while i < cs.len()
        invariant
            i <= cs.len(),
            cs@ == s@,
            forall|j: int| 0 <= j < i ==> cs@[j] != ' ' && cs@[j] != '/' && cs@[j] != '\\',
        decreases cs.len() - i,
    {
        let c = cs[i];
        if c == ' ' || c == '/' || c == '\\' {
            assert(cs@[i as int] == c);
            return false;
        }
        i = i + 1;
    }
    true
}

fn has_slash(s: &str) -> (r: bool)
    ensures
        r == s@.contains('/'),
{
    let cs = chars_of(s);
    let mut i: usize = 0;
    while i < cs.len()
        invariant
            i <= cs.len(),
            cs@ == s@,
            forall|j: int| 0 <= j < i ==> cs@[j] != '/',
        decreases cs.len() - i,
    {
        if cs[i] == '/' {
            assert(cs@[i as int] == '/');
            return true;
        }
        i = i + 1;
    }
    false
}

/// The map that a one-step import of `map` in `city` of `country` creates. The city and
/// the map name must be filename-safe (the first that is not is reported); then
/// "country/city" must parse as a city, which fails when the country holds a '/'.
pub fn target_map_name(country: &str, city: &str, map: &str) -> (r: Result<MapName, TargetNameError>)
    ensures
        filename_safe(city@) && filename_safe(map@) && !country@.contains('/') <==> r is Ok,
        r matches Ok(m) ==> m.city.country@ == country@ && m.city.city@ == city@ && m.map@ == map@,
        r matches Err(e) ==> if !filename_safe(city@) {
            e matches TargetNameError::Unsafe { label, component } && label@ == "city"@ && component@
                == city@
        } else if !filename_safe(map@) {
            e matches TargetNameError::Unsafe { label, component } && label@ == "map"@ && component@
                == map@
        } else {
            e matches TargetNameError::BadCityName(p) && p@ == city_path(country@, city@)
        },
{
    if !is_filename_safe(city) {
        return Err(TargetNameError::Unsafe { label: "city", component: owned(city) });
    }
    if !is_filename_safe(map) {
        return Err(TargetNameError::Unsafe { label: "map", component: owned(map) });
    }
    if has_slash(country) {
        let mut path = join2(country, "/");
        path.append(city);
        return Err(TargetNameError::BadCityName(path));
    }
    let c = CityName::new(country, city);
    Ok(MapName::from_city(&c, map))
}

} // verus!
