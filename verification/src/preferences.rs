//! The preferences of the grammar checkers, cached by language.
use hashbrown::HashMap;
use vstd::prelude::*;

verus! {

/// The preferences that a grammar checker offers: pairs of an identifier
/// and the label shown for it, in the order in which the checker lists them.
#[derive(Clone, Debug)]
pub struct Preferences {
    pub entries: Vec<(String, String)>,
}

impl View for Preferences {
    type V = Seq<(Seq<char>, Seq<char>)>;

    open spec fn view(&self) -> Seq<(Seq<char>, Seq<char>)> {
        self.entries@.map_values(|entry: (String, String)| (entry.0@, entry.1@))
    }
}

impl Preferences {
    /// No preferences at all: what a request finds for a language whose
    /// preferences are not cached.
    pub fn empty() -> (none: Preferences)
        ensures
            none@ == Seq::<(Seq<char>, Seq<char>)>::empty(),
    {
        Preferences { entries: Vec::new() }
    }
}

/// A copy of the preferences, entry by entry.
pub fn copy_of(preferences: &Preferences) -> (copy: Preferences)
    ensures
        copy@ == preferences@,
{
    let mut entries: Vec<(String, String)> = Vec::new();
    let mut i: usize = 0;
    while i < preferences.entries.len()
        invariant
            0 <= i <= preferences.entries.len(),
            entries@.len() == i,
            forall|k: int|
                0 <= k < i ==> (#[trigger] entries@[k]).0@ == preferences.entries@[k].0@
                    && entries@[k].1@ == preferences.entries@[k].1@,
        decreases preferences.entries.len() - i,
    {
        let id = preferences.entries[i].0.clone();
        let label = preferences.entries[i].1.clone();
        entries.push((id, label));
        i = i + 1;
    }
    let copy = Preferences { entries };
    assert(copy@ =~= preferences@);
    copy
}

/// What a map of preferences holds: for each language in it, the
/// preferences filed under that language.
pub uninterp spec fn preference_entries(map: HashMap<String, Preferences>) -> Map<
    Seq<char>,
    Seq<(Seq<char>, Seq<char>)>,
>;

/// `HashMap::new` of hashbrown: the map it makes holds no entry.
#[verifier::external_body]
fn preferences_new() -> (map: HashMap<String, Preferences>)
    ensures
        (preference_entries(map) == Map::<Seq<char>, Seq<(Seq<char>, Seq<char>)>>::empty()),
{
    HashMap::new()
}

/// `HashMap::insert` of hashbrown: the value is filed under the key, in
/// place of the one that was there. No other entry changes. (Like every
/// allocation, the call ends the process where memory runs out.)
#[verifier::external_body]
fn preferences_insert(
    map: &mut HashMap<String, Preferences>,
    language: String,
    preferences: Preferences,
)
    ensures
        preference_entries(*final(map)) == preference_entries(*old(map)).insert(
            language@,
            preferences@,
        ),
{
    map.insert(language, preferences);
}

/// `HashMap::remove` of hashbrown: the key leaves the map. No other entry
/// changes.
#[verifier::external_body]
fn preferences_remove(map: &mut HashMap<String, Preferences>, language: &str)
    ensures
        preference_entries(*final(map)) == preference_entries(*old(map)).remove(language@),
{
    map.remove(language);
}

/// `HashMap::get` of hashbrown: a reference to the value filed under the
/// key, if any.
#[verifier::external_body]
fn preferences_get<'a>(map: &'a HashMap<String, Preferences>, language: &str) -> (found: Option<
    &'a Preferences,
>)
    ensures
        match found {
            Some(preferences) => preference_entries(*map).contains_key(language@)
                && preferences@ == preference_entries(*map)[language@],
            None => !preference_entries(*map).contains_key(language@),
        },
{
    map.get(language)
}

/// The preferences of each grammar language, as listed when its checker
/// was opened.
pub struct PreferencesCache {
    entries: HashMap<String, Preferences>,
}

impl View for PreferencesCache {
    type V = Map<Seq<char>, Seq<(Seq<char>, Seq<char>)>>;

    closed spec fn view(&self) -> Map<Seq<char>, Seq<(Seq<char>, Seq<char>)>> {
        preference_entries(self.entries)
    }
}

impl PreferencesCache {
    /// A cache that holds nothing yet.
    pub fn new() -> (cache: PreferencesCache)
        ensures
            cache@ == Map::<Seq<char>, Seq<(Seq<char>, Seq<char>)>>::empty(),
    {
        PreferencesCache { entries: preferences_new() }
    }

    /// Caches the preferences of a language, in place of those cached before.
    pub fn insert(&mut self, language: &str, preferences: Preferences)
        ensures
            final(self)@ == old(self)@.insert(language@, preferences@),
    {
        preferences_insert(&mut self.entries, language.to_owned(), preferences)
    }

    /// Forgets the preferences of a language.
    pub fn remove(&mut self, language: &str)
        ensures
            final(self)@ == old(self)@.remove(language@),
    {
        preferences_remove(&mut self.entries, language)
    }

    /// The cached preferences of a language, if there are any.
    pub fn get(&self, language: &str) -> (found: Option<&Preferences>)
        ensures
            match found {
                Some(preferences) => self@.contains_key(language@) && preferences@
                    == self@[language@],
                None => !self@.contains_key(language@),
            },
    {
        preferences_get(&self.entries, language)
    }
}

} // verus!
