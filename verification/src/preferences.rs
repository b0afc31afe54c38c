//! User preferences: the locale that selects the rendered phrases.

use vstd::prelude::*;

verus! {

/// The locales the engine can render text in.  Text-producing functions
/// dispatch on this value; today only one locale is populated.
#[derive(Clone, Copy, Debug, PartialEq, Eq, Structural)]
pub enum Language {
    Japanese,
}

impl Default for Language {
    fn default() -> (r: Self)
        ensures
            r == Language::Japanese,
    {
        Language::Japanese
    }
}

/// Settings that influence presentation, not game state.
#[derive(Clone, Copy, Debug, PartialEq, Eq, Structural)]
pub struct Preferences {
    pub language: Language,
}

impl Preferences {
    pub fn language(&self) -> (r: Language)
        ensures
            r == self.language,
    {
        self.language
    }
}

impl Default for Preferences {
    fn default() -> (r: Self)
        ensures
            r == (Preferences { language: Language::Japanese }),
    {
        Preferences { language: Language::Japanese }
    }
}

} // verus!
