use vstd::prelude::*;

verus! {

/// A language of the source text or of the translation.
#[derive(Debug, Clone, Copy, PartialEq, Eq, Structural)]
pub enum Language {
    Japanese,
    English,
    SimplifiedChinese,
    TraditionalChinese,
}

impl Language {
    /// The default language of the text on the pages.
    pub fn default_source() -> (l: Language)
        ensures
            l == Language::Japanese,
    {
        Language::Japanese
    }

    /// The default language of the translation.
    pub fn default_target() -> (l: Language)
        ensures
            l == Language::SimplifiedChinese,
    {
        Language::SimplifiedChinese
    }
}

/// The name a language is shown by.
pub open spec fn language_name(l: Language) -> Seq<char> {
    match l {
        Language::Japanese => "Japanese"@,
        Language::English => "English"@,
        Language::SimplifiedChinese => "SimplifiedChinese"@,
        Language::TraditionalChinese => "TraditionalChinese"@,
    }
}

impl Language {
    /// The name the language is shown by.
    pub fn display_name(&self) -> (r: &'static str)
        ensures
            r@ == language_name(*self),
    {
        match self {
            Language::Japanese => "Japanese",
            Language::English => "English",
            Language::SimplifiedChinese => "SimplifiedChinese",
            Language::TraditionalChinese => "TraditionalChinese",
        }
    }
}

} // verus!
