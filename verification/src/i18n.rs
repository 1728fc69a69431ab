//! Light internationalisation (ES / EN).
//!
//! Each text is chosen where it is shown: every call of [`tr`] carries both
//! literal variants and the active language picks one. The active language is
//! held by a [`LangSetting`] that the interface owns and passes along.

use vstd::prelude::*;

verus! {

/// Interface language.
#[derive(Debug, Clone, Copy, PartialEq, Eq, Structural, Default)]
pub enum Lang {
    /// Spanish (default).
    #[default]
    Es,
    /// English.
    En,
}

/// The byte that stores a language.
pub open spec fn lang_byte(l: Lang) -> u8 {
    match l {
        Lang::Es => 0,
        Lang::En => 1,
    }
}

/// The language a stored byte stands for: 1 is English, anything else Spanish.
pub open spec fn lang_of_byte(v: u8) -> Lang {
    if v == 1 {
        Lang::En
    } else {
        Lang::Es
    }
}

impl Lang {
    /// Short ISO code (`"es"` / `"en"`).
    pub fn code(self) -> (r: &'static str)
        ensures
            r@ == match self {
                Lang::Es => "es"@,
                Lang::En => "en"@,
            },
    {
        match self {
            Lang::Es => "es",
            Lang::En => "en",
        }
    }

    /// Native name of the language, for the selector.
    pub fn native_name(self) -> (r: &'static str)
        ensures
            r@ == match self {
                Lang::Es => "Español"@,
                Lang::En => "English"@,
            },
    {
        match self {
            Lang::Es => "Español",
            Lang::En => "English",
        }
    }

    /// The byte that stores this language.
    pub fn as_u8(self) -> (r: u8)
        ensures
            r == lang_byte(self),
    {
        match self {
            Lang::Es => 0,
            Lang::En => 1,
        }
    }

    /// The language stored in a byte; unknown bytes fall back to Spanish.
    pub fn from_u8(v: u8) -> (r: Self)
        ensures
            r == lang_of_byte(v),
    {
        match v {
            1 => Lang::En,
            _ => Lang::Es,
        }
    }
}

/// Storing a language and reading it back gives the same language.
pub proof fn lemma_lang_byte_roundtrip(l: Lang)
    ensures
        lang_of_byte(lang_byte(l)) == l,
{
}

/// The active interface language (starts in Spanish).
#[derive(Debug, Clone, Copy, PartialEq, Eq, Structural, Default)]
pub struct LangSetting {
    current: u8,
}

impl LangSetting {
    /// The language this setting holds.
    pub closed spec fn lang(self) -> Lang {
        lang_of_byte(self.current)
    }

    /// A setting in Spanish, the default language.
    pub fn new() -> (r: Self)
        ensures
            r.lang() == Lang::Es,
    {
        LangSetting { current: 0 }
    }
}

/// Sets the active language.
pub fn set_lang(setting: &mut LangSetting, lang: Lang)
    ensures
        final(setting).lang() == lang,
{
    setting.current = lang.as_u8();
}

/// Returns the active language.
pub fn current_lang(setting: &LangSetting) -> (r: Lang)
    ensures
        r == setting.lang(),
{
    Lang::from_u8(setting.current)
}

/// Picks the Spanish or the English variant according to the active language.
///
/// Example: `tr(&setting, "Resumen", "Overview")`.
pub fn tr(setting: &LangSetting, es: &'static str, en: &'static str) -> (r: &'static str)
    ensures
        r == (match setting.lang() {
            Lang::Es => es,
            Lang::En => en,
        }),
{
    match current_lang(setting) {
        Lang::Es => es,
        Lang::En => en,
    }
}

} // verus!
