//! Interface strings in two languages.
//!
//! There are exactly two languages, and both are known when the program is
//! compiled. A string is therefore a pair: if it exists at all, both of its
//! versions exist, and no lookup can go wrong while the program runs.
//!
//! Names of game fields stay as they are in either language.
use vstd::prelude::*;

pub mod s;

use crate::text::s::Pair;

verus! {

/// A language of the interface.
#[derive(Clone, Copy, Debug, PartialEq, Eq, Structural)]
pub enum Lang {
    Ru,
    En,
}

/// The code of a language.
pub open spec fn code_of(lang: Lang) -> u8 {
    match lang {
        Lang::Ru => 0,
        Lang::En => 1,
    }
}

/// The language with a code. Every code but that of English stands for Russian.
pub open spec fn lang_of(code: u8) -> Lang {
    if code == 1 {
        Lang::En
    } else {
        Lang::Ru
    }
}

impl Lang {
    /// The language with a code.
    pub fn from_code(code: u8) -> (lang: Lang)
        ensures
            lang == lang_of(code),
    {
        match code {
            1 => Lang::En,
            _ => Lang::Ru,
        }
    }

    /// The code of the language.
    pub fn code(self) -> (code: u8)
        ensures
            code == code_of(self),
    {
        match self {
            Lang::Ru => 0,
            Lang::En => 1,
        }
    }
}

/// The language that was chosen, kept as its code.
#[derive(Clone, Copy, Debug, PartialEq, Eq, Structural)]
pub struct Choice {
    pub code: u8,
}

impl Choice {
    /// Russian, until something else is chosen.
    pub fn new() -> (choice: Choice)
        ensures
            lang_of(choice.code) == Lang::Ru,
    {
        Choice { code: 0 }
    }
}

/// The language that was chosen.
pub fn current(choice: &Choice) -> (lang: Lang)
    ensures
        lang == lang_of(choice.code),
{
    Lang::from_code(choice.code)
}

/// Chooses a language.
pub fn set(choice: &mut Choice, lang: Lang)
    ensures
        final(choice).code == code_of(lang),
{
    choice.code = lang.code();
}

/// A string in two languages.
#[derive(Clone, Copy)]
pub struct Text {
    ru: &'static str,
    en: &'static str,
}

impl Text {
    /// The version in a language.
    pub closed spec fn version(self, lang: Lang) -> Seq<char> {
        match lang {
            Lang::Ru => self.ru@,
            Lang::En => self.en@,
        }
    }

    /// The string with the two versions of a pair.
    pub fn new(pair: Pair) -> (text: Text)
        ensures
            text.version(Lang::Ru) == pair.0@,
            text.version(Lang::En) == pair.1@,
    {
        Text { ru: pair.0, en: pair.1 }
    }

    /// The version in the language that was chosen.
    pub fn get(self, choice: &Choice) -> (version: &'static str)
        ensures
            version@ == self.version(lang_of(choice.code)),
    {
        match current(choice) {
            Lang::Ru => self.ru,
            Lang::En => self.en,
        }
    }
}

/// A language survives being turned into its code, so what was chosen is what is
/// current.
pub proof fn law_choice_round_trip(lang: Lang)
    ensures
        lang_of(code_of(lang)) == lang,
{
}

/// Only the code 1 stands for English; all others stand for Russian.
pub proof fn law_codes(code: u8)
    ensures
        lang_of(code) == Lang::En <==> code == 1,
        lang_of(code) == Lang::Ru <==> code != 1,
        code_of(Lang::Ru) == 0,
        code_of(Lang::En) == 1,
{
}

} // verus!
