//! Plain data carried between the location and scripture providers and the
//! user interface.

use vstd::prelude::*;

verus! {

/// Where the user is, as an IP lookup reports it.
#[derive(Clone, Debug, PartialEq, Eq)]
pub struct Location {
    pub ip: String,
    pub latitude: String,
    pub longitude: String,
    pub city: String,
    pub region: String,
    pub country: String,
    pub timezone: String,
    pub location: String,
}

/// A verse picked for the day.
#[derive(Clone, Debug, PartialEq, Eq)]
pub struct TodayVerse {
    pub surah_name: String,
    pub surah_name_translation: String,
    pub surah_number: String,
    pub verse_number: String,
    pub verse_text: String,
}

/// One verse with a link to its recitation.
#[derive(Clone, Debug, PartialEq, Eq)]
pub struct Ayah {
    pub text: String,
    pub audio: String,
}

/// One verse in translation.
#[derive(Clone, Debug, PartialEq, Eq)]
pub struct AyahTranslation {
    pub text: String,
}

/// A chapter with its verses.
#[derive(Clone, Debug, PartialEq, Eq)]
pub struct Surah {
    pub name: String,
    pub english_name: String,
    pub english_name_translation: String,
    pub ayahs: Vec<Ayah>,
}

/// The whole text, chapter by chapter.
#[derive(Clone, Debug, PartialEq, Eq)]
pub struct QuranData {
    pub surahs: Vec<Surah>,
}

} // verus!
