//! Verse text and translation, fetched on demand and cached per surah.
//! Pure data types — the fetch and cache I/O happen at the application edge.

use vstd::prelude::*;

verus! {

/// One ayah: Arabic text, Latin transliteration, and Indonesian translation.
#[derive(Debug, PartialEq, Eq)]
pub struct Verse {
    /// Arabic (Uthmani) text.
    pub ar: String,
    /// Latin transliteration.
    pub latin: String,
    /// Indonesian translation.
    pub id: String,
}

impl Clone for Verse {
    fn clone(&self) -> (r: Self)
        ensures
            r == *self,
    {
        Verse { ar: self.ar.clone(), latin: self.latin.clone(), id: self.id.clone() }
    }
}

/// Every ayah of one surah, in ayah order — `verses[0]` is ayah 1.
#[derive(Debug, PartialEq, Eq)]
pub struct SurahVerses {
    pub surah: u16,
    pub verses: Vec<Verse>,
}

impl SurahVerses {
    /// Look up a verse by its 1-based ayah number.
    pub fn ayah(&self, ayah: u16) -> (r: Option<&Verse>)
        ensures
            r is Some <==> 1 <= ayah <= self.verses@.len(),
            r matches Some(v) ==> *v == self.verses@[ayah - 1],
    {
        if ayah == 0 {
            return None;
        }
        let index = (ayah - 1) as usize;
        if index < self.verses.len() {
            Some(&self.verses[index])
        } else {
            None
        }
    }
}

} // verus!
