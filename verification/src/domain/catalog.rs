//! The Quran catalog — the 114 surahs and the available reciters.
//!
//! The catalog is plain data; parsing the embedded JSON asset happens at the
//! application edge, which hands the parsed lists to [`Catalog`].

use vstd::prelude::*;

use crate::text::str_eq;

verus! {

/// One surah's catalog metadata.
#[derive(Debug, PartialEq, Eq)]
pub struct Surah {
    pub number: u16,
    pub name_transliterated: String,
    pub name_arabic: String,
    pub ayah_count: u16,
    pub revelation_place: String,
}

impl Clone for Surah {
    fn clone(&self) -> (r: Self)
        ensures
            r == *self,
    {
        Surah {
            number: self.number,
            name_transliterated: self.name_transliterated.clone(),
            name_arabic: self.name_arabic.clone(),
            ayah_count: self.ayah_count,
            revelation_place: self.revelation_place.clone(),
        }
    }
}

/// One reciter and the path slugs used to locate their audio.
#[derive(Debug, PartialEq, Eq)]
pub struct Reciter {
    pub id: String,
    pub display_name: String,
    pub file_slug: String,
    pub per_ayah_directory_slug: String,
}

impl Clone for Reciter {
    fn clone(&self) -> (r: Self)
        ensures
            r == *self,
    {
        Reciter {
            id: self.id.clone(),
            display_name: self.display_name.clone(),
            file_slug: self.file_slug.clone(),
            per_ayah_directory_slug: self.per_ayah_directory_slug.clone(),
        }
    }
}

/// The loaded catalog.
#[derive(Debug)]
pub struct Catalog {
    pub surahs: Vec<Surah>,
    pub reciters: Vec<Reciter>,
}

/// `i` is the first position in `surahs` whose number is `number`.
pub open spec fn is_first_surah(surahs: Seq<Surah>, number: u16, i: int) -> bool {
    &&& 0 <= i < surahs.len()
    &&& surahs[i].number == number
    &&& forall|j: int| 0 <= j < i ==> surahs[j].number != number
}

/// `i` is the first position in `reciters` whose id is `id`.
pub open spec fn is_first_reciter(reciters: Seq<Reciter>, id: Seq<char>, i: int) -> bool {
    &&& 0 <= i < reciters.len()
    &&& reciters[i].id@ == id
    &&& forall|j: int| 0 <= j < i ==> reciters[j].id@ != id
}

/// At most one position is the first with a given number.
pub proof fn lemma_first_surah_unique(surahs: Seq<Surah>, number: u16, i: int, j: int)
    requires
        is_first_surah(surahs, number, i),
        is_first_surah(surahs, number, j),
    ensures
        i == j,
{
    if i < j {
        assert(surahs[i].number != number);
    } else if j < i {
        assert(surahs[j].number != number);
    }
}

/// The first catalog entry for surah `number`, if any.
pub open spec fn first_surah(surahs: Seq<Surah>, number: u16) -> Option<Surah> {
    if exists|i: int| is_first_surah(surahs, number, i) {
        Some(surahs[choose|i: int| is_first_surah(surahs, number, i)])
    } else {
        None
    }
}

/// The first catalog entry for surah `number` is the one at any first position.
pub proof fn lemma_first_surah_at(surahs: Seq<Surah>, number: u16, i: int)
    requires
        is_first_surah(surahs, number, i),
    ensures
        first_surah(surahs, number) == Some(surahs[i]),
{
    let c = choose|k: int| is_first_surah(surahs, number, k);
    lemma_first_surah_unique(surahs, number, i, c);
}

/// The first catalog entry with reciter id `id`, if any.
pub open spec fn first_reciter(reciters: Seq<Reciter>, id: Seq<char>) -> Option<Reciter> {
    if exists|i: int| is_first_reciter(reciters, id, i) {
        Some(reciters[choose|i: int| is_first_reciter(reciters, id, i)])
    } else {
        None
    }
}

/// The first catalog entry for reciter `id` is the one at any first position.
pub proof fn lemma_first_reciter_at(reciters: Seq<Reciter>, id: Seq<char>, i: int)
    requires
        is_first_reciter(reciters, id, i),
    ensures
        first_reciter(reciters, id) == Some(reciters[i]),
{
    let c = choose|k: int| is_first_reciter(reciters, id, k);
    if c < i {
        assert(reciters[c].id@ != id);
    } else if i < c {
        assert(reciters[i].id@ != id);
    }
}

/// The ayah count of surah `number`, or 1 when the catalog lacks it.
pub open spec fn ayah_count_of(surahs: Seq<Surah>, number: u16) -> int {
    if exists|i: int| is_first_surah(surahs, number, i) {
        surahs[choose|i: int| is_first_surah(surahs, number, i)].ayah_count as int
    } else {
        1
    }
}

impl Catalog {
    /// The ayah count of surah `number`, or 1 when the catalog lacks it.
    pub fn ayah_count(&self, number: u16) -> (r: u16)
        ensures
            r == ayah_count_of(self.surahs@, number),
    {
        match self.surah(number) {
            Some(s) => {
                proof {
                    let i = choose|i: int| is_first_surah(self.surahs@, number, i) && *s == self.surahs@[i];
                    let c = choose|i: int| is_first_surah(self.surahs@, number, i);
                    lemma_first_surah_unique(self.surahs@, number, i, c);
                }
                s.ayah_count
            },
            None => {
                proof {
                    if exists|i: int| is_first_surah(self.surahs@, number, i) {
                        let c = choose|i: int| is_first_surah(self.surahs@, number, i);
                        assert(self.surahs@[c].number == number);
                    }
                }
                1
            },
        }
    }

    /// Look up a surah by its 1-based number: the first catalog entry with
    /// that number.
    pub fn surah(&self, number: u16) -> (r: Option<&Surah>)
        ensures
            r is None <==> (forall|j: int| 0 <= j < self.surahs@.len() ==> self.surahs@[j].number != number),
            r matches Some(s) ==> exists|i: int| is_first_surah(self.surahs@, number, i) && *s == self.surahs@[i],
            r matches Some(s) ==> first_surah(self.surahs@, number) == Some(*s),
            r is None ==> first_surah(self.surahs@, number) is None,
    {
        let mut i: usize = 0;
        while i < self.surahs.len()
            invariant
                i <= self.surahs@.len(),
                forall|j: int| 0 <= j < i ==> self.surahs@[j].number != number,
            decreases self.surahs@.len() - i,
        {
            if self.surahs[i].number == number {
                assert(is_first_surah(self.surahs@, number, i as int));
                proof {
                    lemma_first_surah_at(self.surahs@, number, i as int);
                }
                return Some(&self.surahs[i]);
            }
            i += 1;
        }
        proof {
            if exists|k: int| is_first_surah(self.surahs@, number, k) {
                let c = choose|k: int| is_first_surah(self.surahs@, number, k);
                assert(self.surahs@[c].number == number);
            }
        }
        None
    }

    /// Look up a reciter by its stable `id`: the first catalog entry with that id.
    pub fn reciter(&self, id: &str) -> (r: Option<&Reciter>)
        ensures
            r is None <==> (forall|j: int| 0 <= j < self.reciters@.len() ==> self.reciters@[j].id@ != id@),
            r matches Some(x) ==> exists|i: int| is_first_reciter(self.reciters@, id@, i) && *x == self.reciters@[i],
            r matches Some(x) ==> first_reciter(self.reciters@, id@) == Some(*x),
            r is None ==> first_reciter(self.reciters@, id@) is None,
    {
        let mut i: usize = 0;
        while i < self.reciters.len()
            invariant
                i <= self.reciters@.len(),
                forall|j: int| 0 <= j < i ==> self.reciters@[j].id@ != id@,
            decreases self.reciters@.len() - i,
        {
            if str_eq(self.reciters[i].id.as_str(), id) {
                assert(is_first_reciter(self.reciters@, id@, i as int));
                proof {
                    lemma_first_reciter_at(self.reciters@, id@, i as int);
                }
                return Some(&self.reciters[i]);
            }
            i += 1;
        }
        proof {
            if exists|k: int| is_first_reciter(self.reciters@, id@, k) {
                let c = choose|k: int| is_first_reciter(self.reciters@, id@, k);
                assert(self.reciters@[c].id@ == id@);
            }
        }
        None
    }
}

} // verus!
