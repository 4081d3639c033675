//! Translations: the texts of one language, each under its key.

use vstd::prelude::*;

verus! {

pub struct I18n {
    dict: Vec<(String, String)>,
}

/// The text under `key`: that of the last entry with this key.
pub open spec fn translation_of(entries: Seq<(String, String)>, key: Seq<char>) -> Option<String>
    decreases entries.len(),
{
    if entries.len() == 0 {
        None
    } else if entries.last().0@ == key {
        Some(entries.last().1)
    } else {
        translation_of(entries.drop_last(), key)
    }
}

impl I18n {
    /// The entries, in the order in which they were given.
    pub closed spec fn entries(&self) -> Seq<(String, String)> {
        self.dict@
    }

    /// The translations of a language from its entries of key and text. Of two
    /// entries with one key the later one counts.
    pub fn from(entries: Vec<(String, String)>) -> (r: I18n)
        ensures
            r.entries() == entries@,
    {
        I18n { dict: entries }
    }

    /// Whether there is a text under `key`.
    pub fn has_translation(&self, key: &str) -> (r: bool)
        ensures
            r == translation_of(self.entries(), key@).is_some(),
    {
        self.find(key).is_some()
    }

    /// The text under `key`.
    pub fn get_translation(&self, key: &str) -> (r: &String)
        requires
            translation_of(self.entries(), key@).is_some(),
        ensures
            translation_of(self.entries(), key@) == Some(*r),
    {
        let i = self.find(key);
        &self.dict[i.unwrap()].1
    }

    /// Index of the last entry with this key.
    fn find(&self, key: &str) -> (r: Option<usize>)
        ensures
            match r {
                Some(i) => i < self.dict@.len() && translation_of(self.dict@, key@) == Some(
                    self.dict@[i as int].1,
                ),
                None => translation_of(self.dict@, key@).is_none(),
            },
    {
        let wanted: String = key.to_owned();
        let mut i: usize = self.dict.len();
        proof {
            assert(self.dict@.take(i as int) =~= self.dict@);
        }
        while i > 0
            invariant
                i <= self.dict@.len(),
                wanted@ == key@,
                translation_of(self.dict@, key@) == translation_of(self.dict@.take(i as int), key@),
            decreases i,
        {
            i = i - 1;
            proof {
                assert(self.dict@.take(i + 1).drop_last() =~= self.dict@.take(i as int));
                assert(self.dict@.take(i + 1).last() == self.dict@[i as int]);
            }
            if self.dict[i].0 == wanted {
                return Some(i);
            }
        }
        None
    }
}

} // verus!
