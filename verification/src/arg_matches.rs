use vstd::prelude::*;
use vstd::string::*;

verus! {

/// What the command line parser found: how often each flag was given, the
/// value of each valued argument that was given, and whether any argument was
/// given explicitly at all.
///
/// Each list is looked up by argument name; where a name is listed twice, its
/// first entry counts. A flag that is not listed counts as given zero times.
pub struct ArgumentMatches {
    pub counts: Vec<(String, u8)>,
    pub values: Vec<(String, String)>,
    pub explicit: bool,
}

/// How often the flag named `id` was given, by the first entry under that name.
pub open spec fn count_in(entries: Seq<(String, u8)>, id: Seq<char>) -> u8
    decreases entries.len(),
{
    if entries.len() == 0 {
        0
    } else if entries[0].0@ == id {
        entries[0].1
    } else {
        count_in(entries.drop_first(), id)
    }
}

/// The value given to the argument named `id`, by the first entry under that name.
pub open spec fn value_in(entries: Seq<(String, String)>, id: Seq<char>) -> Option<String>
    decreases entries.len(),
{
    if entries.len() == 0 {
        None
    } else if entries[0].0@ == id {
        Some(entries[0].1)
    } else {
        value_in(entries.drop_first(), id)
    }
}

impl ArgumentMatches {
    pub open spec fn count_of(&self, id: Seq<char>) -> u8 {
        count_in(self.counts@, id)
    }

    pub open spec fn value_of(&self, id: Seq<char>) -> Option<String> {
        value_in(self.values@, id)
    }

    /// How often the flag named `id` was given.
    pub fn get_count(&self, id: &str) -> (count: u8)
        ensures
            count == self.count_of(id@),
    {
        let key = String::from_str(id);
        let mut i: usize = 0;
        assert(self.counts@.skip(0) =~= self.counts@);
        while i < self.counts.len()
            invariant
                0 <= i <= self.counts.len(),
                key@ == id@,
                count_in(self.counts@, id@) == count_in(self.counts@.skip(i as int), id@),
            decreases self.counts.len() - i,
        {
            if self.counts[i].0 == key {
                return self.counts[i].1;
            }
            assert(self.counts@.skip(i as int).drop_first() =~= self.counts@.skip(i + 1));
            i += 1;
        }
        assert(self.counts@.skip(i as int).len() == 0);
        0
    }

    /// The value given to the argument named `id`, if it was given.
    pub fn get_one(&self, id: &str) -> (value: Option<&String>)
        ensures
            value is Some == self.value_of(id@) is Some,
            value is Some ==> *value.unwrap() == self.value_of(id@).unwrap(),
    {
        let key = String::from_str(id);
        let mut i: usize = 0;
        assert(self.values@.skip(0) =~= self.values@);
        while i < self.values.len()
            invariant
                0 <= i <= self.values.len(),
                key@ == id@,
                value_in(self.values@, id@) == value_in(self.values@.skip(i as int), id@),
            decreases self.values.len() - i,
        {
            if self.values[i].0 == key {
                return Some(&self.values[i].1);
            }
            assert(self.values@.skip(i as int).drop_first() =~= self.values@.skip(i + 1));
            i += 1;
        }
        assert(self.values@.skip(i as int).len() == 0);
        None
    }

    /// Whether any argument was given explicitly on the command line.
    pub fn args_present(&self) -> (present: bool)
        ensures
            present == self.explicit,
    {
        self.explicit
    }
}

} // verus!
