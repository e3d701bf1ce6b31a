use vstd::prelude::*;

verus! {

/// One command's invocation count.
pub struct CounterEntry {
    pub name: String,
    pub count: u64,
}

/// Invocation counts by fully-qualified command name, each name once.
pub struct InvocationCounter {
    pub entries: Vec<CounterEntry>,
}

/// The index of the first entry, from `j` on, for `name`.
pub open spec fn entry_index(entries: Seq<CounterEntry>, name: Seq<char>, j: int) -> Option<int>
    decreases entries.len() - j,
{
    if j < 0 || j >= entries.len() {
        None
    } else if entries[j].name@ == name {
        Some(j)
    } else {
        entry_index(entries, name, j + 1)
    }
}

pub open spec fn count_in(entries: Seq<CounterEntry>, name: Seq<char>) -> nat {
    match entry_index(entries, name, 0) {
        Some(i) => entries[i].count as nat,
        None => 0,
    }
}

/// The count after one more invocation: one more, held at the largest `u64`.
pub open spec fn bumped(n: nat) -> nat {
    if n < u64::MAX {
        n + 1
    } else {
        n
    }
}

proof fn lemma_entry_index_update(
    entries: Seq<CounterEntry>,
    i: int,
    e: CounterEntry,
    name: Seq<char>,
    j: int,
)
    requires
        0 <= i < entries.len(),
        e.name@ == entries[i].name@,
        0 <= j,
    ensures
        entry_index(entries.update(i, e), name, j) == entry_index(entries, name, j),
    decreases entries.len() - j,
{
    if j < entries.len() && entries.update(i, e)[j].name@ != name {
        lemma_entry_index_update(entries, i, e, name, j + 1);
    }
}

proof fn lemma_entry_index_push(entries: Seq<CounterEntry>, e: CounterEntry, name: Seq<char>, j: int)
    requires
        0 <= j <= entries.len(),
    ensures
        entry_index(entries.push(e), name, j) == (match entry_index(entries, name, j) {
            Some(i) => Some(i),
            None => if e.name@ == name {
                Some(entries.len() as int)
            } else {
                None
            },
        }),
    decreases entries.len() - j,
{
    let all = entries.push(e);
    if j < entries.len() {
        assert(all[j] == entries[j]);
        if entries[j].name@ != name {
            lemma_entry_index_push(entries, e, name, j + 1);
        }
    } else {
        assert(all[j] == e);
        assert(entry_index(all, name, j + 1) == None::<int>);
    }
}

proof fn lemma_entry_index_names(entries: Seq<CounterEntry>, name: Seq<char>, j: int, i: int)
    requires
        entry_index(entries, name, j) == Some(i),
    ensures
        0 <= i < entries.len(),
        entries[i].name@ == name,
    decreases entries.len() - j,
{
    if 0 <= j < entries.len() && entries[j].name@ != name {
        lemma_entry_index_names(entries, name, j + 1, i);
    }
}

impl InvocationCounter {
    pub open spec fn count_of(&self, name: Seq<char>) -> nat {
        count_in(self.entries@, name)
    }

    /// A counter with every count at zero.
    pub fn new() -> (r: Self)
        ensures
            forall|n: Seq<char>| r.count_of(n) == 0,
    {
        InvocationCounter { entries: Vec::new() }
    }

    /// The count of `name`.
    pub fn get(&self, name: &str) -> (r: u64)
        ensures
            r == self.count_of(name@),
    {
        let key = name.to_owned();
        match self.find(&key) {
            Some(i) => self.entries[i].count,
            None => 0,
        }
    }

    fn find(&self, name: &String) -> (r: Option<usize>)
        ensures
            match r {
                Some(i) => entry_index(self.entries@, name@, 0) == Some(i as int) && i < self.entries@.len(),
                None => entry_index(self.entries@, name@, 0) == None::<int>,
            },
    {
        let mut j: usize = 0;
        while j < self.entries.len()
            invariant
                j <= self.entries@.len(),
                entry_index(self.entries@, name@, 0) == entry_index(self.entries@, name@, j as int),
            decreases self.entries@.len() - j,
        {
            if self.entries[j].name == *name {
                return Some(j);
            }
            j = j + 1;
        }
        None
    }

    /// Counts one more invocation of `name`.
    pub fn increment(&mut self, name: &str)
        ensures
            final(self).count_of(name@) == bumped(old(self).count_of(name@)),
            forall|n: Seq<char>| n != name@ ==> #[trigger] final(self).count_of(n) == old(self).count_of(n),
    {
        let key = name.to_owned();
        match self.find(&key) {
            Some(i) => {
                let c = self.entries[i].count;
                let next = if c < u64::MAX {
                    c + 1
                } else {
                    c
                };
                let ghost before = self.entries@;
                proof {
                    lemma_entry_index_names(before, key@, 0, i as int);
                }
                let e = CounterEntry { name: key, count: next };
                self.entries.set(i, e);
                proof {
                    assert forall|n: Seq<char>| true implies entry_index(self.entries@, n, 0) == entry_index(
                        before,
                        n,
                        0,
                    ) by {
                        lemma_entry_index_update(before, i as int, self.entries@[i as int], n, 0);
                        assert(self.entries@ == before.update(i as int, self.entries@[i as int]));
                    }
                    assert forall|n: Seq<char>| n != name@ implies #[trigger] count_in(self.entries@, n)
                        == count_in(before, n) by {
                        match entry_index(before, n, 0) {
                            Some(j) => lemma_entry_index_names(before, n, 0, j),
                            None => {},
                        }
                    }
                }
            },
            None => {
                let ghost before = self.entries@;
                self.entries.push(CounterEntry { name: key, count: 1 });
                proof {
                    assert forall|n: Seq<char>| true implies entry_index(self.entries@, n, 0) == (match entry_index(
                        before,
                        n,
                        0,
                    ) {
                        Some(i) => Some(i),
                        None => if name@ == n {
                            Some(before.len() as int)
                        } else {
                            None
                        },
                    }) by {
                        lemma_entry_index_push(before, self.entries@.last(), n, 0);
                        assert(self.entries@ == before.push(self.entries@.last()));
                    }
                    assert forall|n: Seq<char>| n != name@ implies #[trigger] count_in(self.entries@, n)
                        == count_in(before, n) by {
                        match entry_index(before, n, 0) {
                            Some(j) => lemma_entry_index_names(before, n, 0, j),
                            None => {},
                        }
                    }
                }
            },
        }
    }
}

} // verus!
