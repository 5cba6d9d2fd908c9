//! Handlers by job name.
use vstd::prelude::*;

use crate::error::DuplicateJobName;
use crate::ids::JobName;
use crate::tables;
use crate::tables::same_text;

verus! {

/// Handlers of type `H`, one for each registered name. The first handler of a name
/// stays.
#[derive(Debug)]
pub struct Registry<H> {
    handlers: Vec<(JobName, H)>,
}

impl<H> View for Registry<H> {
    type V = Map<Seq<char>, H>;

    closed spec fn view(&self) -> Map<Seq<char>, H> {
        Map::new(
            |name: Seq<char>| self.position(name) < self.handlers@.len(),
            |name: Seq<char>| self.handlers@[self.position(name)].1,
        )
    }
}

/// Whether `names` are exactly the names that `handlers` has, each once.
pub open spec fn lists_names<H>(names: Seq<String>, handlers: Map<Seq<char>, H>) -> bool {
    &&& forall|i: int, j: int|
        0 <= i < j < names.len() ==> (#[trigger] names[i])@ != (#[trigger] names[j])@
    &&& forall|i: int| 0 <= i < names.len() ==> handlers.dom().contains((#[trigger] names[i])@)
    &&& forall|name: Seq<char>| #[trigger]
        handlers.dom().contains(name) ==> exists|i: int|
            0 <= i < names.len() && (#[trigger] names[i])@ == name
}

/// Whether an entry is that of `name`.
spec fn entry_of<H>(name: Seq<char>) -> spec_fn((JobName, H)) -> bool {
    |entry: (JobName, H)| entry.0@ == name
}

/// Where the entry of a name is found once `entry` is added under a new name.
proof fn lemma_pushed<H>(before: Seq<(JobName, H)>, entry: (JobName, H), name: Seq<char>)
    requires
        tables::first_position(before, entry_of::<H>(entry.0@)) == before.len(),
    ensures
        tables::first_position(before.push(entry), entry_of::<H>(name)) == if name == entry.0@ {
            before.len() as int
        } else if tables::first_position(before, entry_of::<H>(name)) < before.len() {
            tables::first_position(before, entry_of::<H>(name))
        } else {
            before.len() as int + 1
        },
{
    let p = entry_of::<H>(name);
    let after = before.push(entry);
    tables::lemma_first_position(before, p);
    let at = tables::first_position(before, p);
    assert forall|j: int| 0 <= j < at implies !p(#[trigger] after[j]) by {
        assert(!p(before[j]));
    }
    if at < before.len() {
        tables::lemma_is_first_position(after, p, at);
    } else if name == entry.0@ {
        tables::lemma_is_first_position(after, p, before.len() as int);
    } else {
        assert forall|j: int| 0 <= j < after.len() implies !p(#[trigger] after[j]) by {
            if j < before.len() {
                assert(!p(before[j]));
            }
        }
        tables::lemma_is_first_position(after, p, after.len() as int);
    }
}

impl<H> Registry<H> {
    spec fn position(&self, name: Seq<char>) -> int {
        tables::first_position(self.handlers@, entry_of(name))
    }

    #[verifier::type_invariant]
    spec fn inv(self) -> bool {
        forall|i: int, j: int|
            0 <= i < j < self.handlers@.len() ==> (#[trigger] self.handlers@[i]).0@ != (
            #[trigger] self.handlers@[j]).0@
    }

    pub fn new() -> (res: Self)
        ensures
            res@ == Map::<Seq<char>, H>::empty(),
    {
        let res = Registry { handlers: Vec::new() };
        proof {
            assert forall|name: Seq<char>| !res@.dom().contains(name) by {
                tables::lemma_first_position(
                    res.handlers@,
                    entry_of::<H>(name),
                );
            }
            assert(res@ =~= Map::<Seq<char>, H>::empty());
        }
        res
    }

    pub fn is_empty(&self) -> (res: bool)
        ensures
            res == (self@ == Map::<Seq<char>, H>::empty()),
    {
        proof {
            if self.handlers@.len() > 0 {
                let name = self.handlers@[0].0@;
                let p = entry_of::<H>(name);
                assert(p(self.handlers@[0]));
                tables::lemma_is_first_position(self.handlers@, p, 0);
                assert(self@.dom().contains(name));
            } else {
                assert forall|name: Seq<char>| !self@.dom().contains(name) by {
                    tables::lemma_first_position(
                        self.handlers@,
                        entry_of::<H>(name),
                    );
                }
                assert(self@ =~= Map::<Seq<char>, H>::empty());
            }
        }
        self.handlers.len() == 0
    }

    /// The registered names, each once.
    pub fn names(&self) -> (res: Vec<String>)
        ensures
            lists_names(res@, self@),
    {
        proof {
            use_type_invariant(self);
        }
        let mut names: Vec<String> = Vec::new();
        let mut i: usize = 0;
        while i < self.handlers.len()
            invariant
                i <= self.handlers@.len(),
                names@.len() == i,
                forall|j: int|
                    0 <= j < i ==> (#[trigger] names@[j])@ == self.handlers@[j].0@,
            decreases self.handlers@.len() - i,
        {
            names.push(self.handlers[i].0.as_str().to_owned());
            i = i + 1;
        }
        proof {
            assert forall|a: int, b: int| 0 <= a < b < names@.len() implies (
            #[trigger] names@[a])@ != (#[trigger] names@[b])@ by {
                assert(self.handlers@[a].0@ != self.handlers@[b].0@);
            }
            assert forall|j: int| 0 <= j < names@.len() implies self@.dom().contains(
                (#[trigger] names@[j])@,
            ) by {
                let p = entry_of::<H>(names@[j]@);
                assert(p(self.handlers@[j]));
                tables::lemma_first_position(self.handlers@, p);
            }
            assert forall|name: Seq<char>| #[trigger]
                self@.dom().contains(name) implies exists|j: int|
                0 <= j < names@.len() && (#[trigger] names@[j])@ == name by {
                let p = entry_of::<H>(name);
                tables::lemma_first_position(self.handlers@, p);
                assert(names@[self.position(name)]@ == name);
            }
        }
        names
    }

    fn find(&self, name: &JobName) -> (res: usize)
        ensures
            res == self.position(name@),
            res <= self.handlers@.len(),
    {
        let ghost p = entry_of::<H>(name@);
        let mut i: usize = 0;
        while i < self.handlers.len()
            invariant
                i <= self.handlers@.len(),
                p == entry_of::<H>(name@),
                forall|j: int| 0 <= j < i ==> !p(#[trigger] self.handlers@[j]),
            decreases self.handlers@.len() - i,
        {
            if same_text(self.handlers[i].0.as_str(), name.as_str()) {
                proof {
                    tables::lemma_is_first_position(self.handlers@, p, i as int);
                }
                return i;
            }
            i = i + 1;
        }
        proof {
            tables::lemma_is_first_position(self.handlers@, p, i as int);
        }
        i
    }

    /// The handler of `name`, where there is one.
    pub fn get(&self, name: &JobName) -> (res: Option<&H>)
        ensures
            match res {
                Some(handler) => self@.dom().contains(name@) && *handler == self@[name@],
                None => !self@.dom().contains(name@),
            },
    {
        let at: usize = self.find(name);
        if at < self.handlers.len() {
            Some(&self.handlers[at].1)
        } else {
            None
        }
    }

    /// Registers `handler` for `name`. A name that has a handler keeps it.
    pub fn register(&mut self, name: JobName, handler: H) -> (res: Result<(), DuplicateJobName>)
        ensures
            old(self)@.dom().contains(name@) ==> final(self)@ == old(self)@ && res == Err::<
                (),
                DuplicateJobName,
            >(DuplicateJobName(name)),
            !old(self)@.dom().contains(name@) ==> final(self)@ == old(self)@.insert(
                name@,
                handler,
            ) && res is Ok,
    {
        proof {
            use_type_invariant(&*self);
        }
        let at: usize = self.find(&name);
        if at < self.handlers.len() {
            return Err(DuplicateJobName(name));
        }
        let ghost before = self.handlers@;
        let ghost key = name@;
        let mut handlers: Vec<(JobName, H)> = Vec::new();
        std::mem::swap(&mut handlers, &mut self.handlers);
        handlers.push((name, handler));
        proof {
            tables::lemma_first_position(before, entry_of::<H>(key));
            assert forall|i: int, j: int| 0 <= i < j < handlers@.len() implies (
            #[trigger] handlers@[i]).0@ != (#[trigger] handlers@[j]).0@ by {
                if j == before.len() {
                    let p = entry_of::<H>(key);
                    assert(!p(before[i]));
                } else {
                    assert(before[i].0@ != before[j].0@);
                }
            }
        }
        self.handlers = handlers;
        proof {
            let expected = old(self)@.insert(key, handler);
            assert(self.handlers@ =~= before.push(self.handlers@.last()));
            assert forall|other: Seq<char>| #[trigger]
                self@.dom().contains(other) == expected.dom().contains(other) by {
                lemma_pushed(before, self.handlers@.last(), other);
            }
            assert forall|other: Seq<char>| #[trigger]
                expected.dom().contains(other) implies self@[other] == expected[other] by {
                lemma_pushed(before, self.handlers@.last(), other);
                tables::lemma_first_position(before, entry_of::<H>(other));
                assert(self@.dom().contains(other));
                if other != key {
                    assert(old(self)@.dom().contains(other));
                    assert(self.handlers@[old(self).position(other)] == before[old(
                        self,
                    ).position(other)]);
                }
            }
            assert(self@ =~= expected);
        }
        Ok(())
    }
}

} // verus!
