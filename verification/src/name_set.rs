//! A set of names, kept as a list in which no name occurs twice.

use vstd::prelude::*;
use vstd::string::StringExecFns;

verus! {

/// Whether a list of names holds the given name.
pub open spec fn holds_name(names: Seq<String>, name: Seq<char>) -> bool {
    exists|i: int| 0 <= i < names.len() && (#[trigger] names[i])@ == name
}

/// Whether no name occurs twice in a list.
pub open spec fn distinct_names(names: Seq<String>) -> bool {
    forall|i: int, j: int|
        0 <= i < j < names.len() ==> (#[trigger] names[i])@ != (#[trigger] names[j])@
}

/// Where a list of names holds the given name, if it does.
pub fn position_of(names: &Vec<String>, name: &String) -> (at: Option<usize>)
    ensures
        match at {
            Some(at) => at < names.len() && names@[at as int]@ == name@ && forall|j: int|
                0 <= j < at ==> (#[trigger] names@[j])@ != name@,
            None => !holds_name(names@, name@),
        },
{
    let mut i: usize = 0;
    while i < names.len()
        invariant
            i <= names.len(),
            forall|j: int| 0 <= j < i ==> (#[trigger] names@[j])@ != name@,
        decreases names.len() - i,
    {
        if names[i] == *name {
            return Some(i);
        }
        i += 1;
    }
    None
}

/// A set of names.
#[derive(Debug)]
pub struct NameSet {
    names: Vec<String>,
}

impl View for NameSet {
    type V = Set<Seq<char>>;

    closed spec fn view(&self) -> Set<Seq<char>> {
        Set::new(|name: Seq<char>| holds_name(self.names@, name))
    }
}

impl NameSet {
    /// No name is held twice.
    pub closed spec fn wf(&self) -> bool {
        distinct_names(self.names@)
    }

    /// The set without names.
    pub fn new() -> (set: NameSet)
        ensures
            set.wf(),
            set@ == Set::<Seq<char>>::empty(),
    {
        let set = NameSet { names: Vec::new() };
        assert(set@ =~= Set::<Seq<char>>::empty());
        set
    }

    /// The set of the names in a list.
    pub fn from_names(names: &Vec<String>) -> (set: NameSet)
        ensures
            set.wf(),
            forall|name: Seq<char>| set@.contains(name) <==> holds_name(names@, name),
    {
        let mut set = NameSet::new();
        let mut i: usize = 0;
        while i < names.len()
            invariant
                i <= names.len(),
                set.wf(),
                forall|name: Seq<char>|
                    set@.contains(name) <==> holds_name(names@.take(i as int), name),
            decreases names.len() - i,
        {
            let ghost before = set@;
            set.insert(names[i].clone());
            proof {
                let taken = names@.take(i as int);
                let upto = names@.take(i + 1);
                assert forall|name: Seq<char>| set@.contains(name) <==> holds_name(
                    upto,
                    name,
                ) by {
                    if holds_name(upto, name) {
                        let k = choose|k: int| 0 <= k < upto.len() && (#[trigger] upto[k])@ == name;
                        if k < i {
                            assert(taken[k]@ == name);
                        }
                    }
                    if holds_name(taken, name) {
                        let k = choose|k: int|
                            0 <= k < taken.len() && (#[trigger] taken[k])@ == name;
                        assert(upto[k]@ == name);
                    }
                    assert(upto[i as int]@ == names@[i as int]@);
                }
            }
            i += 1;
        }
        assert(names@.take(i as int) =~= names@);
        set
    }

    /// Whether the set holds the name.
    pub fn contains(&self, name: &String) -> (found: bool)
        ensures
            found == self@.contains(name@),
    {
        position_of(&self.names, name).is_some()
    }

    /// Whether the set holds the name.
    pub fn contains_str(&self, name: &str) -> (found: bool)
        ensures
            found == self@.contains(name@),
    {
        let name = String::from_str(name);
        self.contains(&name)
    }

    /// Whether the set holds no name.
    pub fn is_empty(&self) -> (empty: bool)
        ensures
            empty == (self@ == Set::<Seq<char>>::empty()),
    {
        proof {
            if self.names@.len() > 0 {
                assert(holds_name(self.names@, self.names@[0]@));
                assert(self@.contains(self.names@[0]@));
            } else {
                assert(self@ =~= Set::<Seq<char>>::empty());
            }
        }
        self.names.len() == 0
    }

    /// Adds a name; tells whether it was new.
    pub fn insert(&mut self, name: String) -> (inserted: bool)
        requires
            old(self).wf(),
        ensures
            final(self).wf(),
            final(self)@ == old(self)@.insert(name@),
            inserted == !old(self)@.contains(name@),
    {
        let ghost before = self.names@;
        if position_of(&self.names, &name).is_some() {
            assert(self@ =~= self@.insert(name@));
            false
        } else {
            self.names.push(name);
            proof {
                assert forall|x: Seq<char>| #[trigger]
                    self@.contains(x) <==> old(self)@.insert(name@).contains(x) by {
                    if holds_name(self.names@, x) {
                        let k = choose|k: int|
                            0 <= k < self.names@.len() && (#[trigger] self.names@[k])@ == x;
                        if k < before.len() {
                            assert(before[k]@ == x);
                        }
                    }
                    if holds_name(before, x) {
                        let k = choose|k: int| 0 <= k < before.len() && (#[trigger] before[k])@ == x;
                        assert(self.names@[k]@ == x);
                    }
                    assert(self.names@[before.len() as int]@ == name@);
                }
                assert(self@ =~= old(self)@.insert(name@));
            }
            true
        }
    }

    /// Takes a name out; tells whether it was there.
    pub fn remove(&mut self, name: &String) -> (removed: bool)
        requires
            old(self).wf(),
        ensures
            final(self).wf(),
            final(self)@ == old(self)@.remove(name@),
            removed == old(self)@.contains(name@),
    {
        let ghost before = self.names@;
        match position_of(&self.names, name) {
            Some(at) => {
                self.names.remove(at);
                proof {
                    let after = self.names@;
                    assert(after == before.remove(at as int));
                    assert forall|i: int, j: int| 0 <= i < j < after.len() implies (
                    #[trigger] after[i])@ != (#[trigger] after[j])@ by {
                        let from_i = if i < at {
                            i
                        } else {
                            i + 1
                        };
                        let from_j = if j < at {
                            j
                        } else {
                            j + 1
                        };
                        assert(after[i] == before[from_i]);
                        assert(after[j] == before[from_j]);
                    }
                    assert forall|x: Seq<char>| #[trigger]
                        self@.contains(x) <==> old(self)@.remove(name@).contains(x) by {
                        if holds_name(after, x) {
                            let k = choose|k: int|
                                0 <= k < after.len() && (#[trigger] after[k])@ == x;
                            let from = if k < at {
                                k
                            } else {
                                k + 1
                            };
                            assert(after[k] == before[from]);
                            assert(before[from]@ == x);
                            assert(before[at as int]@ == name@);
                        }
                        if holds_name(before, x) && x != name@ {
                            let k = choose|k: int|
                                0 <= k < before.len() && (#[trigger] before[k])@ == x;
                            let to = if k < at {
                                k
                            } else {
                                k - 1
                            };
                            assert(after[to] == before[k]);
                        }
                    }
                    assert(self@ =~= old(self)@.remove(name@));
                }
                true
            },
            None => {
                assert(self@ =~= old(self)@.remove(name@));
                false
            },
        }
    }

    /// The names of the set, each once.
    pub fn into_vec(self) -> (names: Vec<String>)
        requires
            self.wf(),
        ensures
            distinct_names(names@),
            forall|name: Seq<char>| self@.contains(name) <==> holds_name(names@, name),
    {
        self.names
    }
}

impl Clone for NameSet {
    fn clone(&self) -> (copy: NameSet)
        ensures
            copy@ == self@,
            self.wf() ==> copy.wf(),
    {
        let names = self.names.clone();
        proof {
            assert(names@.len() == self.names@.len());
            assert forall|i: int| 0 <= i < names@.len() implies #[trigger] names@[i]
                == self.names@[i] by {
                assert(cloned::<String>(self.names@[i], names@[i]));
            }
            assert(names@ =~= self.names@);
        }
        NameSet { names }
    }
}

} // verus!
