use vstd::prelude::*;

verus! {

/// How many times `name` has been counted in `counts`: a name never seen counts zero.
pub open spec fn count_of(counts: Map<Seq<char>, nat>, name: Seq<char>) -> nat {
    if counts.contains_key(name) {
        counts[name]
    } else {
        0
    }
}

/// The counts after one more invocation of `name`: its entry is created at zero if
/// absent, then raised by one; every other entry stays as it was.
pub open spec fn bump(counts: Map<Seq<char>, nat>, name: Seq<char>) -> Map<Seq<char>, nat> {
    counts.insert(name, count_of(counts, name) + 1)
}

/// Where `key` stands in `names`, if it is there.
fn position_in(names: &Vec<String>, key: &String) -> (r: Option<usize>)
    ensures
        match r {
            Some(i) => i < names@.len() && names@[i as int]@ == key@,
            None => forall|j: int| 0 <= j < names@.len() ==> names@[j]@ != key@,
        },
{
    let mut i: usize = 0;
    while i < names.len()
        invariant
            i <= names@.len(),
            forall|j: int| 0 <= j < i ==> names@[j]@ != key@,
        decreases names@.len() - i,
    {
        if names[i] == *key {
            return Some(i);
        }
        i = i + 1;
    }
    None
}

/// Invocation counts per command name.
///
/// The names are held in `names`, each once, and the count of `names[i]` in
/// `counts[i]`; `model` is the map from name to count that they stand for.
pub struct CommandCounter {
    names: Vec<String>,
    counts: Vec<u64>,
    model: Ghost<Map<Seq<char>, nat>>,
}

impl View for CommandCounter {
    type V = Map<Seq<char>, nat>;

    closed spec fn view(&self) -> Map<Seq<char>, nat> {
        self.model@
    }
}

impl CommandCounter {
    #[verifier::type_invariant]
    closed spec fn inv(self) -> bool {
        &&& self.names@.len() == self.counts@.len()
        &&& self.model@.dom().finite()
        &&& self.model@.len() == self.names@.len()
        &&& forall|i: int|
            0 <= i < self.names@.len() ==> {
                &&& #[trigger] self.model@.contains_key(self.names@[i]@)
                &&& self.model@[self.names@[i]@] == self.counts@[i] as nat
            }
        &&& forall|i: int, j: int|
            0 <= i < j < self.names@.len() ==> #[trigger] self.names@[i]@
                != #[trigger] self.names@[j]@
        &&& forall|k: Seq<char>|
            #[trigger] self.model@.contains_key(k) ==> exists|i: int|
                0 <= i < self.names@.len() && #[trigger] self.names@[i]@ == k
    }

    /// A counter in which no command has been counted.
    pub fn new() -> (r: Self)
        ensures
            r@ == Map::<Seq<char>, nat>::empty(),
    {
        CommandCounter { names: Vec::new(), counts: Vec::new(), model: Ghost(Map::empty()) }
    }

    /// The count of `name`, or `None` where it has never been counted.
    pub fn get(&self, name: &str) -> (r: Option<u64>)
        ensures
            match r {
                Some(c) => self@.contains_key(name@) && self@[name@] == c as nat,
                None => !self@.contains_key(name@),
            },
    {
        proof {
            use_type_invariant(self);
        }
        let key = name.to_owned();
        match position_in(&self.names, &key) {
            Some(i) => {
                assert(self.model@.contains_key(self.names@[i as int]@));
                Some(self.counts[i])
            },
            None => {
                assert(!self@.contains_key(name@)) by {
                    if self.model@.contains_key(key@) {
                        let j = choose|j: int|
                            0 <= j < self.names@.len() && #[trigger] self.names@[j]@ == key@;
                        assert(self.names@[j]@ != key@);
                    }
                }
                None
            },
        }
    }

    /// The count of `name`: zero where it has never been counted.
    pub fn count(&self, name: &str) -> (r: u64)
        ensures
            r as nat == count_of(self@, name@),
    {
        match self.get(name) {
            Some(c) => c,
            None => 0,
        }
    }

    /// How many distinct command names have been counted.
    pub fn len(&self) -> (r: usize)
        ensures
            r as nat == self@.len(),
    {
        proof {
            use_type_invariant(self);
        }
        self.names.len()
    }

    /// Counts one more invocation of `name`: its entry is created at zero if absent,
    /// then raised by one. The count must still have room to grow.
    pub fn increment(&mut self, name: &str)
        requires
            count_of(old(self)@, name@) < u64::MAX,
        ensures
            final(self)@ == bump(old(self)@, name@),
    {
        proof {
            use_type_invariant(&*self);
        }
        let mut taken = CommandCounter::new();
        std::mem::swap(self, &mut taken);
        let CommandCounter { mut names, mut counts, model } = taken;
        let key = name.to_owned();
        let ghost old_names = names@;
        let ghost new_model = bump(model@, name@);
        let found = position_in(&names, &key);
        match found {
            Some(i) => {
                assert(model@.contains_key(names@[i as int]@));
                let c = counts[i];
                counts.set(i, c + 1);
                proof {
                    assert(model@.dom() =~= new_model.dom());
                    assert forall|k: Seq<char>| #[trigger]
                        new_model.contains_key(k) implies exists|j: int|
                        0 <= j < names@.len() && #[trigger] names@[j]@ == k by {
                        assert(model@.contains_key(k));
                    }
                }
            },
            None => {
                assert(!model@.contains_key(key@)) by {
                    if model@.contains_key(key@) {
                        let j = choose|j: int|
                            0 <= j < old_names.len() && #[trigger] old_names[j]@ == key@;
                        assert(old_names[j]@ != key@);
                    }
                }
                counts.push(1);
                names.push(key);
                proof {
                    let n = old_names.len() as int;
                    assert(names@[n]@ == name@);
                    assert forall|k: Seq<char>| #[trigger]
                        new_model.contains_key(k) implies exists|j: int|
                        0 <= j < names@.len() && #[trigger] names@[j]@ == k by {
                        if k != name@ {
                            assert(model@.contains_key(k));
                            let j = choose|j: int|
                                0 <= j < old_names.len() && #[trigger] old_names[j]@ == k;
                            assert(names@[j]@ == k);
                        }
                    }
                }
            },
        }
        proof {
            let r = CommandCounter { names, counts, model: Ghost(new_model) };
            assert(r.names@ == names@ && r.counts@ == counts@ && r.model@ == new_model);
            assert(r.inv());
        }
        *self = CommandCounter { names, counts, model: Ghost(new_model) };
    }
}

} // verus!
