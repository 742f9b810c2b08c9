//! Compiled shader programs by key: each program gets a stable index, and a program
//! whose sources changed is replaced at the same index.

use vstd::prelude::*;
use std::collections::HashMap;
use vstd::std_specs::hash::group_hash_axioms;

verus! {

broadcast use group_hash_axioms;

/// Programs `P` in a list, and for each shader key its program's index and the watcher
/// `W` of its source files.
pub struct ShaderCache<P, W> {
    programs: Vec<P>,
    map: HashMap<u64, (u32, W)>,
}

impl<P, W> ShaderCache<P, W> {
    pub closed spec fn spec_programs(&self) -> Seq<P> {
        self.programs@
    }

    pub closed spec fn spec_map(&self) -> Map<u64, (u32, W)> {
        self.map@
    }

    /// Every key names a program of the list.
    pub open spec fn wf(&self) -> bool {
        forall|key: u64| #[trigger]
            self.spec_map().contains_key(key) ==> (self.spec_map()[key].0 as int)
                < self.spec_programs().len()
    }

    /// No program yet.
    pub fn new() -> (r: Self)
        ensures
            r.wf(),
            r.spec_programs() == Seq::<P>::empty(),
            r.spec_map() == Map::<u64, (u32, W)>::empty(),
    {
        ShaderCache { programs: Vec::new(), map: HashMap::new() }
    }

    /// The number of programs.
    pub fn len(&self) -> (r: usize)
        ensures
            r == self.spec_programs().len(),
    {
        self.programs.len()
    }

    /// The index and source watcher of the program compiled for `key`.
    pub fn lookup(&self, key: u64) -> (r: Option<(u32, &W)>)
        ensures
            r matches Some((i, w)) ==> self.spec_map().contains_key(key) && i == self.spec_map()[key].0
                && *w == self.spec_map()[key].1,
            r is None ==> !self.spec_map().contains_key(key),
    {
        match self.map.get(&key) {
            Some(entry) => Some((entry.0, &entry.1)),
            None => None,
        }
    }

    /// The program at `index`.
    pub fn program(&self, index: u32) -> (r: &P)
        requires
            (index as int) < self.spec_programs().len(),
        ensures
            *r == self.spec_programs()[index as int],
    {
        &self.programs[index as usize]
    }

    /// Replaces the program at `index` by a recompiled one; returns the old one, to delete.
    pub fn replace(&mut self, index: u32, program: P) -> (old_program: P)
        requires
            (index as int) < old(self).spec_programs().len(),
        ensures
            old_program == old(self).spec_programs()[index as int],
            final(self).spec_programs() == old(self).spec_programs().update(index as int, program),
            final(self).spec_map() == old(self).spec_map(),
            old(self).wf() ==> final(self).wf(),
    {
        let mut p = program;
        self.programs.set_and_swap(index as usize, &mut p);
        p
    }

    /// Adds a newly compiled program for `key` at the next index, and returns that index.
    pub fn insert(&mut self, key: u64, program: P, watcher: W) -> (index: u32)
        requires
            old(self).wf(),
            old(self).spec_programs().len() < u32::MAX,
        ensures
            final(self).wf(),
            index == old(self).spec_programs().len(),
            final(self).spec_programs() == old(self).spec_programs().push(program),
            final(self).spec_map() == old(self).spec_map().insert(key, (index, watcher)),
    {
        let index = self.programs.len() as u32;
        self.programs.push(program);
        self.map.insert(key, (index, watcher));
        assert forall|k: u64| #[trigger] self.spec_map().contains_key(k) implies (self.spec_map()[k].0 as int)
            < self.spec_programs().len() by {
            if k != key {
                assert(old(self).spec_map().contains_key(k));
            }
        }
        index
    }
}

/// What a lookup gives back of an insertion: the key finds the index that insertion
/// returned, and that index holds the inserted program.
pub proof fn lemma_insert_then_lookup<P, W>(
    programs: Seq<P>,
    map: Map<u64, (u32, W)>,
    key: u64,
    program: P,
    watcher: W,
)
    requires
        programs.len() < u32::MAX,
    ensures
        ({
            let index = programs.len() as u32;
            let programs2 = programs.push(program);
            let map2 = map.insert(key, (index, watcher));
            &&& map2.contains_key(key)
            &&& map2[key].0 == index
            &&& programs2[map2[key].0 as int] == program
        }),
{
}

} // verus!
