//! Shared GPU mesh buffers: meshes with the same vertex layout are packed into
//! one set of vertex and index buffers. This module keeps which mesh lives in
//! which buffer set, frees a buffer set once no mesh uses it any more, and
//! remembers the last bound buffer set so that rebinding can be skipped.

use vstd::prelude::*;
use std::collections::HashMap;
use std::collections::HashSet;
use vstd::std_specs::hash::group_hash_axioms;
use crate::mesh_layout::{MeshGroupLayout, Placement};

verus! {

broadcast use group_hash_axioms;

/// Index of a compiled shader program in the shader cache.
pub type ShaderIndex = u32;

/// Where a mesh's indices live inside a shared buffer set.
#[derive(PartialEq, Eq, Structural, Clone, Copy, Debug)]
pub struct BufferRef {
    /// Index of the buffer set in the buffer list.
    pub buffer_index: usize,
    /// First index of the mesh in the shared index buffer.
    pub indices_start: usize,
    /// Number of indices the mesh draws.
    pub indices_count: usize,
    /// `UNSIGNED_SHORT` or `UNSIGNED_INT`.
    pub index_element_type: u32,
    /// Byte offset of the first index in the index buffer.
    pub bytes_offset: i32,
}

/// One slot of the buffer list: the GPU buffers `B` and the meshes packed in them,
/// or nothing once the buffers were freed.
pub type BufferSlot<B> = Option<(B, Set<u64>)>;

/// The mesh buffer registry. `B` is whatever holds the GPU buffers of one set;
/// meshes are named by a 64-bit key.
pub struct GPUMeshBufferMap<B> {
    /// Shader index and buffer index that were bound last.
    last_bind: Option<(ShaderIndex, usize)>,
    buffers: Vec<Option<(B, HashSet<u64>)>>,
    map: HashMap<u64, BufferRef>,
}

pub open spec fn slot_view<B>(e: Option<(B, HashSet<u64>)>) -> BufferSlot<B> {
    match e {
        Some((b, s)) => Some((b, s@)),
        None => None,
    }
}

/// The meshes packed in a buffer slot (empty for a freed slot).
pub open spec fn members_of<B>(slot: BufferSlot<B>) -> Set<u64> {
    match slot {
        Some((_b, s)) => s,
        None => Set::empty(),
    }
}

/// The GPU buffers of a live slot.
pub open spec fn payload_of<B>(slot: BufferSlot<B>) -> B
    recommends
        slot is Some,
{
    match slot {
        Some((b, _s)) => b,
        None => arbitrary(),
    }
}

/// The buffer reference each placement of a group gets when the group's buffer set
/// becomes slot `index`.
pub open spec fn spec_refs(placements: Seq<Placement>, index: usize, element_type: u32) -> Seq<(u64, BufferRef)> {
    placements.map_values(
        |p: Placement|
            (
                p.mesh,
                BufferRef {
                    buffer_index: index,
                    indices_start: p.indices_start,
                    indices_count: p.indices_count,
                    index_element_type: element_type,
                    bytes_offset: p.bytes_offset,
                },
            ),
    )
}

/// The map after inserting the pairs of `s` in order (a later pair for a key wins).
pub open spec fn spec_insert_all(m: Map<u64, BufferRef>, s: Seq<(u64, BufferRef)>) -> Map<u64, BufferRef>
    decreases s.len(),
{
    if s.len() == 0 {
        m
    } else {
        spec_insert_all(m, s.drop_last()).insert(s.last().0, s.last().1)
    }
}

/// The meshes of slot `j` that a commit moves away: placed again, and mapped to `j` before.
pub open spec fn spec_moved(old_map: Map<u64, BufferRef>, placements: Seq<Placement>, j: int) -> Set<u64> {
    Set::new(
        |id: u64|
            (exists|k: int| 0 <= k < placements.len() && (#[trigger] placements[k]).mesh == id)
                && old_map.contains_key(id) && old_map[id].buffer_index == j,
    )
}

/// A slot after some of its meshes moved away: freed when none is left.
pub open spec fn spec_slot_after<B>(slot: BufferSlot<B>, moved: Set<u64>) -> BufferSlot<B> {
    match slot {
        None => None,
        Some((b, s)) => if s.difference(moved).is_empty() {
            None
        } else {
            Some((b, s.difference(moved)))
        },
    }
}

proof fn lemma_insert_all(m: Map<u64, BufferRef>, s: Seq<(u64, BufferRef)>, id: u64)
    ensures
        (forall|k: int| 0 <= k < s.len() ==> (#[trigger] s[k]).0 != id) ==> (spec_insert_all(
            m,
            s,
        ).contains_key(id) == m.contains_key(id) && (m.contains_key(id) ==> spec_insert_all(
            m,
            s,
        )[id] == m[id])),
        (exists|k: int| 0 <= k < s.len() && (#[trigger] s[k]).0 == id) ==> spec_insert_all(
            m,
            s,
        ).contains_key(id) && exists|k: int|
            0 <= k < s.len() && (#[trigger] s[k]).0 == id && spec_insert_all(m, s)[id] == s[k].1,
    decreases s.len(),
{
    if s.len() > 0 {
        lemma_insert_all(m, s.drop_last(), id);
        let sd = s.drop_last();
        if s.last().0 != id {
            if exists|k: int| 0 <= k < s.len() && (#[trigger] s[k]).0 == id {
                let k = choose|k: int| 0 <= k < s.len() && (#[trigger] s[k]).0 == id;
                assert(k < s.len() - 1);
                assert(sd[k] == s[k]);
                let k2 = choose|k2: int|
                    0 <= k2 < sd.len() && (#[trigger] sd[k2]).0 == id && spec_insert_all(m, sd)[id]
                        == sd[k2].1;
                assert(s[k2] == sd[k2]);
            }
            if forall|k: int| 0 <= k < s.len() ==> (#[trigger] s[k]).0 != id {
                assert forall|k: int| 0 <= k < sd.len() implies (#[trigger] sd[k]).0 != id by {
                    assert(sd[k] == s[k]);
                }
            }
        } else {
            assert(s[s.len() - 1] == s.last());
        }
    }
}

/// After a group is committed as slot `index`, a mesh it places is drawn from that slot at
/// its placement's indices; when the group places a mesh more than once, the last
/// placement counts. Meshes it does not place keep their reference.
pub proof fn lemma_committed_mesh_ref(
    m: Map<u64, BufferRef>,
    placements: Seq<Placement>,
    index: usize,
    element_type: u32,
    k: int,
    other: u64,
)
    requires
        0 <= k < placements.len(),
        forall|j: int| k < j < placements.len() ==> (#[trigger] placements[j]).mesh != placements[k].mesh,
        forall|j: int| 0 <= j < placements.len() ==> (#[trigger] placements[j]).mesh != other,
    ensures
        spec_insert_all(m, spec_refs(placements, index, element_type))[placements[k].mesh] == (BufferRef {
            buffer_index: index,
            indices_start: placements[k].indices_start,
            indices_count: placements[k].indices_count,
            index_element_type: element_type,
            bytes_offset: placements[k].bytes_offset,
        }),
        spec_insert_all(m, spec_refs(placements, index, element_type)).contains_key(other)
            == m.contains_key(other),
        m.contains_key(other) ==> spec_insert_all(m, spec_refs(placements, index, element_type))[other]
            == m[other],
    decreases placements.len(),
{
    let refs = spec_refs(placements, index, element_type);
    assert(spec_refs(placements.drop_last(), index, element_type) =~= refs.drop_last());
    lemma_insert_all(m, refs, other);
    if k < placements.len() - 1 {
        assert(placements[placements.len() - 1] == placements.last());
        lemma_committed_mesh_ref(m, placements.drop_last(), index, element_type, k, other);
        assert(placements.drop_last()[k] == placements[k]);
    }
}

impl<B> GPUMeshBufferMap<B> {
    /// The shader and buffer set that were bound last.
    pub closed spec fn spec_last_bind(&self) -> Option<(ShaderIndex, usize)> {
        self.last_bind
    }

    /// Which buffer set each mesh is drawn from.
    pub closed spec fn spec_map(&self) -> Map<u64, BufferRef> {
        self.map@
    }

    /// The buffer list: each slot holds a live buffer set with its meshes, or is freed.
    pub closed spec fn spec_slots(&self) -> Seq<BufferSlot<B>> {
        self.buffers@.map_values(|e: Option<(B, HashSet<u64>)>| slot_view(e))
    }

    /// The registry's invariant: every mesh refers to a live buffer set that lists it,
    /// and a live buffer set is used by at least one mesh.
    pub open spec fn wf(&self) -> bool {
        &&& forall|id: u64| #[trigger]
            self.spec_map().contains_key(id) ==> {
                let j = self.spec_map()[id].buffer_index as int;
                &&& 0 <= j < self.spec_slots().len()
                &&& self.spec_slots()[j] is Some
                &&& members_of(self.spec_slots()[j]).contains(id)
            }
        &&& forall|j: int|
            0 <= j < self.spec_slots().len() && (#[trigger] self.spec_slots()[j]) is Some
                ==> !members_of(self.spec_slots()[j]).is_empty()
    }

    /// An empty registry.
    pub fn new() -> (r: Self)
        ensures
            r.wf(),
            r.spec_map() == Map::<u64, BufferRef>::empty(),
            r.spec_slots() == Seq::<BufferSlot<B>>::empty(),
            r.spec_last_bind() is None,
    {
        let r = GPUMeshBufferMap { last_bind: None, buffers: Vec::new(), map: HashMap::new() };
        assert(r.spec_slots() =~= Seq::<BufferSlot<B>>::empty());
        r
    }

    /// Call before the first `bind_mesh` of a pass: the OpenGL state left by earlier
    /// work is unknown.
    pub fn reset_mesh_bind_cache(&mut self)
        ensures
            final(self).spec_last_bind() is None,
            final(self).spec_map() == old(self).spec_map(),
            final(self).spec_slots() == old(self).spec_slots(),
    {
        self.last_bind = None;
    }

    /// The buffer reference of a mesh, when it has been uploaded.
    pub fn get(&self, mesh: u64) -> (r: Option<BufferRef>)
        ensures
            r == (if self.spec_map().contains_key(mesh) {
                Some(self.spec_map()[mesh])
            } else {
                None
            }),
    {
        match self.map.get(&mesh) {
            Some(r) => Some(*r),
            None => None,
        }
    }

    /// The number of slots in the buffer list, freed ones included.
    pub fn slot_count(&self) -> (r: usize)
        ensures
            r == self.spec_slots().len(),
    {
        self.buffers.len()
    }

    /// The GPU buffers of slot `index`, when that slot is live.
    pub fn buffer_set(&self, index: usize) -> (r: Option<&B>)
        ensures
            index < self.spec_slots().len() && self.spec_slots()[index as int] is Some ==> r
                == Some(&payload_of(self.spec_slots()[index as int])),
            !(index < self.spec_slots().len() && self.spec_slots()[index as int] is Some)
                ==> r is None,
    {
        if index < self.buffers.len() {
            match &self.buffers[index] {
                Some(entry) => Some(&entry.0),
                None => None,
            }
        } else {
            None
        }
    }

    /// Forgets a mesh. When it was the last mesh of its buffer set, the slot is freed
    /// and the GPU buffers are returned to be deleted.
    pub fn remove_mesh(&mut self, id: u64) -> (freed: Option<B>)
        requires
            old(self).wf(),
        ensures
            final(self).wf(),
            final(self).spec_last_bind() == old(self).spec_last_bind(),
            final(self).spec_map() == old(self).spec_map().remove(id),
            final(self).spec_slots().len() == old(self).spec_slots().len(),
            !old(self).spec_map().contains_key(id) ==> final(self).spec_slots() == old(self).spec_slots() && freed is None,
            old(self).spec_map().contains_key(id) ==> {
                let j = old(self).spec_map()[id].buffer_index as int;
                let payload = payload_of(old(self).spec_slots()[j]);
                let members = members_of(old(self).spec_slots()[j]);
                &&& forall|k: int|
                    0 <= k < old(self).spec_slots().len() && k != j ==> #[trigger] final(self).spec_slots()[k] == old(self).spec_slots()[k]
                &&& members.remove(id).is_empty() ==> final(self).spec_slots()[j] is None
                    && freed == Some(payload)
                &&& !members.remove(id).is_empty() ==> final(self).spec_slots()[j] == Some(
                    (payload, members.remove(id)),
                ) && freed is None
            },
    {
        let ghost old_slots = self.spec_slots();
        let ghost old_map = self.spec_map();
        match self.map.remove(&id) {
            Some(buffer_ref) => {
                let idx = buffer_ref.buffer_index;
                assert(old_map.contains_key(id));
                let mut entry: Option<(B, HashSet<u64>)> = None;
                self.buffers.set_and_swap(idx, &mut entry);
                match entry {
                    Some((payload, mut members)) => {
                        members.remove(&id);
                        if members.is_empty() {
                            assert forall|k: int|
                                0 <= k < old_slots.len() && k != idx implies #[trigger] self.spec_slots()[k]
                                == old_slots[k] by {}
                            assert forall|other: u64| #[trigger]
                                self.spec_map().contains_key(other) implies {
                                let j = self.spec_map()[other].buffer_index as int;
                                &&& 0 <= j < self.spec_slots().len()
                                &&& self.spec_slots()[j] is Some
                                &&& members_of(self.spec_slots()[j]).contains(other)
                            } by {
                                assert(old_map.contains_key(other));
                                if old_map[other].buffer_index == idx {
                                    assert(members_of(old_slots[idx as int]).contains(other));
                                    assert(members@.contains(other));
                                }
                            }
                            assert forall|j: int|
                                0 <= j < self.spec_slots().len() && (
                                #[trigger] self.spec_slots()[j]) is Some implies !members_of(self.spec_slots()[j]).is_empty() by {
                                assert(j != idx);
                                assert(self.spec_slots()[j] == old_slots[j]);
                            }
                            Some(payload)
                        } else {
                            self.buffers.set(idx, Some((payload, members)));
                            assert forall|k: int|
                                0 <= k < old_slots.len() && k != idx implies #[trigger] self.spec_slots()[k]
                                == old_slots[k] by {}
                            assert forall|other: u64| #[trigger]
                                self.spec_map().contains_key(other) implies {
                                let j = self.spec_map()[other].buffer_index as int;
                                &&& 0 <= j < self.spec_slots().len()
                                &&& self.spec_slots()[j] is Some
                                &&& members_of(self.spec_slots()[j]).contains(other)
                            } by {
                                assert(old_map.contains_key(other));
                                if old_map[other].buffer_index == idx {
                                    assert(members_of(old_slots[idx as int]).contains(other));
                                }
                            }
                            assert forall|j: int|
                                0 <= j < self.spec_slots().len() && (
                                #[trigger] self.spec_slots()[j]) is Some implies !members_of(self.spec_slots()[j]).is_empty() by {
                                if j != idx {
                                    assert(self.spec_slots()[j] == old_slots[j]);
                                }
                            }
                            None
                        }
                    },
                    None => {
                        assert(false);
                        None
                    },
                }
            },
            None => {
                assert(self.spec_slots() =~= old_slots);
                None
            },
        }
    }

    /// Looks up a mesh for drawing with `shader_index`. Returns its buffer reference and
    /// whether its buffers must be bound (they differ from the last bound ones), or `None`
    /// when the mesh has not been uploaded.
    pub fn bind_mesh(&mut self, mesh: u64, shader_index: ShaderIndex) -> (r: Option<(BufferRef, bool)>)
        requires
            old(self).wf(),
        ensures
            final(self).wf(),
            final(self).spec_map() == old(self).spec_map(),
            final(self).spec_slots() == old(self).spec_slots(),
            !old(self).spec_map().contains_key(mesh) ==> r is None && final(self).spec_last_bind() == old(self).spec_last_bind(),
            old(self).spec_map().contains_key(mesh) ==> {
                let br = old(self).spec_map()[mesh];
                &&& r == Some((br, old(self).spec_last_bind() != Some((shader_index, br.buffer_index))))
                &&& final(self).spec_last_bind() == Some((shader_index, br.buffer_index))
            },
    {
        match self.map.get(&mesh) {
            Some(buffer_ref) => {
                let buffer_ref = *buffer_ref;
                if self.buffers[buffer_ref.buffer_index].is_some() {
                    let same = match self.last_bind {
                        Some((s, b)) => s == shader_index && b == buffer_ref.buffer_index,
                        None => false,
                    };
                    if same {
                        return Some((buffer_ref, false));
                    }
                    self.last_bind = Some((shader_index, buffer_ref.buffer_index));
                    Some((buffer_ref, true))
                } else {
                    None
                }
            },
            None => None,
        }
    }
}

impl<B> GPUMeshBufferMap<B> {
    /// Adds a packed group's buffer set as a new slot and points each uploaded mesh of the
    /// group at it. A mesh that was already uploaded is taken out of its old buffer set;
    /// old buffer sets left without meshes are freed, and returned with their slot index
    /// so that their GPU buffers can be deleted.
    pub fn commit_mesh_group(&mut self, layout: &MeshGroupLayout, payload: B) -> (freed: Vec<(usize, B)>)
        requires
            old(self).wf(),
            layout.members@.len() > 0,
            forall|k: int|
                0 <= k < layout.placements@.len() ==> layout.members@.contains(
                    (#[trigger] layout.placements@[k]).mesh,
                ),
            old(self).spec_slots().len() < usize::MAX,
        ensures
            final(self).wf(),
            final(self).spec_last_bind() == old(self).spec_last_bind(),
            final(self).spec_map() == spec_insert_all(
                old(self).spec_map(),
                spec_refs(
                    layout.placements@,
                    old(self).spec_slots().len() as usize,
                    layout.index_element_type,
                ),
            ),
            final(self).spec_slots().len() == old(self).spec_slots().len() + 1,
            final(self).spec_slots()[old(self).spec_slots().len() as int] == Some(
                (payload, layout.members@.to_set()),
            ),
            forall|j: int|
                0 <= j < old(self).spec_slots().len() ==> #[trigger] final(self).spec_slots()[j]
                    == spec_slot_after(
                    old(self).spec_slots()[j],
                    spec_moved(old(self).spec_map(), layout.placements@, j),
                ),
            forall|k: int|
                0 <= k < freed@.len() ==> {
                    let j = (#[trigger] freed@[k]).0 as int;
                    &&& 0 <= j < old(self).spec_slots().len()
                    &&& old(self).spec_slots()[j] is Some
                    &&& final(self).spec_slots()[j] is None
                    &&& freed@[k].1 == payload_of(old(self).spec_slots()[j])
                },
            forall|j: int|
                0 <= j < old(self).spec_slots().len() && old(self).spec_slots()[j] is Some
                    && (#[trigger] final(self).spec_slots()[j]) is None ==> exists|k: int|
                    0 <= k < freed@.len() && (#[trigger] freed@[k]).0 == j,
            forall|a: int, b: int|
                0 <= a < b < freed@.len() ==> (#[trigger] freed@[a]).0 != (#[trigger] freed@[b]).0,
    {
        let ghost old_slots = self.spec_slots();
        let ghost old_map = self.spec_map();
        let index = self.buffers.len();
        let ghost refs = spec_refs(layout.placements@, index, layout.index_element_type);
        let ghost pls = layout.placements@;
        let mut freed: Vec<(usize, B)> = Vec::new();
        let mut k: usize = 0;
        while k < layout.placements.len()
            invariant
                old(self).wf(),
                old_slots == old(self).spec_slots(),
                old_map == old(self).spec_map(),
                index == old_slots.len(),
                pls == layout.placements@,
                refs == spec_refs(pls, index, layout.index_element_type),
                k <= pls.len(),
                self.last_bind == old(self).last_bind,
                self.spec_slots().len() == old_slots.len(),
                self.spec_map() == spec_insert_all(old_map, refs.take(k as int)),
                forall|j: int|
                    0 <= j < old_slots.len() ==> #[trigger] self.spec_slots()[j] == spec_slot_after(
                        old_slots[j],
                        spec_moved(old_map, pls.take(k as int), j),
                    ),
                forall|q: int|
                    0 <= q < freed@.len() ==> {
                        let j = (#[trigger] freed@[q]).0 as int;
                        &&& 0 <= j < old_slots.len()
                        &&& old_slots[j] is Some
                        &&& self.spec_slots()[j] is None
                        &&& freed@[q].1 == payload_of(old_slots[j])
                    },
                forall|j: int|
                    0 <= j < old_slots.len() && old_slots[j] is Some && (
                    #[trigger] self.spec_slots()[j]) is None ==> exists|q: int|
                        0 <= q < freed@.len() && (#[trigger] freed@[q]).0 == j,
                forall|a: int, b: int|
                    0 <= a < b < freed@.len() ==> (#[trigger] freed@[a]).0 != (
                    #[trigger] freed@[b]).0,
            decreases pls.len() - k,
        {
            let p = layout.placements[k];
            let id = p.mesh;
            let buffer_ref = BufferRef {
                buffer_index: index,
                indices_start: p.indices_start,
                indices_count: p.indices_count,
                index_element_type: layout.index_element_type,
                bytes_offset: p.bytes_offset,
            };
            let ghost cur_slots = self.spec_slots();
            let ghost cur_map = self.spec_map();
            let ghost rk = refs.take(k as int);
            let ghost pk = pls.take(k as int);
            proof {
                assert(refs.take(k + 1).drop_last() =~= rk);
                assert(refs.take(k + 1).last() == (id, buffer_ref));
                lemma_insert_all(old_map, rk, id);
                assert forall|q: int| 0 <= q < rk.len() implies (#[trigger] rk[q]).0 == pk[q].mesh by {}
            }
            let previous = self.map.insert(id, buffer_ref);
            let ghost mut touched: int = -1;
            let ghost freed_before = freed@;
            let ghost earlier = exists|q: int| 0 <= q < pk.len() && (#[trigger] pk[q]).mesh == id;
            proof {
                assert forall|j: int| 0 <= j < old_slots.len() && (!old_map.contains_key(id) || old_map[id].buffer_index != j || earlier) implies spec_moved(old_map, pls.take(k + 1), j) =~= spec_moved(old_map, pk, j) by {
                    assert forall|x: u64| spec_moved(old_map, pls.take(k + 1), j).contains(x) implies spec_moved(old_map, pk, j).contains(x) by {
                        let q = choose|q: int| 0 <= q < pls.take(k + 1).len() && (#[trigger] pls.take(k + 1)[q]).mesh == x;
                        if q < k {
                            assert(pk[q] == pls.take(k + 1)[q]);
                        } else {
                            assert(x == id);
                            if earlier {
                                let q2 = choose|q2: int| 0 <= q2 < pk.len() && (#[trigger] pk[q2]).mesh == id;
                                assert(pk[q2].mesh == x);
                            }
                        }
                    }
                    assert forall|x: u64| spec_moved(old_map, pk, j).contains(x) implies spec_moved(old_map, pls.take(k + 1), j).contains(x) by {
                        let q = choose|q: int| 0 <= q < pk.len() && (#[trigger] pk[q]).mesh == x;
                        assert(pls.take(k + 1)[q] == pk[q]);
                    }
                }
            }
            match previous {
                Some(old_ref) => {
                    let old_index = old_ref.buffer_index;
                    if old_index < self.buffers.len() {
                        proof {
                            if earlier {
                                let q = choose|q: int| 0 <= q < pk.len() && (#[trigger] pk[q]).mesh == id;
                                assert(rk[q].0 == id);
                                assert(false);
                            }
                            assert(old_map.contains_key(id));
                            assert(old_ref == old_map[id]);
                            assert(old_slots[old_index as int]->Some_0.1.contains(id));
                            assert(!spec_moved(old_map, pk, old_index as int).contains(id));
                            assert(cur_slots[old_index as int] == spec_slot_after(
                                old_slots[old_index as int],
                                spec_moved(old_map, pk, old_index as int),
                            ));
                            assert(members_of(old_slots[old_index as int]).difference(
                                spec_moved(old_map, pk, old_index as int),
                            ).contains(id));
                            assert(cur_slots[old_index as int] is Some);
                        }
                        let mut entry: Option<(B, HashSet<u64>)> = None;
                        self.buffers.set_and_swap(old_index, &mut entry);
                        assert(slot_view(entry) == cur_slots[old_index as int]);
                        match entry {
                            Some((payload_old, mut members)) => {
                                let ghost members_before = members@;
                                assert(members_before == members_of(old_slots[old_index as int]).difference(
                                    spec_moved(old_map, pk, old_index as int),
                                ));
                                members.remove(&id);
                                proof {
                                    assert(spec_moved(old_map, pls.take(k + 1), old_index as int) =~= spec_moved(old_map, pk, old_index as int).insert(id)) by {
                                        assert(pls.take(k + 1)[k as int].mesh == id);
                                        assert forall|x: u64| spec_moved(old_map, pls.take(k + 1), old_index as int).contains(x) implies spec_moved(old_map, pk, old_index as int).insert(id).contains(x) by {
                                            let q = choose|q: int| 0 <= q < pls.take(k + 1).len() && (#[trigger] pls.take(k + 1)[q]).mesh == x;
                                            if q < k {
                                                assert(pk[q] == pls.take(k + 1)[q]);
                                            }
                                        }
                                        assert forall|x: u64| spec_moved(old_map, pk, old_index as int).insert(id).contains(x) implies spec_moved(old_map, pls.take(k + 1), old_index as int).contains(x) by {
                                            if x != id {
                                                let q = choose|q: int| 0 <= q < pk.len() && (#[trigger] pk[q]).mesh == x;
                                                assert(pls.take(k + 1)[q] == pk[q]);
                                            }
                                        }
                                    }
                                    let m_old = members_of(old_slots[old_index as int]);
                                    assert(members@ =~= m_old.difference(spec_moved(old_map, pls.take(k + 1), old_index as int)));
                                }
                                proof {
                                    touched = old_index as int;
                                }
                                if members.is_empty() {
                                    let ghost fl = freed@;
                                    freed.push((old_index, payload_old));
                                    assert(self.spec_slots()[old_index as int] == spec_slot_after(
                                        old_slots[old_index as int],
                                        spec_moved(old_map, pls.take(k + 1), old_index as int),
                                    ));
                                    assert(freed@[fl.len() as int].0 == old_index);
                                    proof {
                                        assert forall|a: int, b: int| 0 <= a < b < freed@.len() implies (#[trigger] freed@[a]).0 != (#[trigger] freed@[b]).0 by {
                                            if b == fl.len() {
                                                assert(fl[a] == freed@[a]);
                                                assert(cur_slots[fl[a].0 as int] is None);
                                            } else {
                                                assert(fl[a] == freed@[a]);
                                                assert(fl[b] == freed@[b]);
                                            }
                                        }
                                    }
                                } else {
                                    self.buffers.set(old_index, Some((payload_old, members)));
                                    assert(self.spec_slots()[old_index as int] == spec_slot_after(
                                        old_slots[old_index as int],
                                        spec_moved(old_map, pls.take(k + 1), old_index as int),
                                    ));
                                }
                            },
                            None => {
                                assert(false);
                            },
                        }
                    }
                },
                None => {},
            }
            proof {
                assert(self.spec_map() =~= spec_insert_all(old_map, refs.take(k + 1)));
                if touched < 0 {
                    assert(!old_map.contains_key(id) || earlier || old_map[id].buffer_index >= old_slots.len());
                }
                assert forall|j: int| 0 <= j < old_slots.len() implies #[trigger] self.spec_slots()[j]
                    == spec_slot_after(old_slots[j], spec_moved(old_map, pls.take(k + 1), j)) by {
                    if j != touched {
                        assert(self.spec_slots()[j] == cur_slots[j]);
                        assert(spec_moved(old_map, pls.take(k + 1), j) =~= spec_moved(old_map, pk, j));
                    }
                }
                assert forall|j: int|
                    0 <= j < old_slots.len() && old_slots[j] is Some && (
                    #[trigger] self.spec_slots()[j]) is None implies exists|q: int|
                        0 <= q < freed@.len() && (#[trigger] freed@[q]).0 == j by {
                    assert(freed_before.len() <= freed@.len());
                    assert(forall|q: int| 0 <= q < freed_before.len() ==> freed@[q] == freed_before[q]);
                    if j != touched {
                        assert(self.spec_slots()[j] == cur_slots[j]);
                        let q = choose|q: int| 0 <= q < freed_before.len() && (#[trigger] freed_before[q]).0 == j;
                        assert(freed@[q] == freed_before[q]);
                    } else if cur_slots[j] is None {
                        let q = choose|q: int| 0 <= q < freed_before.len() && (#[trigger] freed_before[q]).0 == j;
                        assert(freed@[q] == freed_before[q]);
                    } else {
                        assert(freed@.len() == freed_before.len() + 1);
                        assert(freed@[freed_before.len() as int].0 == j);
                    }
                }
            }
            k = k + 1;
        }
        let mut members: HashSet<u64> = HashSet::new();
        let mut m: usize = 0;
        while m < layout.members.len()
            invariant
                m <= layout.members@.len(),
                members@ == layout.members@.take(m as int).to_set(),
            decreases layout.members@.len() - m,
        {
            members.insert(layout.members[m]);
            assert(layout.members@.take(m + 1).to_set() =~= layout.members@.take(m as int).to_set().insert(layout.members@[m as int])) by {
                broadcast use vstd::seq_lib::group_seq_properties;
                let t1 = layout.members@.take(m + 1);
                let t0 = layout.members@.take(m as int);
                assert(t1 =~= t0.push(layout.members@[m as int]));
            }
            m = m + 1;
        }
        assert(layout.members@.take(m as int) =~= layout.members@);
        let ghost before_push = self.spec_slots();
        self.buffers.push(Some((payload, members)));
        assert(refs.take(k as int) =~= refs);
        assert(pls.take(k as int) =~= pls);
        proof {
            assert forall|j: int| 0 <= j < old_slots.len() implies #[trigger] self.spec_slots()[j] == before_push[j] by {}
            assert forall|id: u64| #[trigger] self.spec_map().contains_key(id) implies {
                let j = self.spec_map()[id].buffer_index as int;
                &&& 0 <= j < self.spec_slots().len()
                &&& self.spec_slots()[j] is Some
                &&& members_of(self.spec_slots()[j]).contains(id)
            } by {
                lemma_insert_all(old_map, refs, id);
                if exists|q: int| 0 <= q < refs.len() && (#[trigger] refs[q]).0 == id {
                    let q = choose|q: int| 0 <= q < refs.len() && (#[trigger] refs[q]).0 == id && spec_insert_all(old_map, refs)[id] == refs[q].1;
                    assert(pls[q].mesh == id);
                    assert(layout.members@.contains(pls[q].mesh));
                } else {
                    assert forall|q: int| 0 <= q < pls.len() implies (#[trigger] pls[q]).mesh != id by {
                        assert(refs[q].0 == pls[q].mesh);
                    }
                    let j = old_map[id].buffer_index as int;
                    assert(!spec_moved(old_map, pls, j).contains(id));
                    assert(members_of(old_slots[j]).contains(id));
                    assert(members_of(old_slots[j]).difference(spec_moved(old_map, pls, j)).contains(id));
                }
            }
            assert forall|j: int|
                0 <= j < self.spec_slots().len() && (#[trigger] self.spec_slots()[j]) is Some
                    implies !members_of(self.spec_slots()[j]).is_empty() by {
                if j == old_slots.len() {
                    assert(layout.members@.to_set().contains(layout.members@[0]));
                }
            }
            assert forall|j: int|
                0 <= j < old_slots.len() && old_slots[j] is Some && (#[trigger] self.spec_slots()[j]) is None
                    implies exists|q: int| 0 <= q < freed@.len() && (#[trigger] freed@[q]).0 == j by {
                assert(before_push[j] is None);
            }
        }
        freed
    }
}

} // verus!
