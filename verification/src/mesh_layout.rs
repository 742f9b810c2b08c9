//! Packing meshes that share a vertex layout into shared buffers: which meshes
//! go together (limited by the index width and the byte offsets a draw call
//! can address), and where each mesh's indices land in the shared index buffer.

use vstd::prelude::*;
use std::collections::HashMap;
use vstd::std_specs::hash::group_hash_axioms;

use crate::gl;
use crate::mesh_indices::{
    get_mesh_indices_u16, get_mesh_indices_u32, spec_fits_u16, spec_fits_u32, spec_mesh_indices_u16,
    spec_mesh_indices_u32, Indices, MeshGeometry,
};

verus! {

broadcast use group_hash_axioms;

/// The largest vertex count (exclusive) of one shared buffer.
pub open spec fn spec_max_verts_per_buffer(u16_indices: bool) -> nat {
    if u16_indices {
        u16::MAX as nat
    } else {
        u32::MAX as nat
    }
}

/// The number of vertex positions of a mesh (zero for one without positions).
pub open spec fn spec_positions(m: MeshGeometry) -> nat {
    match m.position_count {
        Some(c) => c as nat,
        None => 0,
    }
}

/// Total positions of the meshes of `g` that are known (unknown ones are skipped).
pub open spec fn spec_sum_positions(meshes: Map<u64, MeshGeometry>, g: Seq<u64>) -> nat
    decreases g.len(),
{
    if g.len() == 0 {
        0
    } else {
        spec_sum_positions(meshes, g.drop_last()) + if meshes.contains_key(g.last()) {
            spec_positions(meshes[g.last()])
        } else {
            0
        }
    }
}

/// Total index count of the meshes of `g` that are known.
pub open spec fn spec_sum_indices(meshes: Map<u64, MeshGeometry>, g: Seq<u64>) -> nat
    decreases g.len(),
{
    if g.len() == 0 {
        0
    } else {
        spec_sum_indices(meshes, g.drop_last()) + if meshes.contains_key(g.last()) {
            meshes[g.last()].spec_index_count()
        } else {
            0
        }
    }
}

/// A group fits one shared buffer: its vertices are addressable by the index type and
/// the byte offset of its last index fits the `i32` of a draw call.
pub open spec fn spec_group_fits(meshes: Map<u64, MeshGeometry>, max_verts: nat, g: Seq<u64>) -> bool {
    spec_sum_positions(meshes, g) < max_verts && spec_sum_indices(meshes, g) * 4 < i32::MAX
}

/// Every known mesh has positions.
pub open spec fn spec_meshes_have_positions(meshes: Map<u64, MeshGeometry>) -> bool {
    forall|id: u64| #[trigger] meshes.contains_key(id) ==> meshes[id].position_count is Some
}

/// The state of the grouping scan over one layout's meshes.
pub struct GroupScan {
    pub done: Seq<Seq<u64>>,
    pub group: Seq<u64>,
    pub positions: nat,
    pub indices: nat,
}

/// One step of the grouping scan: a known mesh joins the open group when the group
/// still fits with it; otherwise the open group is closed and the mesh is left out.
pub open spec fn spec_group_step(
    meshes: Map<u64, MeshGeometry>,
    max_verts: nat,
    st: GroupScan,
    h: u64,
) -> GroupScan {
    if !meshes.contains_key(h) {
        st
    } else {
        let p = st.positions + spec_positions(meshes[h]);
        let i = st.indices + meshes[h].spec_index_count();
        if p < max_verts && i * 4 < i32::MAX {
            GroupScan { done: st.done, group: st.group.push(h), positions: p, indices: i }
        } else {
            GroupScan { done: st.done.push(st.group), group: Seq::empty(), positions: 0, indices: 0 }
        }
    }
}

pub open spec fn spec_group_scan(meshes: Map<u64, MeshGeometry>, max_verts: nat, hs: Seq<u64>) -> GroupScan
    decreases hs.len(),
{
    if hs.len() == 0 {
        GroupScan { done: Seq::empty(), group: Seq::empty(), positions: 0, indices: 0 }
    } else {
        spec_group_step(meshes, max_verts, spec_group_scan(meshes, max_verts, hs.drop_last()), hs.last())
    }
}

/// The groups formed from the meshes of one vertex layout.
pub open spec fn spec_groups_of_layout(meshes: Map<u64, MeshGeometry>, max_verts: nat, hs: Seq<u64>) -> Seq<Seq<u64>> {
    let st = spec_group_scan(meshes, max_verts, hs);
    if st.group.len() > 0 {
        st.done.push(st.group)
    } else {
        st.done
    }
}

/// The groups formed from all layouts, layout after layout.
pub open spec fn spec_mesh_groups(
    meshes: Map<u64, MeshGeometry>,
    max_verts: nat,
    by_layout: Seq<Seq<u64>>,
) -> Seq<Seq<u64>>
    decreases by_layout.len(),
{
    if by_layout.len() == 0 {
        Seq::empty()
    } else {
        spec_mesh_groups(meshes, max_verts, by_layout.drop_last()) + spec_groups_of_layout(
            meshes,
            max_verts,
            by_layout.last(),
        )
    }
}

pub open spec fn spec_scan_inv(meshes: Map<u64, MeshGeometry>, max_verts: nat, st: GroupScan) -> bool {
    &&& st.positions == spec_sum_positions(meshes, st.group)
    &&& st.indices == spec_sum_indices(meshes, st.group)
    &&& spec_group_fits(meshes, max_verts, st.group)
    &&& forall|k: int| 0 <= k < st.done.len() ==> spec_group_fits(meshes, max_verts, #[trigger] st.done[k])
}

proof fn lemma_group_scan_inv(meshes: Map<u64, MeshGeometry>, max_verts: nat, hs: Seq<u64>)
    requires
        max_verts > 0,
    ensures
        spec_scan_inv(meshes, max_verts, spec_group_scan(meshes, max_verts, hs)),
    decreases hs.len(),
{
    if hs.len() > 0 {
        lemma_group_scan_inv(meshes, max_verts, hs.drop_last());
        let st = spec_group_scan(meshes, max_verts, hs.drop_last());
        let h = hs.last();
        if meshes.contains_key(h) {
            assert(st.group.push(h).drop_last() =~= st.group);
            let e: Seq<u64> = Seq::empty();
            assert(spec_sum_positions(meshes, e) == 0);
            assert(spec_sum_indices(meshes, e) == 0);
            let nst = spec_group_scan(meshes, max_verts, hs);
            assert forall|k: int| 0 <= k < nst.done.len() implies spec_group_fits(
                meshes,
                max_verts,
                #[trigger] nst.done[k],
            ) by {
                if k < st.done.len() {
                    assert(nst.done[k] == st.done[k]);
                }
            }
        }
    }
}

/// Every group of the layout scan fits one shared buffer.
proof fn lemma_groups_of_layout_fit(meshes: Map<u64, MeshGeometry>, max_verts: nat, hs: Seq<u64>)
    requires
        max_verts > 0,
    ensures
        forall|k: int|
            0 <= k < spec_groups_of_layout(meshes, max_verts, hs).len() ==> spec_group_fits(
                meshes,
                max_verts,
                #[trigger] spec_groups_of_layout(meshes, max_verts, hs)[k],
            ),
{
    lemma_group_scan_inv(meshes, max_verts, hs);
}

/// Every group formed fits one shared buffer.
pub proof fn lemma_mesh_groups_fit(
    meshes: Map<u64, MeshGeometry>,
    max_verts: nat,
    by_layout: Seq<Seq<u64>>,
)
    requires
        max_verts > 0,
    ensures
        forall|k: int|
            0 <= k < spec_mesh_groups(meshes, max_verts, by_layout).len() ==> spec_group_fits(
                meshes,
                max_verts,
                #[trigger] spec_mesh_groups(meshes, max_verts, by_layout)[k],
            ),
    decreases by_layout.len(),
{
    if by_layout.len() > 0 {
        lemma_mesh_groups_fit(meshes, max_verts, by_layout.drop_last());
        lemma_groups_of_layout_fit(meshes, max_verts, by_layout.last());
        let a = spec_mesh_groups(meshes, max_verts, by_layout.drop_last());
        let b = spec_groups_of_layout(meshes, max_verts, by_layout.last());
        assert forall|k: int| 0 <= k < (a + b).len() implies spec_group_fits(
            meshes,
            max_verts,
            #[trigger] (a + b)[k],
        ) by {
            if k < a.len() {
                assert((a + b)[k] == a[k]);
            } else {
                assert((a + b)[k] == b[k - a.len()]);
            }
        }
    }
}

/// Splits the meshes of each vertex layout into groups that fit one shared buffer.
/// Meshes are taken in order; a mesh joins the open group when the group's vertex
/// count stays below the index type's limit and its indices stay addressable; a mesh
/// that does not fit closes the open group and is not uploaded this time.
pub fn plan_mesh_groups(by_layout: &Vec<Vec<u64>>, meshes: &HashMap<u64, MeshGeometry>, u16_indices: bool) -> (groups: Vec<Vec<u64>>)
    requires
        spec_meshes_have_positions(meshes@),
    ensures
        groups@.map_values(|g: Vec<u64>| g@) == spec_mesh_groups(
            meshes@,
            spec_max_verts_per_buffer(u16_indices),
            by_layout@.map_values(|g: Vec<u64>| g@),
        ),
        forall|k: int|
            0 <= k < groups@.len() ==> spec_group_fits(
                meshes@,
                spec_max_verts_per_buffer(u16_indices),
                #[trigger] groups@[k]@,
            ),
{
    let max_verts_per_buffer: u128 = if u16_indices {
        u16::MAX as u128
    } else {
        u32::MAX as u128
    };
    let ghost maxv = spec_max_verts_per_buffer(u16_indices);
    let ghost layouts = by_layout@.map_values(|g: Vec<u64>| g@);
    let mut mesh_groups: Vec<Vec<u64>> = Vec::new();
    let mut li: usize = 0;
    while li < by_layout.len()
        invariant
            li <= by_layout@.len(),
            max_verts_per_buffer == maxv,
            maxv == spec_max_verts_per_buffer(u16_indices),
            maxv > 0,
            layouts == by_layout@.map_values(|g: Vec<u64>| g@),
            spec_meshes_have_positions(meshes@),
            mesh_groups@.map_values(|g: Vec<u64>| g@) == spec_mesh_groups(
                meshes@,
                maxv,
                layouts.take(li as int),
            ),
        decreases by_layout@.len() - li,
    {
        let mesh_handles = &by_layout[li];
        let ghost before = mesh_groups@.map_values(|g: Vec<u64>| g@);
        let mut mesh_group: Vec<u64> = Vec::new();
        let mut accum_positions: u128 = 0;
        let mut accum_indices: u128 = 0;
        let mut k: usize = 0;
        while k < mesh_handles.len()
            invariant
                k <= mesh_handles@.len(),
                max_verts_per_buffer == maxv,
                maxv == spec_max_verts_per_buffer(u16_indices),
                maxv > 0,
                spec_meshes_have_positions(meshes@),
                ({
                    let st = spec_group_scan(meshes@, maxv, mesh_handles@.take(k as int));
                    &&& mesh_groups@.map_values(|g: Vec<u64>| g@) == before + st.done
                    &&& mesh_group@ == st.group
                    &&& accum_positions == st.positions
                    &&& accum_indices == st.indices
                }),
            decreases mesh_handles@.len() - k,
        {
            let h = mesh_handles[k];
            let ghost st = spec_group_scan(meshes@, maxv, mesh_handles@.take(k as int));
            assert(mesh_handles@.take(k + 1).drop_last() =~= mesh_handles@.take(k as int));
            proof {
                lemma_group_scan_inv(meshes@, maxv, mesh_handles@.take(k as int));
            }
            match meshes.get(&h) {
                Some(mesh) => {
                    let positions_count = match mesh.position_count {
                        Some(c) => c,
                        None => vstd::pervasive::unreached(),
                    };
                    let index_count = match &mesh.indices {
                        Some(ind) => ind.len(),
                        None => positions_count,
                    };
                    accum_positions = accum_positions + positions_count as u128;
                    accum_indices = accum_indices + index_count as u128;
                    if accum_positions < max_verts_per_buffer && accum_indices <= 536870911 {
                        mesh_group.push(h);
                    } else {
                        accum_positions = 0;
                        accum_indices = 0;
                        let mut new_group: Vec<u64> = Vec::new();
                        std::mem::swap(&mut mesh_group, &mut new_group);
                        let ghost prev = mesh_groups@;
                        assert(new_group@ == st.group);
                        mesh_groups.push(new_group);
                        assert(mesh_groups@.map_values(|g: Vec<u64>| g@) =~= prev.map_values(
                            |g: Vec<u64>| g@,
                        ).push(st.group));
                        assert(mesh_groups@.map_values(|g: Vec<u64>| g@) =~= before + st.done.push(
                            st.group,
                        ));
                    }
                },
                None => {},
            }
            k = k + 1;
        }
        assert(mesh_handles@.take(k as int) =~= mesh_handles@);
        assert(layouts.take(li + 1).drop_last() =~= layouts.take(li as int));
        assert(layouts.take(li + 1).last() == mesh_handles@);
        let ghost prev = mesh_groups@;
        let ghost last_group = mesh_group@;
        if mesh_group.len() > 0 {
            mesh_groups.push(mesh_group);
            assert(mesh_groups@.map_values(|g: Vec<u64>| g@) =~= prev.map_values(
                |g: Vec<u64>| g@,
            ).push(last_group));
        }
        assert(mesh_groups@.map_values(|g: Vec<u64>| g@) =~= spec_mesh_groups(
            meshes@,
            maxv,
            layouts.take(li + 1),
        ));
        li = li + 1;
    }
    assert(layouts.take(li as int) =~= layouts);
    proof {
        lemma_mesh_groups_fit(meshes@, maxv, layouts);
        assert forall|k: int| 0 <= k < mesh_groups@.len() implies spec_group_fits(
            meshes@,
            maxv,
            #[trigger] mesh_groups@[k]@,
        ) by {
            assert(mesh_groups@.map_values(|g: Vec<u64>| g@)[k] == mesh_groups@[k]@);
        }
    }
    mesh_groups
}

/// Every known mesh of the group has vertex positions.
pub open spec fn spec_group_have_positions(meshes: Map<u64, MeshGeometry>, g: Seq<u64>) -> bool {
    forall|k: int|
        0 <= k < g.len() && meshes.contains_key(#[trigger] g[k]) ==> meshes[g[k]].position_count
            is Some
}

/// The `k`-th member of group `g`, if it is uploaded, has indices that stay within the
/// index type once shifted past the vertices of the members placed before it.
pub open spec fn spec_member_indices_fit(
    meshes: Map<u64, MeshGeometry>,
    u16_indices: bool,
    g: Seq<u64>,
    k: int,
) -> bool {
    let m = meshes[g[k]];
    let offset = spec_layout_scan(meshes, u16_indices, g.take(k)).vertex_offset;
    meshes.contains_key(g[k]) && !(u16_indices && spec_positions(m) + offset >= u16::MAX) ==> if u16_indices {
        spec_fits_u16(m, offset as u16)
    } else {
        spec_fits_u32(m, offset as u32)
    }
}

/// Every uploaded member of group `g` has shifted indices that fit the index type.
pub open spec fn spec_group_indices_fit(meshes: Map<u64, MeshGeometry>, u16_indices: bool, g: Seq<u64>) -> bool {
    forall|k: int| 0 <= k < g.len() ==> #[trigger] spec_member_indices_fit(meshes, u16_indices, g, k)
}

fn shifted_u16_fit_u16(v: &Vec<u16>, offset: u16) -> (r: bool)
    ensures
        r == (forall|k: int| 0 <= k < v@.len() ==> v@[k] + offset <= u16::MAX),
{
    let mut k: usize = 0;
    while k < v.len()
        invariant
            k <= v@.len(),
            forall|j: int| 0 <= j < k ==> v@[j] + offset <= u16::MAX,
        decreases v@.len() - k,
    {
        if v[k] as u32 + offset as u32 > u16::MAX as u32 {
            assert(!(v@[k as int] + offset <= u16::MAX));
            return false;
        }
        k = k + 1;
    }
    true
}

fn shifted_u32_fit_u16(v: &Vec<u32>, offset: u16) -> (r: bool)
    ensures
        r == (forall|k: int| 0 <= k < v@.len() ==> (v@[k] as u16) + offset <= u16::MAX),
{
    let mut k: usize = 0;
    while k < v.len()
        invariant
            k <= v@.len(),
            forall|j: int| 0 <= j < k ==> (v@[j] as u16) + offset <= u16::MAX,
        decreases v@.len() - k,
    {
        let low: u16 = #[verifier::truncate] (v[k] as u16);
        if low as u32 + offset as u32 > u16::MAX as u32 {
            assert(!((v@[k as int] as u16) + offset <= u16::MAX));
            return false;
        }
        k = k + 1;
    }
    true
}

fn shifted_u16_fit_u32(v: &Vec<u16>, offset: u32) -> (r: bool)
    ensures
        r == (forall|k: int| 0 <= k < v@.len() ==> v@[k] + offset <= u32::MAX),
{
    let mut k: usize = 0;
    while k < v.len()
        invariant
            k <= v@.len(),
            forall|j: int| 0 <= j < k ==> v@[j] + offset <= u32::MAX,
        decreases v@.len() - k,
    {
        if v[k] as u64 + offset as u64 > u32::MAX as u64 {
            assert(!(v@[k as int] + offset <= u32::MAX));
            return false;
        }
        k = k + 1;
    }
    true
}

fn shifted_u32_fit_u32(v: &Vec<u32>, offset: u32) -> (r: bool)
    ensures
        r == (forall|k: int| 0 <= k < v@.len() ==> v@[k] + offset <= u32::MAX),
{
    let mut k: usize = 0;
    while k < v.len()
        invariant
            k <= v@.len(),
            forall|j: int| 0 <= j < k ==> v@[j] + offset <= u32::MAX,
        decreases v@.len() - k,
    {
        if v[k] as u64 + offset as u64 > u32::MAX as u64 {
            assert(!(v@[k as int] + offset <= u32::MAX));
            return false;
        }
        k = k + 1;
    }
    true
}

fn indices_fit_u16(mesh: &MeshGeometry, offset: u16) -> (r: bool)
    ensures
        r == spec_fits_u16(*mesh, offset),
{
    match &mesh.indices {
        Some(Indices::U16(v)) => shifted_u16_fit_u16(v, offset),
        Some(Indices::U32(v)) => shifted_u32_fit_u16(v, offset),
        None => match mesh.position_count {
            Some(c) => {
                let low: u16 = #[verifier::truncate] (c as u16);
                low as u32 + offset as u32 <= u16::MAX as u32
            },
            None => false,
        },
    }
}

fn indices_fit_u32(mesh: &MeshGeometry, offset: u32) -> (r: bool)
    ensures
        r == spec_fits_u32(*mesh, offset),
{
    match &mesh.indices {
        Some(Indices::U16(v)) => shifted_u16_fit_u32(v, offset),
        Some(Indices::U32(v)) => shifted_u32_fit_u32(v, offset),
        None => match mesh.position_count {
            Some(c) => {
                let low: u32 = #[verifier::truncate] (c as u32);
                low as u64 + offset as u64 <= u32::MAX as u64
            },
            None => false,
        },
    }
}

/// Whether every uploaded member of a formed group has shifted indices that fit the
/// index type (`layout_mesh_group` adds each index to its offset in that type).
pub fn group_indices_fit(group: &Vec<u64>, meshes: &HashMap<u64, MeshGeometry>, u16_indices: bool) -> (r: bool)
    requires
        spec_group_have_positions(meshes@, group@),
        spec_group_fits(meshes@, spec_max_verts_per_buffer(u16_indices), group@),
    ensures
        r == spec_group_indices_fit(meshes@, u16_indices, group@),
{
    let mut vertex_offset: usize = 0;
    let mut k: usize = 0;
    while k < group.len()
        invariant
            k <= group@.len(),
            spec_group_have_positions(meshes@, group@),
            spec_group_fits(meshes@, spec_max_verts_per_buffer(u16_indices), group@),
            vertex_offset == spec_layout_scan(meshes@, u16_indices, group@.take(k as int)).vertex_offset,
            forall|j: int| 0 <= j < k ==> #[trigger] spec_member_indices_fit(meshes@, u16_indices, group@, j),
        decreases group@.len() - k,
    {
        let h = group[k];
        proof {
            assert(group@.take(k + 1).drop_last() =~= group@.take(k as int));
            assert(group@.take(k + 1).last() == h);
            lemma_layout_scan_bounds(meshes@, u16_indices, group@.take(k as int));
            lemma_sum_prefix(meshes@, group@, k + 1);
        }
        match meshes.get(&h) {
            Some(mesh) => {
                assert(meshes@.contains_key(group@[k as int]));
                let vertex_count = match mesh.position_count {
                    Some(c) => c,
                    None => vstd::pervasive::unreached(),
                };
                assert(vertex_offset + vertex_count <= spec_sum_positions(meshes@, group@.take(k + 1)));
                if !(u16_indices && vertex_count + vertex_offset >= u16::MAX as usize) {
                    let fits = if u16_indices {
                        indices_fit_u16(mesh, vertex_offset as u16)
                    } else {
                        indices_fit_u32(mesh, vertex_offset as u32)
                    };
                    if !fits {
                        assert(!spec_member_indices_fit(meshes@, u16_indices, group@, k as int));
                        return false;
                    }
                    vertex_offset = vertex_offset + vertex_count;
                }
            },
            None => {},
        }
        assert(spec_member_indices_fit(meshes@, u16_indices, group@, k as int));
        k = k + 1;
    }
    true
}

/// Where one mesh's indices are placed in its group's shared index buffer.
#[derive(PartialEq, Eq, Structural, Clone, Copy, Debug)]
pub struct Placement {
    pub mesh: u64,
    pub indices_start: usize,
    pub indices_count: usize,
    pub bytes_offset: i32,
}

/// The index data of a shared buffer, 16 or 32 bits wide.
pub enum IndexData {
    U16(Vec<u16>),
    U32(Vec<u32>),
}

/// The layout of one shared buffer set: the meshes of the group, where each uploaded
/// mesh's indices are, and the shared index data.
pub struct MeshGroupLayout {
    pub members: Vec<u64>,
    pub placements: Vec<Placement>,
    pub index_data: IndexData,
    pub index_element_type: u32,
}

/// The bytes of one index.
pub open spec fn spec_index_width(u16_indices: bool) -> int {
    if u16_indices {
        2
    } else {
        4
    }
}

/// The state of the layout scan over a group.
pub struct LayoutScan {
    pub vertex_offset: nat,
    pub index_offset: nat,
    pub placements: Seq<Placement>,
    pub data16: Seq<u16>,
    pub data32: Seq<u32>,
}

/// One step of the layout scan: a known mesh is appended after the vertices and indices
/// placed so far, unless with 16-bit indices its vertices would reach the index limit.
pub open spec fn spec_layout_step(
    meshes: Map<u64, MeshGeometry>,
    u16_indices: bool,
    st: LayoutScan,
    h: u64,
) -> LayoutScan {
    if !meshes.contains_key(h) {
        st
    } else {
        let m = meshes[h];
        let vc = spec_positions(m);
        if u16_indices && vc + st.vertex_offset >= u16::MAX {
            st
        } else {
            let ic = m.spec_index_count();
            LayoutScan {
                vertex_offset: st.vertex_offset + vc,
                index_offset: st.index_offset + ic,
                placements: st.placements.push(
                    Placement {
                        mesh: h,
                        indices_start: st.index_offset as usize,
                        indices_count: ic as usize,
                        bytes_offset: (st.index_offset * spec_index_width(u16_indices)) as i32,
                    },
                ),
                data16: if u16_indices {
                    st.data16 + spec_mesh_indices_u16(m, st.vertex_offset as u16)
                } else {
                    st.data16
                },
                data32: if u16_indices {
                    st.data32
                } else {
                    st.data32 + spec_mesh_indices_u32(m, st.vertex_offset as u32)
                },
            }
        }
    }
}

pub open spec fn spec_layout_scan(meshes: Map<u64, MeshGeometry>, u16_indices: bool, hs: Seq<u64>) -> LayoutScan
    decreases hs.len(),
{
    if hs.len() == 0 {
        LayoutScan {
            vertex_offset: 0,
            index_offset: 0,
            placements: Seq::empty(),
            data16: Seq::empty(),
            data32: Seq::empty(),
        }
    } else {
        spec_layout_step(meshes, u16_indices, spec_layout_scan(meshes, u16_indices, hs.drop_last()), hs.last())
    }
}

proof fn lemma_sum_prefix(meshes: Map<u64, MeshGeometry>, g: Seq<u64>, k: int)
    requires
        0 <= k <= g.len(),
    ensures
        spec_sum_positions(meshes, g.take(k)) <= spec_sum_positions(meshes, g),
        spec_sum_indices(meshes, g.take(k)) <= spec_sum_indices(meshes, g),
    decreases g.len(),
{
    if k == g.len() {
        assert(g.take(k) =~= g);
    } else {
        assert(g.drop_last().take(k) =~= g.take(k));
        lemma_sum_prefix(meshes, g.drop_last(), k);
    }
}

proof fn lemma_layout_scan_bounds(meshes: Map<u64, MeshGeometry>, u16_indices: bool, hs: Seq<u64>)
    ensures
        spec_layout_scan(meshes, u16_indices, hs).vertex_offset <= spec_sum_positions(meshes, hs),
        spec_layout_scan(meshes, u16_indices, hs).index_offset <= spec_sum_indices(meshes, hs),
        forall|k: int|
            0 <= k < spec_layout_scan(meshes, u16_indices, hs).placements.len() ==> hs.contains(
                (#[trigger] spec_layout_scan(meshes, u16_indices, hs).placements[k]).mesh,
            ),
    decreases hs.len(),
{
    if hs.len() > 0 {
        lemma_layout_scan_bounds(meshes, u16_indices, hs.drop_last());
        let st = spec_layout_scan(meshes, u16_indices, hs.drop_last());
        let nst = spec_layout_scan(meshes, u16_indices, hs);
        assert forall|k: int| 0 <= k < nst.placements.len() implies hs.contains(
            (#[trigger] nst.placements[k]).mesh,
        ) by {
            if k < st.placements.len() {
                assert(nst.placements[k] == st.placements[k]);
                let j = choose|j: int| 0 <= j < hs.drop_last().len() && hs.drop_last()[j] == st.placements[k].mesh;
                assert(hs[j] == hs.drop_last()[j]);
            } else {
                assert(hs[hs.len() - 1] == hs.last());
            }
        }
    }
}

/// Lays out one group in a shared buffer: returns `None` for an empty group or one whose
/// first mesh is unknown; otherwise the group's meshes, where each uploaded mesh's indices
/// start, and the shared index data with every mesh's indices shifted past the vertices
/// of the meshes before it. Indices are shifted as given, whether or not they name a vertex
/// of their mesh; the caller owes only that each shifted index fits the index type.
pub fn layout_mesh_group(group: &Vec<u64>, meshes: &HashMap<u64, MeshGeometry>, u16_indices: bool) -> (r: Option<MeshGroupLayout>)
    requires
        spec_group_have_positions(meshes@, group@),
        spec_group_fits(meshes@, spec_max_verts_per_buffer(u16_indices), group@),
        spec_group_indices_fit(meshes@, u16_indices, group@),
    ensures
        (group@.len() == 0 || !meshes@.contains_key(group@[0])) <==> r is None,
        r matches Some(l) ==> {
            let st = spec_layout_scan(meshes@, u16_indices, group@);
            &&& l.members@ == group@
            &&& l.placements@ == st.placements
            &&& l.index_element_type == (if u16_indices {
                gl::UNSIGNED_SHORT
            } else {
                gl::UNSIGNED_INT
            })
            &&& u16_indices ==> (l.index_data matches IndexData::U16(d) && d@ == st.data16)
            &&& !u16_indices ==> (l.index_data matches IndexData::U32(d) && d@ == st.data32)
        },
{
    if group.len() == 0 {
        return None;
    }
    if !meshes.contains_key(&group[0]) {
        return None;
    }
    let ghost maxv = spec_max_verts_per_buffer(u16_indices);
    let element_type = if u16_indices {
        gl::UNSIGNED_SHORT
    } else {
        gl::UNSIGNED_INT
    };
    let mut index_buffer_data_u16: Vec<u16> = Vec::new();
    let mut index_buffer_data_u32: Vec<u32> = Vec::new();
    let mut placements: Vec<Placement> = Vec::new();
    let mut vertex_offset: usize = 0;
    let mut index_offset: usize = 0;
    let mut k: usize = 0;
    while k < group.len()
        invariant
            k <= group@.len(),
            maxv == spec_max_verts_per_buffer(u16_indices),
            spec_group_have_positions(meshes@, group@),
            spec_group_fits(meshes@, maxv, group@),
            spec_group_indices_fit(meshes@, u16_indices, group@),
            ({
                let st = spec_layout_scan(meshes@, u16_indices, group@.take(k as int));
                &&& vertex_offset == st.vertex_offset
                &&& index_offset == st.index_offset
                &&& placements@ == st.placements
                &&& index_buffer_data_u16@ == st.data16
                &&& index_buffer_data_u32@ == st.data32
            }),
        decreases group@.len() - k,
    {
        let h = group[k];
        let ghost st = spec_layout_scan(meshes@, u16_indices, group@.take(k as int));
        proof {
            assert(group@.take(k + 1).drop_last() =~= group@.take(k as int));
            assert(group@.take(k + 1).last() == h);
            lemma_layout_scan_bounds(meshes@, u16_indices, group@.take(k as int));
            lemma_sum_prefix(meshes@, group@, k + 1);
        }
        match meshes.get(&h) {
            Some(mesh) => {
                assert(meshes@.contains_key(group@[k as int]));
                let vertex_count = match mesh.position_count {
                    Some(c) => c,
                    None => vstd::pervasive::unreached(),
                };
                assert(vertex_offset + vertex_count <= spec_sum_positions(meshes@, group@.take(k + 1)));
                assert(spec_member_indices_fit(meshes@, u16_indices, group@, k as int));
                let mut skip = false;
                let index_count = if u16_indices {
                    if vertex_count + vertex_offset >= u16::MAX as usize {
                        skip = true;
                        0
                    } else {
                        get_mesh_indices_u16(mesh, &mut index_buffer_data_u16, vertex_offset as u16)
                    }
                } else {
                    get_mesh_indices_u32(mesh, &mut index_buffer_data_u32, vertex_offset as u32)
                };
                if !skip {
                    assert(index_offset + index_count <= spec_sum_indices(meshes@, group@.take(k + 1)));
                    let width: i32 = if u16_indices { 2 } else { 4 };
                    placements.push(
                        Placement {
                            mesh: h,
                            indices_start: index_offset,
                            indices_count: index_count,
                            bytes_offset: index_offset as i32 * width,
                        },
                    );
                    index_offset = index_offset + index_count;
                    vertex_offset = vertex_offset + vertex_count;
                }
            },
            None => {},
        }
        k = k + 1;
    }
    assert(group@.take(k as int) =~= group@);
    let mut members: Vec<u64> = Vec::new();
    let mut m: usize = 0;
    while m < group.len()
        invariant
            m <= group@.len(),
            members@ == group@.take(m as int),
        decreases group@.len() - m,
    {
        members.push(group[m]);
        assert(group@.take(m + 1) =~= group@.take(m as int).push(group@[m as int]));
        m = m + 1;
    }
    assert(group@.take(m as int) =~= group@);
    let index_data = if u16_indices {
        IndexData::U16(index_buffer_data_u16)
    } else {
        IndexData::U32(index_buffer_data_u32)
    };
    Some(MeshGroupLayout { members, placements, index_data, index_element_type: element_type })
}

/// `l` is the layout of group `g` (what `layout_mesh_group` returns for it).
pub open spec fn spec_is_group_layout(
    l: MeshGroupLayout,
    meshes: Map<u64, MeshGeometry>,
    u16_indices: bool,
    g: Seq<u64>,
) -> bool {
    let st = spec_layout_scan(meshes, u16_indices, g);
    &&& l.members@ == g
    &&& l.placements@ == st.placements
    &&& l.index_element_type == (if u16_indices {
        gl::UNSIGNED_SHORT
    } else {
        gl::UNSIGNED_INT
    })
    &&& u16_indices ==> (l.index_data matches IndexData::U16(d) && d@ == st.data16)
    &&& !u16_indices ==> (l.index_data matches IndexData::U32(d) && d@ == st.data32)
    &&& forall|k: int|
        0 <= k < l.placements@.len() ==> l.members@.contains((#[trigger] l.placements@[k]).mesh)
}

/// Every group of `groups` has shifted indices that fit the index type.
pub open spec fn spec_all_groups_indices_fit(
    meshes: Map<u64, MeshGeometry>,
    u16_indices: bool,
    groups: Seq<Seq<u64>>,
) -> bool {
    forall|i: int| 0 <= i < groups.len() ==> spec_group_indices_fit(meshes, u16_indices, #[trigger] groups[i])
}

/// Groups a frame's changed meshes (grouped by vertex layout) into shared buffers and lays
/// out each group: one entry per group of `spec_mesh_groups`, `None` for an empty group
/// or one whose first mesh is unknown.
pub fn layout_mesh_groups(by_layout: &Vec<Vec<u64>>, meshes: &HashMap<u64, MeshGeometry>, u16_indices: bool) -> (r: (Vec<Vec<u64>>, Vec<Option<MeshGroupLayout>>))
    requires
        spec_meshes_have_positions(meshes@),
        spec_all_groups_indices_fit(
            meshes@,
            u16_indices,
            spec_mesh_groups(
                meshes@,
                spec_max_verts_per_buffer(u16_indices),
                by_layout@.map_values(|g: Vec<u64>| g@),
            ),
        ),
    ensures
        r.0@.map_values(|g: Vec<u64>| g@) == spec_mesh_groups(
            meshes@,
            spec_max_verts_per_buffer(u16_indices),
            by_layout@.map_values(|g: Vec<u64>| g@),
        ),
        r.1@.len() == r.0@.len(),
        forall|i: int| 0 <= i < r.1@.len() ==> {
            let g = (#[trigger] r.0@[i])@;
            &&& ((g.len() == 0 || !meshes@.contains_key(g[0])) <==> r.1@[i] is None)
            &&& (r.1@[i] matches Some(l) ==> spec_is_group_layout(l, meshes@, u16_indices, g))
        },
{
    let groups = plan_mesh_groups(by_layout, meshes, u16_indices);
    proof {
        let formed = spec_mesh_groups(
            meshes@,
            spec_max_verts_per_buffer(u16_indices),
            by_layout@.map_values(|g: Vec<u64>| g@),
        );
        assert forall|k: int| 0 <= k < groups@.len() implies spec_group_indices_fit(
            meshes@,
            u16_indices,
            (#[trigger] groups@[k])@,
        ) by {
            assert(groups@.map_values(|g: Vec<u64>| g@)[k] == groups@[k]@);
            assert(formed[k] == groups@[k]@);
        }
    }
    let mut layouts: Vec<Option<MeshGroupLayout>> = Vec::new();
    let mut i: usize = 0;
    while i < groups.len()
        invariant
            i <= groups@.len(),
            layouts@.len() == i,
            spec_meshes_have_positions(meshes@),
            forall|k: int|
                0 <= k < groups@.len() ==> spec_group_indices_fit(meshes@, u16_indices, (#[trigger] groups@[k])@),
            forall|k: int|
                0 <= k < groups@.len() ==> spec_group_fits(
                    meshes@,
                    spec_max_verts_per_buffer(u16_indices),
                    (#[trigger] groups@[k])@,
                ),
            forall|k: int| 0 <= k < i ==> {
                let g = (#[trigger] groups@[k])@;
                &&& ((g.len() == 0 || !meshes@.contains_key(g[0])) <==> layouts@[k] is None)
                &&& (layouts@[k] matches Some(l) ==> spec_is_group_layout(l, meshes@, u16_indices, g))
            },
        decreases groups@.len() - i,
    {
        let g = &groups[i];
        assert(spec_group_fits(meshes@, spec_max_verts_per_buffer(u16_indices), groups@[i as int]@));
        assert(spec_group_have_positions(meshes@, g@));
        let l = layout_mesh_group(g, meshes, u16_indices);
        proof {
            lemma_layout_scan_bounds(meshes@, u16_indices, g@);
        }
        layouts.push(l);
        i = i + 1;
    }
    (groups, layouts)
}

/// What happened to a mesh asset since the last frame.
pub enum MeshEvent {
    /// The mesh was added, modified, or loaded with its dependencies. `layout_key`
    /// identifies the mesh's vertex layout (names and formats of its attributes); it is
    /// `None` when the mesh asset is not available any more.
    Changed { id: u64, layout_key: Option<u64> },
    /// The mesh asset was removed.
    Removed { id: u64 },
    /// The mesh asset is no longer used.
    Unused { id: u64 },
}

/// What one frame's mesh events ask of the renderer: the meshes to forget, and the
/// changed meshes grouped by vertex layout (layouts in the order they were first seen,
/// meshes in event order).
pub struct MeshEventPlan {
    pub removed: Vec<u64>,
    pub layout_keys: Vec<u64>,
    pub by_layout: Vec<Vec<u64>>,
}

pub open spec fn spec_removed_ids(events: Seq<MeshEvent>) -> Seq<u64>
    decreases events.len(),
{
    if events.len() == 0 {
        Seq::empty()
    } else {
        let rest = spec_removed_ids(events.drop_last());
        match events.last() {
            MeshEvent::Removed { id } => rest.push(id),
            _ => rest,
        }
    }
}

pub open spec fn spec_layout_keys(events: Seq<MeshEvent>) -> Seq<u64>
    decreases events.len(),
{
    if events.len() == 0 {
        Seq::empty()
    } else {
        let rest = spec_layout_keys(events.drop_last());
        match events.last() {
            MeshEvent::Changed { id: _, layout_key: Some(k) } => if rest.contains(k) {
                rest
            } else {
                rest.push(k)
            },
            _ => rest,
        }
    }
}

pub open spec fn spec_ids_with_layout(events: Seq<MeshEvent>, key: u64) -> Seq<u64>
    decreases events.len(),
{
    if events.len() == 0 {
        Seq::empty()
    } else {
        let rest = spec_ids_with_layout(events.drop_last(), key);
        match events.last() {
            MeshEvent::Changed { id, layout_key: Some(k) } => if k == key {
                rest.push(id)
            } else {
                rest
            },
            _ => rest,
        }
    }
}

/// Sorts one frame's mesh events: removed meshes in event order, and changed meshes
/// whose asset is available grouped by layout key. A mesh reported twice is listed twice.
pub fn plan_mesh_events(events: &Vec<MeshEvent>) -> (plan: MeshEventPlan)
    ensures
        plan.removed@ == spec_removed_ids(events@),
        plan.layout_keys@ == spec_layout_keys(events@),
        plan.by_layout@.len() == plan.layout_keys@.len(),
        forall|i: int|
            0 <= i < plan.by_layout@.len() ==> (#[trigger] plan.by_layout@[i])@
                == spec_ids_with_layout(events@, plan.layout_keys@[i]),
{
    let mut removed: Vec<u64> = Vec::new();
    let mut layout_keys: Vec<u64> = Vec::new();
    let mut by_layout: Vec<Vec<u64>> = Vec::new();
    let mut e: usize = 0;
    while e < events.len()
        invariant
            e <= events@.len(),
            removed@ == spec_removed_ids(events@.take(e as int)),
            layout_keys@ == spec_layout_keys(events@.take(e as int)),
            by_layout@.len() == layout_keys@.len(),
            forall|a: int, b: int|
                0 <= a < b < layout_keys@.len() ==> (#[trigger] layout_keys@[a]) != (
                #[trigger] layout_keys@[b]),
            forall|i: int|
                0 <= i < by_layout@.len() ==> (#[trigger] by_layout@[i])@ == spec_ids_with_layout(
                    events@.take(e as int),
                    layout_keys@[i],
                ),
            forall|k: u64|
                !layout_keys@.contains(k) ==> spec_ids_with_layout(events@.take(e as int), k)
                    == Seq::<u64>::empty(),
        decreases events@.len() - e,
    {
        let ghost pre = events@.take(e as int);
        let ghost cur = events@.take(e + 1);
        assert(cur.drop_last() =~= pre);
        assert(cur.last() == events@[e as int]);
        match &events[e] {
            MeshEvent::Removed { id } => {
                removed.push(*id);
                assert forall|k: u64| spec_ids_with_layout(cur, k) == spec_ids_with_layout(pre, k) by {}
            },
            MeshEvent::Unused { id: _ } => {
                assert forall|k: u64| spec_ids_with_layout(cur, k) == spec_ids_with_layout(pre, k) by {}
            },
            MeshEvent::Changed { id, layout_key } => {
                match layout_key {
                    None => {
                        assert forall|k: u64| spec_ids_with_layout(cur, k) == spec_ids_with_layout(pre, k) by {}
                    },
                    Some(key) => {
                        let key = *key;
                        let id = *id;
                        let mut i: usize = 0;
                        while i < layout_keys.len()
                            invariant
                                i <= layout_keys@.len(),
                                forall|j: int| 0 <= j < i ==> layout_keys@[j] != key,
                            ensures
                                i <= layout_keys@.len(),
                                forall|j: int| 0 <= j < i ==> layout_keys@[j] != key,
                                i < layout_keys@.len() ==> layout_keys@[i as int] == key,
                            decreases layout_keys@.len() - i,
                        {
                            if layout_keys[i] == key {
                                break;
                            }
                            i = i + 1;
                        }
                        let found = i < layout_keys.len();
                        let ghost keys_before = layout_keys@;
                        assert(spec_ids_with_layout(cur, key) == spec_ids_with_layout(pre, key).push(id));
                        assert(forall|k: u64| k != key ==> spec_ids_with_layout(cur, k) == spec_ids_with_layout(pre, k));
                        if found {
                            assert(layout_keys@[i as int] == key);
                            let ghost before = by_layout@;
                            by_layout[i].push(id);
                            assert forall|j: int| 0 <= j < by_layout@.len() implies (#[trigger] by_layout@[j])@
                                == spec_ids_with_layout(cur, layout_keys@[j]) by {
                                if j != i {
                                    assert(by_layout@[j] == before[j]);
                                }
                            }
                        } else {
                            assert(!layout_keys@.contains(key));
                            let mut list: Vec<u64> = Vec::new();
                            list.push(id);
                            assert(spec_ids_with_layout(pre, key) == Seq::<u64>::empty());
                            assert(list@ =~= spec_ids_with_layout(cur, key));
                            layout_keys.push(key);
                            by_layout.push(list);
                            assert forall|j: int| 0 <= j < by_layout@.len() implies (#[trigger] by_layout@[j])@
                                == spec_ids_with_layout(cur, layout_keys@[j]) by {}
                        }
                        assert forall|k: u64| !layout_keys@.contains(k) implies spec_ids_with_layout(cur, k)
                            == Seq::<u64>::empty() by {
                            if k == key {
                                assert(layout_keys@.contains(key)) by {
                                    if found {
                                        assert(layout_keys@[i as int] == key);
                                    } else {
                                        assert(layout_keys@[layout_keys@.len() - 1] == key);
                                    }
                                }
                            } else {
                                assert(spec_ids_with_layout(cur, k) == spec_ids_with_layout(pre, k));
                                if found {
                                    assert(layout_keys@ == keys_before);
                                } else {
                                    assert(layout_keys@.drop_last() == keys_before);
                                    assert(!layout_keys@.drop_last().contains(k)) by {
                                        if layout_keys@.drop_last().contains(k) {
                                            let j = choose|j: int| 0 <= j < layout_keys@.drop_last().len() && layout_keys@.drop_last()[j] == k;
                                            assert(layout_keys@[j] == k);
                                        }
                                    }
                                }
                            }
                        }
                    },
                }
            },
        }
        e = e + 1;
    }
    assert(events@.take(e as int) =~= events@);
    MeshEventPlan { removed, layout_keys, by_layout }
}

} // verus!
