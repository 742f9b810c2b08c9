//! Index buffers of meshes: the indices a mesh draws with, shifted by the
//! position of the mesh's vertices inside a shared vertex buffer.

use vstd::prelude::*;

verus! {

/// The index list of a mesh, in the width it was authored in.
pub enum Indices {
    U16(Vec<u16>),
    U32(Vec<u32>),
}

impl Indices {
    pub open spec fn spec_len(&self) -> nat {
        match self {
            Indices::U16(v) => v@.len(),
            Indices::U32(v) => v@.len(),
        }
    }

    pub fn len(&self) -> (r: usize)
        ensures
            r == self.spec_len(),
    {
        match self {
            Indices::U16(v) => v.len(),
            Indices::U32(v) => v.len(),
        }
    }
}

/// What the renderer reads of a mesh's geometry: the number of vertex
/// positions (when the mesh has a position attribute) and its indices.
pub struct MeshGeometry {
    pub position_count: Option<usize>,
    pub indices: Option<Indices>,
}

impl MeshGeometry {
    /// The number of indices a draw of this mesh uses: its index count, or one
    /// index per vertex for a mesh without indices.
    pub open spec fn spec_index_count(&self) -> nat {
        match self.indices {
            Some(ind) => ind.spec_len(),
            None => self.position_count->0 as nat,
        }
    }
}

/// The 16-bit indices appended for `mesh`, each shifted by `offset`.
pub open spec fn spec_mesh_indices_u16(mesh: MeshGeometry, offset: u16) -> Seq<u16> {
    match mesh.indices {
        Some(Indices::U16(v)) => v@.map_values(|i: u16| (i + offset) as u16),
        Some(Indices::U32(v)) => v@.map_values(|i: u32| ((i as u16) + offset) as u16),
        None => Seq::new(
            (mesh.position_count->0 as u16) as nat,
            |k: int| (offset + k) as u16,
        ),
    }
}

/// The 32-bit indices appended for `mesh`, each shifted by `offset`.
pub open spec fn spec_mesh_indices_u32(mesh: MeshGeometry, offset: u32) -> Seq<u32> {
    match mesh.indices {
        Some(Indices::U16(v)) => v@.map_values(|i: u16| ((i as u32) + offset) as u32),
        Some(Indices::U32(v)) => v@.map_values(|i: u32| (i + offset) as u32),
        None => Seq::new(
            (mesh.position_count->0 as u32) as nat,
            |k: int| (offset + k) as u32,
        ),
    }
}

/// The inputs on which shifting the indices of `mesh` by `offset` stays within 16 bits:
/// every shifted index fits, and a mesh without indices has positions.
pub open spec fn spec_fits_u16(mesh: MeshGeometry, offset: u16) -> bool {
    match mesh.indices {
        Some(Indices::U16(v)) => forall|k: int| 0 <= k < v@.len() ==> v@[k] + offset <= u16::MAX,
        Some(Indices::U32(v)) => forall|k: int|
            0 <= k < v@.len() ==> (v@[k] as u16) + offset <= u16::MAX,
        None => mesh.position_count is Some && (mesh.position_count->0 as u16) + offset
            <= u16::MAX,
    }
}

/// The inputs on which shifting the indices of `mesh` by `offset` stays within 32 bits.
pub open spec fn spec_fits_u32(mesh: MeshGeometry, offset: u32) -> bool {
    match mesh.indices {
        Some(Indices::U16(v)) => forall|k: int| 0 <= k < v@.len() ==> v@[k] + offset <= u32::MAX,
        Some(Indices::U32(v)) => forall|k: int| 0 <= k < v@.len() ==> v@[k] + offset <= u32::MAX,
        None => mesh.position_count is Some && (mesh.position_count->0 as u32) + offset
            <= u32::MAX,
    }
}

/// Appends the mesh's indices, shifted by `offset`, to `index_buffer_data` and returns
/// the mesh's index count. A mesh without indices gets the indices
/// `offset .. offset + vertex_count` (the count taken as a 16-bit number).
pub fn get_mesh_indices_u16(mesh: &MeshGeometry, index_buffer_data: &mut Vec<u16>, offset: u16) -> (r: usize)
    requires
        spec_fits_u16(*mesh, offset),
    ensures
        final(index_buffer_data)@ == old(index_buffer_data)@ + spec_mesh_indices_u16(*mesh, offset),
        r == mesh.spec_index_count(),
{
    match &mesh.indices {
        Some(indices) => {
            match indices {
                Indices::U16(v) => {
                    let ghost start = index_buffer_data@;
                    let mut k: usize = 0;
                    while k < v.len()
                        invariant
                            k <= v@.len(),
                            mesh.indices == Some(Indices::U16(*v)),
                            forall|j: int| 0 <= j < v@.len() ==> #[trigger] v@[j] + offset <= u16::MAX,
                            index_buffer_data@ == start + v@.take(k as int).map_values(
                                |i: u16| (i + offset) as u16,
                            ),
                        decreases v@.len() - k,
                    {
                        assert(v@[k as int] + offset <= u16::MAX);
                        index_buffer_data.push(v[k] + offset);
                        assert(v@.take(k + 1) == v@.take(k as int).push(v@[k as int]));
                        k = k + 1;
                    }
                    assert(v@.take(k as int) == v@);
                },
                Indices::U32(v) => {
                    let ghost start = index_buffer_data@;
                    let mut k: usize = 0;
                    while k < v.len()
                        invariant
                            k <= v@.len(),
                            mesh.indices == Some(Indices::U32(*v)),
                            forall|j: int| 0 <= j < v@.len() ==> #[trigger] (v@[j] as u16) + offset <= u16::MAX,
                            index_buffer_data@ == start + v@.take(k as int).map_values(
                                |i: u32| ((i as u16) + offset) as u16,
                            ),
                        decreases v@.len() - k,
                    {
                        assert((v@[k as int] as u16) + offset <= u16::MAX);
                        index_buffer_data.push(#[verifier::truncate] (v[k] as u16) + offset);
                        assert(v@.take(k + 1) == v@.take(k as int).push(v@[k as int]));
                        k = k + 1;
                    }
                    assert(v@.take(k as int) == v@);
                },
            }
            indices.len()
        },
        None => {
            let vertex_count = match mesh.position_count {
                Some(c) => c,
                None => vstd::pervasive::unreached(),
            };
            let end: u16 = #[verifier::truncate] (vertex_count as u16) + offset;
            let ghost start = index_buffer_data@;
            let mut i: u16 = offset;
            while i < end
                invariant
                    offset <= i <= end,
                    end == #[verifier::truncate] (vertex_count as u16) + offset,
                    index_buffer_data@ == start + Seq::new(
                        (i - offset) as nat,
                        |k: int| (offset + k) as u16,
                    ),
                decreases end - i,
            {
                index_buffer_data.push(i);
                assert(Seq::new((i + 1 - offset) as nat, |k: int| (offset + k) as u16) =~= Seq::new(
                    (i - offset) as nat,
                    |k: int| (offset + k) as u16,
                ).push(i));
                i = i + 1;
            }
            vertex_count
        },
    }
}

/// Appends the mesh's indices, shifted by `offset`, to `index_buffer_data` and returns
/// the mesh's index count. A mesh without indices gets the indices
/// `offset .. offset + vertex_count` (the count taken as a 32-bit number).
pub fn get_mesh_indices_u32(mesh: &MeshGeometry, index_buffer_data: &mut Vec<u32>, offset: u32) -> (r: usize)
    requires
        spec_fits_u32(*mesh, offset),
    ensures
        final(index_buffer_data)@ == old(index_buffer_data)@ + spec_mesh_indices_u32(*mesh, offset),
        r == mesh.spec_index_count(),
{
    match &mesh.indices {
        Some(indices) => {
            match indices {
                Indices::U16(v) => {
                    let ghost start = index_buffer_data@;
                    let mut k: usize = 0;
                    while k < v.len()
                        invariant
                            k <= v@.len(),
                            mesh.indices == Some(Indices::U16(*v)),
                            forall|j: int| 0 <= j < v@.len() ==> #[trigger] v@[j] + offset <= u32::MAX,
                            index_buffer_data@ == start + v@.take(k as int).map_values(
                                |i: u16| ((i as u32) + offset) as u32,
                            ),
                        decreases v@.len() - k,
                    {
                        assert(v@[k as int] + offset <= u32::MAX);
                        index_buffer_data.push(v[k] as u32 + offset);
                        assert(v@.take(k + 1) == v@.take(k as int).push(v@[k as int]));
                        k = k + 1;
                    }
                    assert(v@.take(k as int) == v@);
                },
                Indices::U32(v) => {
                    let ghost start = index_buffer_data@;
                    let mut k: usize = 0;
                    while k < v.len()
                        invariant
                            k <= v@.len(),
                            mesh.indices == Some(Indices::U32(*v)),
                            forall|j: int| 0 <= j < v@.len() ==> #[trigger] v@[j] + offset <= u32::MAX,
                            index_buffer_data@ == start + v@.take(k as int).map_values(
                                |i: u32| (i + offset) as u32,
                            ),
                        decreases v@.len() - k,
                    {
                        assert(v@[k as int] + offset <= u32::MAX);
                        index_buffer_data.push(v[k] + offset);
                        assert(v@.take(k + 1) == v@.take(k as int).push(v@[k as int]));
                        k = k + 1;
                    }
                    assert(v@.take(k as int) == v@);
                },
            }
            indices.len()
        },
        None => {
            let vertex_count = match mesh.position_count {
                Some(c) => c,
                None => vstd::pervasive::unreached(),
            };
            let end: u32 = #[verifier::truncate] (vertex_count as u32) + offset;
            let ghost start = index_buffer_data@;
            let mut i: u32 = offset;
            while i < end
                invariant
                    offset <= i <= end,
                    end == #[verifier::truncate] (vertex_count as u32) + offset,
                    index_buffer_data@ == start + Seq::new(
                        (i - offset) as nat,
                        |k: int| (offset + k) as u32,
                    ),
                decreases end - i,
            {
                index_buffer_data.push(i);
                assert(Seq::new((i + 1 - offset) as nat, |k: int| (offset + k) as u32) =~= Seq::new(
                    (i - offset) as nat,
                    |k: int| (offset + k) as u32,
                ).push(i));
                i = i + 1;
            }
            vertex_count
        },
    }
}

/// Every appended index is the mesh's own index shifted by `offset`: for an indexed mesh
/// the `k`-th index plus `offset`, for a mesh without indices `offset + k` for each of its
/// vertices, so the indices of a mesh placed after others name its own vertices.
pub proof fn lemma_indices_shifted_by_offset(mesh: MeshGeometry, offset16: u16, offset32: u32)
    ensures
        spec_fits_u16(mesh, offset16) ==> {
            let out = spec_mesh_indices_u16(mesh, offset16);
            &&& mesh.indices matches Some(Indices::U16(v)) ==> out.len() == v@.len() && forall|k: int|
                0 <= k < v@.len() ==> out[k] == v@[k] + offset16
            &&& mesh.indices matches Some(Indices::U32(v)) ==> out.len() == v@.len() && forall|k: int|
                0 <= k < v@.len() ==> out[k] == (v@[k] as u16) + offset16
        },
        mesh.indices is None && mesh.position_count is Some && mesh.position_count->0 + offset16
            <= u16::MAX ==> {
            let out = spec_mesh_indices_u16(mesh, offset16);
            &&& out.len() == mesh.position_count->0
            &&& forall|k: int| 0 <= k < out.len() ==> out[k] == offset16 + k
        },
        spec_fits_u32(mesh, offset32) ==> {
            let out = spec_mesh_indices_u32(mesh, offset32);
            &&& mesh.indices matches Some(Indices::U16(v)) ==> out.len() == v@.len() && forall|k: int|
                0 <= k < v@.len() ==> out[k] == v@[k] + offset32
            &&& mesh.indices matches Some(Indices::U32(v)) ==> out.len() == v@.len() && forall|k: int|
                0 <= k < v@.len() ==> out[k] == v@[k] + offset32
        },
        mesh.indices is None && mesh.position_count is Some && mesh.position_count->0 + offset32
            <= u32::MAX ==> {
            let out = spec_mesh_indices_u32(mesh, offset32);
            &&& out.len() == mesh.position_count->0
            &&& forall|k: int| 0 <= k < out.len() ==> out[k] == offset32 + k
        },
{
}

} // verus!
