use std::collections::HashMap;

use bevy_opengl::mesh_buffers::{BufferRef, GPUMeshBufferMap};
use bevy_opengl::mesh_indices::{get_mesh_indices_u16, get_mesh_indices_u32, Indices, MeshGeometry};
use bevy_opengl::mesh_layout::{
    group_indices_fit, layout_mesh_group, layout_mesh_groups, plan_mesh_events, plan_mesh_groups,
    IndexData, MeshEvent, MeshGroupLayout, Placement,
};

fn indexed(positions: usize, indices: Vec<u16>) -> MeshGeometry {
    MeshGeometry { position_count: Some(positions), indices: Some(Indices::U16(indices)) }
}

fn unindexed(positions: usize) -> MeshGeometry {
    MeshGeometry { position_count: Some(positions), indices: None }
}

#[test]
fn mesh_indices_shifted_by_offset() {
    let mut data16: Vec<u16> = vec![9];
    assert_eq!(get_mesh_indices_u16(&indexed(3, vec![0, 1, 2]), &mut data16, 5), 3);
    assert_eq!(data16, vec![9, 5, 6, 7]);
    let mut data32: Vec<u32> = vec![];
    assert_eq!(get_mesh_indices_u32(&unindexed(4), &mut data32, 2), 4);
    assert_eq!(data32, vec![2, 3, 4, 5]);
    let wide = MeshGeometry { position_count: Some(2), indices: Some(Indices::U32(vec![1, 0])) };
    let mut data32b: Vec<u32> = vec![];
    assert_eq!(get_mesh_indices_u32(&wide, &mut data32b, 100), 2);
    assert_eq!(data32b, vec![101, 100]);
}

#[test]
fn shifted_indices_must_fit_the_index_type() {
    let mut meshes = HashMap::new();
    meshes.insert(1u64, unindexed(3));
    meshes.insert(2u64, indexed(2, vec![0, 65533]));
    // the second mesh is shifted by 3: 65533 + 3 does not fit 16 bits
    assert!(!group_indices_fit(&vec![1, 2], &meshes, true));
    assert!(group_indices_fit(&vec![2, 1], &meshes, true));
    assert!(group_indices_fit(&vec![1, 2], &meshes, false));
}

#[test]
fn out_of_range_indices_are_uploaded_as_given() {
    let mut meshes = HashMap::new();
    meshes.insert(1u64, unindexed(2));
    meshes.insert(2u64, indexed(3, vec![0, 7]));
    assert!(group_indices_fit(&vec![1, 2], &meshes, false));
    let layout = layout_mesh_group(&vec![1, 2], &meshes, false).unwrap();
    match layout.index_data {
        IndexData::U32(d) => assert_eq!(d, vec![0, 1, 2, 9]),
        IndexData::U16(_) => panic!("expected 32-bit indices"),
    }
}

#[test]
fn meshes_of_one_layout_share_a_group() {
    let mut meshes = HashMap::new();
    meshes.insert(1u64, indexed(3, vec![0, 1, 2]));
    meshes.insert(2u64, unindexed(4));
    let groups = plan_mesh_groups(&vec![vec![1, 2]], &meshes, false);
    assert_eq!(groups, vec![vec![1, 2]]);
    let layout = layout_mesh_group(&groups[0], &meshes, false).unwrap();
    assert_eq!(layout.members, vec![1, 2]);
    assert_eq!(
        layout.placements,
        vec![
            Placement { mesh: 1, indices_start: 0, indices_count: 3, bytes_offset: 0 },
            Placement { mesh: 2, indices_start: 3, indices_count: 4, bytes_offset: 12 },
        ]
    );
    assert_eq!(layout.index_element_type, glow::UNSIGNED_INT);
    match layout.index_data {
        IndexData::U32(d) => assert_eq!(d, vec![0, 1, 2, 3, 4, 5, 6]),
        IndexData::U16(_) => panic!("expected 32-bit indices"),
    }
}

#[test]
fn sixteen_bit_layout() {
    let mut meshes = HashMap::new();
    meshes.insert(1u64, indexed(3, vec![2, 1, 0]));
    meshes.insert(2u64, indexed(2, vec![0, 1, 1]));
    let layout = layout_mesh_group(&vec![1, 2], &meshes, true).unwrap();
    assert_eq!(layout.index_element_type, glow::UNSIGNED_SHORT);
    assert_eq!(layout.placements[1], Placement { mesh: 2, indices_start: 3, indices_count: 3, bytes_offset: 6 });
    match layout.index_data {
        IndexData::U16(d) => assert_eq!(d, vec![2, 1, 0, 3, 4, 4]),
        IndexData::U32(_) => panic!("expected 16-bit indices"),
    }
    assert!(layout_mesh_group(&vec![], &meshes, true).is_none());
    assert!(layout_mesh_group(&vec![7, 1], &meshes, true).is_none());
}

#[test]
fn overflowing_mesh_closes_group_and_is_skipped() {
    let mut meshes = HashMap::new();
    meshes.insert(10u64, unindexed(40000));
    meshes.insert(11u64, unindexed(40000));
    meshes.insert(12u64, unindexed(10));
    let groups = plan_mesh_groups(&vec![vec![10, 11, 12]], &meshes, true);
    assert_eq!(groups, vec![vec![10], vec![12]]);
    let groups32 = plan_mesh_groups(&vec![vec![10, 11, 12]], &meshes, false);
    assert_eq!(groups32, vec![vec![10, 11, 12]]);
}

#[test]
fn layouts_of_all_groups() {
    let mut meshes = HashMap::new();
    meshes.insert(1u64, indexed(3, vec![0, 1, 2]));
    meshes.insert(2u64, unindexed(4));
    meshes.insert(3u64, unindexed(5));
    let (groups, layouts) = layout_mesh_groups(&vec![vec![1, 2], vec![3, 9]], &meshes, false);
    // mesh 9 is not available: it is left out
    assert_eq!(groups, vec![vec![1, 2], vec![3]]);
    assert_eq!(layouts.len(), 2);
    let second = layouts[1].as_ref().unwrap();
    assert_eq!(second.placements, vec![Placement { mesh: 3, indices_start: 0, indices_count: 5, bytes_offset: 0 }]);
}

#[test]
fn mesh_events_grouped_by_layout() {
    let events = vec![
        MeshEvent::Changed { id: 1, layout_key: Some(7) },
        MeshEvent::Changed { id: 2, layout_key: Some(9) },
        MeshEvent::Removed { id: 3 },
        MeshEvent::Changed { id: 4, layout_key: Some(7) },
        MeshEvent::Changed { id: 5, layout_key: None },
        MeshEvent::Unused { id: 6 },
    ];
    let plan = plan_mesh_events(&events);
    assert_eq!(plan.removed, vec![3]);
    assert_eq!(plan.layout_keys, vec![7, 9]);
    assert_eq!(plan.by_layout, vec![vec![1, 4], vec![2]]);
}

fn group_layout(members: Vec<u64>, placements: Vec<Placement>) -> MeshGroupLayout {
    MeshGroupLayout { members, placements, index_data: IndexData::U32(vec![]), index_element_type: glow::UNSIGNED_INT }
}

fn place(mesh: u64, start: usize, count: usize) -> Placement {
    Placement { mesh, indices_start: start, indices_count: count, bytes_offset: (start * 4) as i32 }
}

#[test]
fn buffer_map_commit_bind_and_free() {
    let mut map: GPUMeshBufferMap<&'static str> = GPUMeshBufferMap::new();
    let freed = map.commit_mesh_group(&group_layout(vec![1, 2], vec![place(1, 0, 3), place(2, 3, 6)]), "first");
    assert!(freed.is_empty());
    assert_eq!(map.slot_count(), 1);
    assert_eq!(
        map.get(2),
        Some(BufferRef { buffer_index: 0, indices_start: 3, indices_count: 6, index_element_type: glow::UNSIGNED_INT, bytes_offset: 12 })
    );
    assert_eq!(map.get(5), None);

    // the first bind binds, the next ones with the same shader and buffers do not
    let (r1, rebind1) = map.bind_mesh(1, 4).unwrap();
    assert!(rebind1);
    assert_eq!(r1.indices_count, 3);
    assert!(!map.bind_mesh(1, 4).unwrap().1);
    assert!(!map.bind_mesh(2, 4).unwrap().1);
    assert!(map.bind_mesh(2, 5).unwrap().1);
    map.reset_mesh_bind_cache();
    assert!(map.bind_mesh(2, 5).unwrap().1);
    assert!(map.bind_mesh(9, 5).is_none());

    // mesh 2 moves to a new buffer set; the first set keeps mesh 1
    let freed = map.commit_mesh_group(&group_layout(vec![2], vec![place(2, 0, 6)]), "second");
    assert!(freed.is_empty());
    assert_eq!(map.get(2).unwrap().buffer_index, 1);
    assert_eq!(map.buffer_set(0), Some(&"first"));

    // mesh 1 moves too: the first set is left empty and freed
    let freed = map.commit_mesh_group(&group_layout(vec![1], vec![place(1, 0, 3)]), "third");
    assert_eq!(freed, vec![(0, "first")]);
    assert_eq!(map.buffer_set(0), None);
    assert_eq!(map.get(1).unwrap().buffer_index, 2);

    // removing the last mesh of a set frees it
    assert_eq!(map.remove_mesh(2), Some("second"));
    assert_eq!(map.get(2), None);
    assert_eq!(map.remove_mesh(2), None);
    assert_eq!(map.buffer_set(1), None);
    assert_eq!(map.buffer_set(2), Some(&"third"));
}
