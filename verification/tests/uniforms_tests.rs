use bevy_opengl::cull::CullCommand;
use bevy_opengl::gpu_images::{GpuImages, Tex};
use bevy_opengl::shader_cache::ShaderCache;
use bevy_opengl::uniforms::{load_if_new, load_tex_if_new, set_tex, LocationCache, ProgramState, SlotData, TextureBind};

#[test]
fn value_uniform_uploaded_only_when_changed() {
    let mut slot: SlotData<u32> = SlotData::Uniform { init: false, previous: vec![], location: 3 };
    assert!(load_if_new(vec![1, 2], &mut slot));
    assert!(!load_if_new(vec![1, 2], &mut slot));
    assert!(load_if_new(vec![1, 3], &mut slot));
    assert!(!load_if_new(vec![1, 3], &mut slot));
    // an empty value is still uploaded the first time
    let mut fresh: SlotData<u32> = SlotData::Uniform { init: false, previous: vec![], location: 4 };
    assert!(load_if_new(vec![], &mut fresh));
    assert!(!load_if_new(vec![], &mut fresh));
    match slot {
        SlotData::Uniform { init, previous, location } => {
            assert!(init);
            assert_eq!(previous, vec![1, 3]);
            assert_eq!(location, 3);
        }
        SlotData::Texture { .. } => panic!("expected a value uniform"),
    }
}

#[test]
fn sampler_bound_only_when_texture_changes() {
    let mut images = GpuImages::new();
    images.set_placeholder(1);
    images.insert_image(8, 20, glow::TEXTURE_CUBE_MAP);
    let mut slot: SlotData<u32> = SlotData::Texture { target: glow::TEXTURE_2D, texture_slot: 2, previous: None, location: 7 };
    assert_eq!(
        load_tex_if_new(&Tex::Image(Some(8)), &images, &mut slot),
        Some(TextureBind { unit: 2, target: glow::TEXTURE_CUBE_MAP, texture: 20 })
    );
    assert_eq!(load_tex_if_new(&Tex::Image(Some(8)), &images, &mut slot), None);
    // a missing image binds the placeholder, keeping the last target
    assert_eq!(
        load_tex_if_new(&Tex::Image(Some(9)), &images, &mut slot),
        Some(TextureBind { unit: 2, target: glow::TEXTURE_CUBE_MAP, texture: 1 })
    );
    assert_eq!(
        load_tex_if_new(&Tex::Gl(55), &images, &mut slot),
        Some(TextureBind { unit: 2, target: glow::TEXTURE_CUBE_MAP, texture: 55 })
    );
}

#[test]
fn program_state_units_and_cull() {
    let mut images = GpuImages::new();
    images.set_placeholder(1);
    let mut state: ProgramState<u64, u32> = ProgramState::new();
    assert_eq!(state.use_cached_program(2), Some(CullCommand::Enable(glow::BACK)));
    assert_eq!(state.use_cached_program(3), None);
    assert_eq!(state.current_program, Some(3));
    let slots = state.map_uniform_set_locations(&vec![false, true, true, true], vec![Some(10u32), Some(11), None, Some(13)]);
    assert_eq!(slots.len(), 4);
    assert!(matches!(slots[0], Some(SlotData::Uniform { init: false, location: 10, .. })));
    assert!(matches!(slots[1], Some(SlotData::Texture { texture_slot: 0, location: 11, target, previous: None }) if target == glow::TEXTURE_2D));
    assert!(slots[2].is_none());
    assert!(matches!(slots[3], Some(SlotData::Texture { texture_slot: 1, location: 13, .. })));
    assert_eq!(state.current_texture_slot_count, 2);
    assert_eq!(state.load_tex(&Tex::Gl(70), &images), TextureBind { unit: 2, target: glow::TEXTURE_2D, texture: 70 });
    assert_eq!(state.current_texture_slot_count, 3);
    assert_eq!(set_tex(&Tex::Image(None), &images, 5), TextureBind { unit: 5, target: glow::TEXTURE_2D, texture: 1 });
    state.uniform_slots.insert(7, slots);
    state.locations.insert(vec!['t'], Some(3));
    // binding another program starts the units again and forgets what was found
    state.use_cached_program(4);
    assert_eq!(state.current_texture_slot_count, 0);
    assert!(state.uniform_slots.is_empty());
    assert_eq!(state.locations.get(&vec!['t']), None);
}

#[test]
fn shader_cache_indices_are_stable() {
    let mut cache: ShaderCache<&'static str, u8> = ShaderCache::new();
    assert_eq!(cache.lookup(42), None);
    assert_eq!(cache.insert(42, "a", 1), 0);
    assert_eq!(cache.insert(43, "b", 2), 1);
    assert_eq!(cache.lookup(42), Some((0, &1)));
    assert_eq!(cache.lookup(43), Some((1, &2)));
    assert_eq!(cache.replace(0, "a2"), "a");
    assert_eq!(*cache.program(0), "a2");
    assert_eq!(*cache.program(1), "b");
    assert_eq!(cache.len(), 2);
}

#[test]
fn location_cache_remembers_lookups() {
    let mut cache: LocationCache<u32> = LocationCache::new();
    let name: Vec<char> = "ub_metallic".chars().collect();
    let missing: Vec<char> = "unused".chars().collect();
    assert_eq!(cache.get(&name), None);
    cache.insert(name.clone(), Some(4));
    cache.insert(missing.clone(), None);
    assert_eq!(cache.get(&name), Some(&Some(4)));
    assert_eq!(cache.get(&missing), Some(&None));
    cache.insert(name.clone(), Some(9));
    assert_eq!(cache.get(&name), Some(&Some(9)));
    cache.clear();
    assert_eq!(cache.get(&name), None);
}
