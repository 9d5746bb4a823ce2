use gpu_ui::font_system::FontSystem;
use gpu_ui::texture_manager::{AddressMode, FilterMode, IdAllocator, SamplerKind, SamplerParams, TextureRegistry};

#[test]
fn sampler_kinds_map_to_settings() {
    assert_eq!(
        SamplerKind::Clamp.sampler_params(),
        SamplerParams {
            address_mode: AddressMode::ClampToEdge,
            mag_filter: FilterMode::Linear,
            min_filter: FilterMode::Linear,
            mipmap_filter: FilterMode::Nearest,
        }
    );
    assert_eq!(SamplerKind::RepeatNearest.sampler_params().address_mode, AddressMode::Repeat);
    assert_eq!(SamplerKind::RepeatNearest.sampler_params().min_filter, FilterMode::Nearest);
    assert_eq!(SamplerKind::ClampNearest.sampler_params().mag_filter, FilterMode::Nearest);
    assert_eq!(SamplerKind::Repeat.sampler_params().mag_filter, FilterMode::Linear);
    assert_eq!(
        SamplerKind::all(),
        vec![SamplerKind::Clamp, SamplerKind::Repeat, SamplerKind::ClampNearest, SamplerKind::RepeatNearest]
    );
}

#[test]
fn ids_start_at_one_and_count_up() {
    let mut a = IdAllocator::new();
    assert_eq!(a.peek(), 1);
    assert_eq!(a.allocate(), 1);
    assert_eq!(a.allocate(), 2);
    assert_eq!(a.peek(), 3);
}

#[test]
fn registry_remembers_sizes() {
    let mut r = TextureRegistry::new();
    assert_eq!(r.get_size("icon"), None);
    let a = r.register("icon", 16, 32);
    let b = r.register("font_default", 256, 128);
    assert_eq!(a, 1);
    assert_eq!(b, 2);
    assert_eq!(r.get_size("icon"), Some((16, 32)));
    assert_eq!(r.get_size_by_id(2), Some((256, 128)));
    assert_eq!(r.get_size_by_id(3), None);
    assert!(r.contains(1));
    assert!(!r.contains(0));
    assert_eq!(r.binding_for(1), Some(1));
    assert_eq!(r.binding_for(0), None);
    assert_eq!(r.binding_for(42), None);
    let c = r.register("icon", 8, 8);
    assert_eq!(c, 3);
    assert_eq!(r.get_size("icon"), Some((8, 8)));
    assert_eq!(r.get_size_by_id(1), Some((16, 32)));
}

#[test]
fn first_font_becomes_default() {
    let mut f: FontSystem<u32> = FontSystem::new();
    assert_eq!(f.default_font(), None);
    assert_eq!(f.get_font("a"), None);
    f.add_font("a".to_string(), 1);
    f.add_font("b".to_string(), 2);
    assert_eq!(f.default_font(), Some(&1));
    assert_eq!(f.get_font("b"), Some(&2));
    assert!(f.set_default_font("b"));
    assert_eq!(f.default_font(), Some(&2));
    assert!(!f.set_default_font("c"));
    assert_eq!(f.default_font(), Some(&2));
    f.add_font("b".to_string(), 3);
    assert_eq!(f.default_font(), Some(&3));
}
