use hell_engine::error::HellErrorKind;
use hell_engine::resources::{
    ImageResource, MaterialInfo, MaterialResource, MaterialTextureInfo, ResourceGroup, ResourceHandle, ResourceManager,
    TextureInfo, TextureResource,
};

fn material(name: &str, shader: &str, textures: &[(&str, &str)]) -> MaterialResource {
    MaterialResource::from(MaterialInfo {
        name: name.to_string(),
        shader: shader.to_string(),
        textures: textures
            .iter()
            .map(|(k, p)| (k.to_string(), MaterialTextureInfo { path: p.to_string() }))
            .collect(),
    })
}

#[test]
fn handle_from_index_and_max() {
    assert_eq!(ResourceHandle::from(5), ResourceHandle { id: 5 });
    assert_eq!(ResourceHandle::max().id, usize::MAX);
}

#[test]
fn group_add_then_find() {
    let mut g: ResourceGroup<u32> = ResourceGroup::new();
    assert!(g.is_empty());
    assert_eq!(g.add("a.png".to_string(), 10).unwrap(), ResourceHandle::from(0));
    assert_eq!(g.add("b.png".to_string(), 20).unwrap(), ResourceHandle::from(1));
    assert_eq!(g.len(), 2);
    assert!(!g.is_empty());
    assert_eq!(g.index_of("b.png"), Some(1));
    assert_eq!(g.index_of("c.png"), None);
    assert_eq!(g.get("a.png"), Some(&10));
    assert_eq!(g.get("c.png"), None);
    assert_eq!(g.get_at(1), Some(&20));
    assert_eq!(g.get_at(2), None);
    assert!(g.contains("a.png"));
    assert!(!g.contains("A.png"));
    assert_eq!(g.get_all(), &[10, 20]);
}

#[test]
fn group_refuses_duplicate_path() {
    let mut g: ResourceGroup<u32> = ResourceGroup::new();
    g.add("a.png".to_string(), 1).unwrap();
    let e = g.add("a.png".to_string(), 2).unwrap_err();
    assert_eq!(e.kind, HellErrorKind::ResourceError);
    assert_eq!(e.msg, "trying to duplicate resource");
    assert_eq!(g.len(), 1);
    assert_eq!(g.get("a.png"), Some(&1));
}

#[test]
fn texture_info_new() {
    let t = TextureInfo::new("main_tex".to_string(), "tex/a.png".to_string());
    assert_eq!(t.id_internal, None);
    assert_eq!(t.name, "main_tex");
    assert_eq!(t.path, "tex/a.png");
}

#[test]
fn material_from_info() {
    let m = material("stone", "world", &[("main_tex", "tex/stone.png"), ("normal", "tex/stone_n.png")]);
    assert_eq!(m.name, "stone");
    assert_eq!(m.shader, "world");
    assert_eq!(m.id, 0);
    assert_eq!(m.id_internal, None);
    assert_eq!(m.textures.len(), 2);
    assert_eq!(m.textures[0].name, "main_tex");
    assert_eq!(m.textures[1].path, "tex/stone_n.png");
    assert_eq!(MaterialResource::MAIN_TEX, "main_tex");
}

// a 2 x 2 image: pixels p(x, y) = [10 * y + x; 4]
fn two_by_two() -> Vec<u8> {
    let mut v = Vec::new();
    for y in 0..2u8 {
        for x in 0..2u8 {
            v.extend_from_slice(&[10 * y + x; 4]);
        }
    }
    v
}

#[test]
fn texture_flips() {
    let plain = TextureResource::from_rgba8(2, 2, two_by_two(), false, false);
    assert_eq!(plain.img(), two_by_two().as_slice());
    assert_eq!((plain.width(), plain.height()), (2, 2));

    let v = TextureResource::from_rgba8(2, 2, two_by_two(), true, false);
    assert_eq!(&v.img()[0..4], &[10, 10, 10, 10]);
    assert_eq!(&v.img()[4..8], &[11, 11, 11, 11]);
    assert_eq!(&v.img()[8..12], &[0, 0, 0, 0]);

    let h = TextureResource::from_rgba8(2, 2, two_by_two(), false, true);
    assert_eq!(&h.img()[0..4], &[1, 1, 1, 1]);
    assert_eq!(&h.img()[4..8], &[0, 0, 0, 0]);
    assert_eq!(&h.img()[12..16], &[10, 10, 10, 10]);

    let both = TextureResource::from_rgba8(2, 2, two_by_two(), true, true);
    assert_eq!(&both.img()[0..4], &[11, 11, 11, 11]);
    assert_eq!(&both.img()[12..16], &[0, 0, 0, 0]);
}

#[test]
fn image_resource_flip() {
    let img = ImageResource::from_rgba8(2, 2, two_by_two(), true);
    assert_eq!(&img.get_img()[0..4], &[10, 10, 10, 10]);
    let img = ImageResource::from_rgba8(2, 2, two_by_two(), false);
    assert_eq!(img.get_img(), two_by_two().as_slice());
}

#[test]
fn flip_keeps_channels_in_place() {
    let px = vec![1, 2, 3, 4, 5, 6, 7, 8];
    let t = TextureResource::from_rgba8(2, 1, px, false, true);
    assert_eq!(t.img(), &[5, 6, 7, 8, 1, 2, 3, 4]);
}

#[test]
fn manager_materials() {
    let mut rm = ResourceManager::new();
    assert_eq!(rm.find_material("m/stone.yaml"), None);
    let h = rm.load_material("m/stone.yaml", material("stone", "world", &[("main_tex", "t/stone.png")])).unwrap();
    assert_eq!(h, ResourceHandle::from(0));
    // loading the same path again gives the same handle and keeps the first material
    let again = rm.load_material("m/stone.yaml", material("other", "ui", &[])).unwrap();
    assert_eq!(again, h);
    assert_eq!(rm.material_at(0).unwrap().name, "stone");
    assert!(rm.material_at(1).is_none());
    assert_eq!(rm.find_material("m/stone.yaml"), Some(h));
    let e = rm.add_material("m/stone.yaml", material("x", "y", &[])).unwrap_err();
    assert_eq!(e.msg, "trying to duplicate resource");
    let h2 = rm.add_material("m/grass.yaml", material("grass", "world", &[("main_tex", "t/grass.png"), ("n", "t/grass_n.png")])).unwrap();
    assert_eq!(h2.id, 1);
    rm.add_material("m/hud.yaml", material("hud", "ui", &[])).unwrap();
    assert_eq!(rm.used_texture_paths(), vec!["t/stone.png", "t/grass.png", "t/grass_n.png"]);
    assert_eq!(rm.unique_shader_keys(), vec!["world", "ui"]);
}

#[test]
fn manager_images() {
    let mut rm = ResourceManager::new();
    let img = TextureResource::from_rgba8(1, 1, vec![1, 2, 3, 4], false, false);
    assert_eq!(rm.add_image("a.png".to_string(), img).unwrap().id, 0);
    let dup = TextureResource::from_rgba8(1, 1, vec![0, 0, 0, 0], false, false);
    assert_eq!(rm.add_image("a.png".to_string(), dup).unwrap_err().kind, HellErrorKind::ResourceError);
    assert_eq!(rm.get_all_images().len(), 1);
    assert_eq!(rm.get_all_images()[0].img(), &[1, 2, 3, 4]);
    assert!(rm.unique_shader_keys().is_empty());
    assert!(rm.used_texture_paths().is_empty());
}
