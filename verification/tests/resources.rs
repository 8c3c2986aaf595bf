use cs2_dumper::analysis::resources::{
    empty_resource_tree, locate_map_name, resource_system_slot, resource_tree, ResourceError,
};
use cs2_dumper::output::resources::render_resources;
use cs2_dumper::pe::ScanError;
use cs2_dumper::strmap::StrMap;

#[test]
fn tree_categories_in_order() {
    let t = resource_tree(Some("de_dust2".into()));
    assert_eq!(t.len(), 3);
    assert_eq!(t.key_at(0), "Active Session Resources");
    assert_eq!(t.value_at(0), &vec!["de_dust2".to_string()]);
    assert_eq!(t.key_at(1), "Engine Extensions");
    assert_eq!(t.value_at(1).len(), 19);
    assert_eq!(t.value_at(1)[0], ".vmat_c");
    assert_eq!(t.value_at(1)[18], ".vts_c");
    assert_eq!(t.key_at(2), "Resource Subsystems");
    assert_eq!(t.value_at(2)[5], "CPhysicsSystem");
}

#[test]
fn empty_map_name_is_not_listed() {
    assert_eq!(resource_tree(Some(String::new())).value_at(0).len(), 0);
    assert_eq!(resource_tree(None).value_at(0).len(), 0);
    assert_eq!(empty_resource_tree().len(), 0);
}

#[test]
fn resource_system_from_signature_hits() {
    let mut hits: StrMap<u64> = StrMap::new();
    assert_eq!(resource_system_slot(&hits), Err(ResourceError::ResourceSystemNotFound));
    hits.insert("ResourceSystem_ptr".into(), 0xdead);
    hits.insert("Other".into(), 1);
    assert_eq!(resource_system_slot(&hits), Ok(0xdead));
}

#[test]
fn listing_exact_text() {
    let t = resource_tree(Some("de_mirage".into()));
    let text = render_resources(&t);
    assert!(text.starts_with("Resources\n- Active Session Resources\n   |- de_mirage\n\n- Engine Extensions\n   |- .vmat_c\n   |- .vmdl_c\n"));
    assert!(text.ends_with("- Resource Subsystems\n   |- CModelSystem\n   |- CMaterialSystem2\n   |- CParticleSystemMgr\n   |- CPostProcessingSystem\n   |- CAnimSystem\n   |- CPhysicsSystem\n\n"));
    assert_eq!(render_resources(&empty_resource_tree()), "Resources\n");
}

#[test]
fn locating_map_name_in_junk_fails() {
    assert_eq!(locate_map_name(&[1u8; 200]), Err(ScanError::BadImage));
}
