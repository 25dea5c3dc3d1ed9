//! A small rendering pipeline over a context struct, narrowed pass by pass.

use borrow::capability::Capability;
use borrow::refstruct::{
    as_refs_mut, borrow_field_mut, drop_struct, partial_borrow, release_field, RefStruct,
};
use borrow::tracking::TrackingCtx;
use borrow::warnings::WarningSink;

#[derive(Default)]
struct Scene {
    meshes: Vec<usize>,
}

#[derive(Default)]
struct Ctx {
    geometry: Vec<String>,
    material: Vec<String>,
    mesh: Vec<(usize, usize)>,
    scene: Vec<Scene>,
}

fn mock() -> Ctx {
    let mut ctx = Ctx::default();
    ctx.geometry.push("geo1".to_string());
    ctx.geometry.push("geo2".to_string());
    ctx.material.push("mat1".to_string());
    ctx.material.push("mat2".to_string());
    ctx.mesh.push((0, 0));
    ctx.mesh.push((1, 1));
    ctx.scene.push(Scene { meshes: vec![0, 1] });
    ctx
}

fn render_scene(
    ctx: &mut TrackingCtx,
    data: &mut Ctx,
    view: &RefStruct,
    sink: &mut WarningSink,
    mesh: usize,
) {
    // Narrowed to the mesh read-only, geometry and material mutably.
    let targets = vec![
        Capability::Mut,
        Capability::Mut,
        Capability::Ref,
        Capability::Hidden,
    ];
    let pass = partial_borrow(ctx, view, &targets, true, "render.rs:31".to_string(), sink);
    pass.fields[2].use_as_ref(ctx);
    let (geometry, material) = data.mesh[mesh];
    pass.fields[0].use_as_mut(ctx);
    data.geometry[geometry].push('!');
    pass.fields[1].use_as_mut(ctx);
    data.material[material].push('!');
    drop_struct(ctx, pass, sink);
}

#[test]
fn test_types() {
    let mut data = mock();
    let mut ctx = TrackingCtx::new();
    let mut sink = WarningSink::new();
    let labels = vec![
        "geometry".to_string(),
        "material".to_string(),
        "mesh".to_string(),
        "scene".to_string(),
    ];
    let view = as_refs_mut(&mut ctx, labels, "render.rs:50".to_string());

    // First pass: take the scene, then render every mesh of every scene
    // against the remaining fields.
    let (scene_slot, rest) = borrow_field_mut(&mut ctx, &view, 3, true, "render.rs:54".to_string());
    scene_slot.use_as_ref(&mut ctx);
    let scenes: Vec<Vec<usize>> = data.scene.iter().map(|s| s.meshes.clone()).collect();
    for meshes in scenes {
        for mesh in meshes {
            render_scene(&mut ctx, &mut data, &rest, &mut sink, mesh);
        }
    }
    release_field(&mut ctx, scene_slot, &mut sink);
    drop_struct(&mut ctx, rest, &mut sink);
    drop_struct(&mut ctx, view, &mut sink);
    assert_eq!(data.geometry[0], "geo1!");
    assert_eq!(data.material[1], "mat2!");
}
