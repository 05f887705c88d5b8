use pptx_compose::patch::{PATCH_SCHEMA, PATCH_VERSION};

#[test]
fn edit_crate_compiles() {
    assert_eq!(PATCH_SCHEMA, "pptx-compose.patch.v1");
    assert_eq!(PATCH_VERSION, 1);
}
