use imgui_wgpu::textures::{pixel_data_matches, TextureTable};

#[test]
fn pixel_data_must_be_four_bytes_per_pixel() {
    assert!(pixel_data_matches(2, 3, 24));
    assert!(!pixel_data_matches(2, 3, 23));
    assert!(!pixel_data_matches(2, 3, 25));
    assert!(pixel_data_matches(0, 7, 0));
    assert!(!pixel_data_matches(u32::MAX, u32::MAX, usize::MAX));
    assert!(pixel_data_matches(65536, 16384, 4 << 30));
}

#[test]
fn empty_table_resolves_no_handle() {
    let mut table = TextureTable::new();
    assert!(!table.contains(0));
    assert!(table.get(0).is_none());
    assert!(table.remove(0).is_none());
    assert!(!table.contains(0));
}
