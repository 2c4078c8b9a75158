use rust_chess::graphics::camera::CameraScaleMode;
use rust_chess::graphics::sprites::{Sprite, SpriteSheet, TexRegion};
use rust_chess::graphics::textures::TextureCache;
use rust_chess::graphics::Texture;

#[test]
fn sprite_region_of_a_sixteen_pixel_grid() {
    let sheet = SpriteSheet::new(Texture::new(1, 256, 256), (16, 16), 0);
    let r = sheet.gl_position((3, 0));
    assert_eq!(
        r,
        TexRegion { x: 48, y: 0, width: 16, height: 16, tex_width: 256, tex_height: 256 }
    );
    assert_eq!(r.x as f32 / r.tex_width as f32, 0.1875);
    assert_eq!(r.y as f32 / r.tex_height as f32, 0.0);
    assert_eq!(r.width as f32 / r.tex_width as f32, 0.0625);
    assert_eq!(r.height as f32 / r.tex_height as f32, 0.0625);
}

#[test]
fn sprite_follows_its_position() {
    let sheet = SpriteSheet::new(Texture::new(4, 96, 32), (16, 16), 8);
    let mut s = Sprite::new(sheet, (5, 1));
    assert_eq!(s.gl_position().x, 80);
    assert_eq!(s.gl_position().y, 16);
    s.position = (-1, 2);
    assert_eq!(s.gl_position().x, -16);
    assert_eq!(s.gl_position().y, 32);
    assert_eq!(s.texture().id(), 4);
    assert_eq!(s.vbo(), 8);
    assert_eq!(sheet.sprite_size(), (16, 16));
    assert_eq!(sheet.sprite_width(), 16);
    assert_eq!(sheet.sprite_height(), 16);
    assert_eq!(sheet.texture().size(), (96, 32));
    assert_eq!(sheet.vbo(), 8);
}

#[test]
fn cells_past_the_edge_are_not_refused() {
    let sheet = SpriteSheet::new(Texture::new(1, 64, 64), (32, 32), 0);
    let r = sheet.sprite(5, 0).gl_position();
    assert_eq!(r.x, 160);
    assert!(r.x > r.tex_width as i64);
    let far = sheet.gl_position((i32::MAX, i32::MIN));
    assert_eq!(far.x, 32 * i32::MAX as i64);
    assert_eq!(far.y, 32 * i32::MIN as i64);
}

#[test]
fn texture_cache_replaces_and_counts() {
    let mut c = TextureCache::new();
    assert_eq!(c.len(), 0);
    c.insert("a.png".to_string(), Texture::new(1, 2, 2));
    c.insert("b.png".to_string(), Texture::new(2, 2, 2));
    c.insert("a.png".to_string(), Texture::new(3, 4, 4));
    assert_eq!(c.len(), 2);
    assert_eq!(c.get(&"a.png".to_string()), Some(Texture::new(3, 4, 4)));
    assert_eq!(c.get(&"b.png".to_string()).unwrap().width(), 2);
    assert_eq!(c.get(&"b.png".to_string()).unwrap().height(), 2);
    assert_eq!(c.get(&"c.png".to_string()), None);
}

#[test]
fn camera_scale_mode_picks_the_spanned_side() {
    assert!(CameraScaleMode::Width.fits_width((800, 600)));
    assert!(!CameraScaleMode::Height.fits_width((600, 800)));
    assert!(!CameraScaleMode::Min.fits_width((800, 600)));
    assert!(CameraScaleMode::Min.fits_width((600, 800)));
    assert!(!CameraScaleMode::Min.fits_width((700, 700)));
}
