use gristmill::asset::{load_image, AssetCategory, AssetError, AssetStorage};
use gristmill::atlas::{atlas_slot, strip_offsets};
use gristmill::input::{KeyAxis1Binding, KeyAxis2Binding, KeyBinding, KeyEvent};
use gristmill::window::{
    get_fullscreen, on_resize, set_fullscreen, toggle_fullscreen, window_conf, WindowConfig,
    WindowIcon, WindowSetup,
};

#[test]
fn asset_storage_insert_get_load() {
    let mut store: AssetStorage<i32> = AssetStorage::new();
    assert!(!store.contains("x"));
    assert_eq!(store.insert("x".to_string(), 1), None);
    assert_eq!(store.insert("x".to_string(), 2), Some(1));
    assert_eq!(store.get("x"), Some(&2));
    assert!(store.contains("x"));
    assert_eq!(store.load("y", || Some(5)), Some(&5));
    // Already stored: the loader is not called.
    assert_eq!(store.load("y", || -> Option<i32> { panic!("loaded twice") }), Some(&5));
    assert_eq!(store.load("z", || None), None);
    assert!(!store.contains("z"));
    assert_eq!(store.get("missing"), None);
}

#[test]
fn asset_categories_and_errors() {
    assert_eq!(AssetCategory::config().prefix(), "config");
    assert_eq!(AssetCategory::asset().prefix(), "assets");
    assert_eq!(AssetCategory::save().prefix(), "save");
    let io = AssetError::Io(std::io::Error::new(std::io::ErrorKind::NotFound, "gone"));
    assert_eq!(io.io_kind(), Some(std::io::ErrorKind::NotFound));
    assert_eq!(AssetError::InvalidData.io_kind(), None);
}

#[test]
fn key_bindings_follow_events() {
    let mut k = KeyBinding::new(7);
    assert!(!k.event(KeyEvent { key: Some(8), pressed: true }));
    assert!(!k.state());
    assert!(k.event(KeyEvent { key: Some(7), pressed: true }));
    assert!(k.state());
    assert!(!k.event(KeyEvent { key: None, pressed: false }));
    assert!(k.state());
    let mut axis = KeyAxis1Binding::new(1, 2);
    assert_eq!(axis.state(), 0);
    assert!(axis.event(KeyEvent { key: Some(1), pressed: true }));
    assert_eq!(axis.state(), 1);
    axis.event(KeyEvent { key: Some(2), pressed: true });
    assert_eq!(axis.state(), 0);
    axis.event(KeyEvent { key: Some(1), pressed: false });
    assert_eq!(axis.state(), -1);
    let mut pad = KeyAxis2Binding::new(10, 11, 12, 13);
    pad.event(KeyEvent { key: Some(10), pressed: true });
    pad.event(KeyEvent { key: Some(12), pressed: true });
    assert_eq!(pad.state(), (-1, 1));
    assert!(!pad.event(KeyEvent { key: Some(99), pressed: true }));
}

#[test]
fn window_config_changes() {
    let default = WindowConfig::default();
    assert_eq!((default.width, default.height, default.fullscreen, default.sample_count), (800, 600, false, None));
    let mut config = Some(default);
    on_resize(&mut config, 1024, 768);
    assert_eq!(config.unwrap().width, 1024);
    assert_eq!(toggle_fullscreen(&mut config), None);
    assert!(get_fullscreen(&config));
    on_resize(&mut config, 1920, 1080);
    assert_eq!(config.unwrap().width, 1024);
    assert_eq!(toggle_fullscreen(&mut config), Some((1024, 768)));
    assert_eq!(set_fullscreen(&mut config, false), Some((1024, 768)));
    assert_eq!(set_fullscreen(&mut config, true), None);
    let mut none: Option<WindowConfig> = None;
    assert!(!get_fullscreen(&none));
    assert_eq!(toggle_fullscreen(&mut none), None);
    let conf = window_conf("t".to_string(), true, &WindowConfig { sample_count: Some(4), ..default });
    assert_eq!((conf.window_width, conf.window_height, conf.sample_count), (800, 600, 4));
    assert_eq!(window_conf("t".to_string(), false, &default).sample_count, 1);
}

#[test]
fn window_setup_defaults() {
    let setup = WindowSetup::with_title("game".to_string());
    assert_eq!(setup.config, "window.yaml");
    assert!(setup.icon.is_none());
    assert!(setup.resizable);
    let with_icon = WindowSetup::with_title_and_icon("game".to_string(), "icon.bin");
    assert_eq!(with_icon.icon, Some("icon.bin"));
}

#[test]
fn window_icon_splits_into_three() {
    let data: Vec<u8> = (0..(1024 + 4096 + 16384)).map(|i| (i % 251) as u8).collect();
    let (small, medium, large) = WindowIcon(data.clone()).split();
    assert_eq!(small.len(), 1024);
    assert_eq!(medium.len(), 4096);
    assert_eq!(large.len(), 16384);
    assert_eq!(medium[0], data[1024]);
    assert_eq!(large[16383], data[data.len() - 1]);
}

#[test]
fn atlas_slots_and_strips() {
    assert_eq!(atlas_slot(64, 16, 0), (0, 0));
    assert_eq!(atlas_slot(64, 16, 5), (16, 16));
    assert_eq!(atlas_slot(64, 16, 15), (48, 48));
    assert_eq!(strip_offsets(50, 16), vec![0, 16, 32]);
    assert_eq!(strip_offsets(10, 16), Vec::<u32>::new());
    assert_eq!(strip_offsets(32, 16), vec![0, 16]);
}

#[test]
fn png_bytes_decode_to_pixels() {
    let pixels = vec![255u8, 0, 0, 255, 0, 0, 255, 128];
    let img = image::RgbaImage::from_raw(2, 1, pixels.clone()).unwrap();
    let mut bytes: Vec<u8> = Vec::new();
    img.write_to(&mut std::io::Cursor::new(&mut bytes), image::ImageOutputFormat::Png).unwrap();
    let decoded = load_image(&bytes).unwrap();
    assert_eq!((decoded.width, decoded.height, decoded.channels), (2, 1, 4));
    assert_eq!(decoded.pixels, pixels);
    match load_image(b"definitely not an image") {
        Err(AssetError::InvalidFormat(message)) => assert!(!message.is_empty()),
        _ => panic!("expected an invalid format"),
    }
}
