use display_dj::wallpaper::{
    feh_flag_for_fit, fit_for_gnome_mode, fit_for_windows_style, gnome_mode_for_fit,
    gnome_wallpaper_info, gsettings_value, has_image_extension, next_slide_index, reg_sz_value,
    select_images, shuffle, shuffle_with_seed, slideshow_cancel, slideshow_images,
    slideshow_params_error, slideshow_started, slideshow_status, slideshow_stop, tick_images,
    validate_fit, wallpaper_uri, windows_position_for_fit, windows_style_for_fit,
    windows_wallpaper_info, SlideshowState,
};

#[test]
fn test_validate_fit_valid_modes() {
    assert!(validate_fit("fill"));
    assert!(validate_fit("fit"));
    assert!(validate_fit("stretch"));
    assert!(validate_fit("center"));
    assert!(validate_fit("tile"));
}

#[test]
fn test_validate_fit_invalid_modes() {
    assert!(!validate_fit("FILL"));
    assert!(!validate_fit("zoom"));
    assert!(!validate_fit(""));
    assert!(!validate_fit("stretched"));
}

#[test]
fn test_shuffle_empty_and_single() {
    let mut empty: Vec<String> = Vec::new();
    shuffle(&mut empty);
    assert!(empty.is_empty());

    let mut single = vec!["a".to_string()];
    shuffle(&mut single);
    assert_eq!(single, vec!["a".to_string()]);
}

#[test]
fn test_shuffle_preserves_elements() {
    let original = vec![
        "a".to_string(),
        "b".to_string(),
        "c".to_string(),
        "d".to_string(),
        "e".to_string(),
    ];
    let mut items = original.clone();
    shuffle(&mut items);
    let mut sorted = items.clone();
    sorted.sort();
    let mut expected = original.clone();
    expected.sort();
    assert_eq!(sorted, expected);
}

#[test]
fn test_slideshow_stop_when_not_running() {
    let mut slot: Option<SlideshowState> = None;
    slideshow_cancel(&mut slot);
    let result = slideshow_stop(&mut slot);
    assert!(result.contains("was_running"));
}

#[test]
fn test_slideshow_cancel_no_state() {
    let mut slot: Option<SlideshowState> = None;
    slideshow_cancel(&mut slot);
    slideshow_cancel(&mut slot);
    assert!(slot.is_none());
}

#[test]
fn test_slideshow_state_default() {
    let s = SlideshowState::default();
    assert!(!s.running);
    assert!(s.folder.is_empty());
    assert_eq!(s.interval_minutes, 0);
    assert!(s.images.is_empty());
    assert_eq!(s.current_index, 0);
}

// ---- further cases

fn running(images: &[&str], index: usize) -> SlideshowState {
    let mut s = SlideshowState::default();
    s.running = true;
    s.folder = "/pics".into();
    s.interval_minutes = 15;
    s.order = "forward".into();
    s.fit = "fill".into();
    s.images = images.iter().map(|i| i.to_string()).collect();
    s.current_index = index;
    s
}

#[test]
fn stop_reports_a_running_slideshow() {
    let mut slot = Some(running(&["/pics/a.jpg"], 0));
    assert_eq!(slideshow_stop(&mut slot), "{\"ok\":true,\"was_running\":true}");
    assert!(slot.is_none());
    assert_eq!(slideshow_stop(&mut slot), "{\"ok\":true,\"was_running\":false}");
}

#[test]
fn status_reports_running_state_as_json() {
    assert_eq!(slideshow_status(&None), "{\"running\":false}");
    let slot = Some(running(&["/pics/a.jpg", "/pics/b \"q\".jpg"], 1));
    assert_eq!(
        slideshow_status(&slot),
        "{\"current_image\":\"/pics/b \\\"q\\\".jpg\",\"current_index\":1,\"fit\":\"fill\",\"folder\":\"/pics\",\"interval_minutes\":15,\"order\":\"forward\",\"running\":true,\"total_images\":2}"
    );
    let past_end = Some(running(&["/pics/a.jpg"], 5));
    assert!(slideshow_status(&past_end).starts_with("{\"current_image\":\"\","));
}

#[test]
fn start_response_is_json() {
    assert_eq!(
        slideshow_started(3, "/pics/a.jpg"),
        "{\"current_image\":\"/pics/a.jpg\",\"ok\":true,\"total_images\":3}"
    );
}

#[test]
fn slideshow_parameter_errors_in_order() {
    assert_eq!(
        slideshow_params_error(1, "sideways", "zoom"),
        Some("{\"error\":\"interval must be at least 5 minutes\"}".to_string())
    );
    assert_eq!(
        slideshow_params_error(5, "sideways", "zoom"),
        Some("{\"error\":\"invalid fit mode: 'zoom'. Valid: fill, fit, stretch, center, tile\"}".to_string())
    );
    assert_eq!(
        slideshow_params_error(5, "sideways", "fill"),
        Some("{\"error\":\"invalid order: 'sideways'. Valid: forward, backward, random\"}".to_string())
    );
    assert_eq!(slideshow_params_error(5, "random", "tile"), None);
}

#[test]
fn slideshow_image_orders() {
    let imgs = vec!["a".to_string(), "b".to_string(), "c".to_string()];
    assert_eq!(slideshow_images(imgs.clone(), "forward").unwrap(), imgs);
    assert_eq!(
        slideshow_images(imgs.clone(), "backward").unwrap(),
        vec!["c".to_string(), "b".to_string(), "a".to_string()]
    );
    let mut shuffled = slideshow_images(imgs.clone(), "random").unwrap();
    shuffled.sort();
    assert_eq!(shuffled, imgs);
    assert_eq!(
        slideshow_images(Vec::new(), "forward").unwrap_err(),
        "{\"error\":\"no valid images found in folder\"}"
    );
}

#[test]
fn slide_index_wraps() {
    assert_eq!(next_slide_index(0, 3), 1);
    assert_eq!(next_slide_index(2, 3), 0);
    assert_eq!(next_slide_index(9, 3), 0);
}

#[test]
fn seeded_shuffle_is_a_permutation() {
    let mut v: Vec<String> = (0..20).map(|i| i.to_string()).collect();
    shuffle_with_seed(&mut v, 12345);
    let mut sorted = v.clone();
    sorted.sort();
    let mut expected: Vec<String> = (0..20).map(|i| i.to_string()).collect();
    expected.sort();
    assert_eq!(sorted, expected);
}

#[test]
fn folder_scan_keeps_images_in_order() {
    assert!(has_image_extension("PNG"));
    assert!(has_image_extension("webp"));
    assert!(!has_image_extension("txt"));
    let entries = vec![
        ("/p/c.jpg".to_string(), Some("jpg".to_string())),
        ("/p/readme".to_string(), None),
        ("/p/a.PNG".to_string(), Some("PNG".to_string())),
        ("/p/notes.txt".to_string(), Some("txt".to_string())),
        ("/p/b.jpeg".to_string(), Some("jpeg".to_string())),
    ];
    assert_eq!(
        select_images(entries),
        vec!["/p/a.PNG".to_string(), "/p/b.jpeg".to_string(), "/p/c.jpg".to_string()]
    );
}

#[test]
fn timer_tick_image_lists() {
    let kept = vec!["k".to_string()];
    let scanned = vec!["a".to_string(), "b".to_string()];
    assert_eq!(tick_images("random", &kept, scanned.clone()), Some(kept.clone()));
    assert_eq!(tick_images("forward", &kept, scanned.clone()), Some(scanned.clone()));
    assert_eq!(
        tick_images("backward", &kept, scanned.clone()),
        Some(vec!["b".to_string(), "a".to_string()])
    );
    assert_eq!(tick_images("forward", &kept, Vec::new()), None);
}

#[test]
fn fit_encodings() {
    assert_eq!(gnome_mode_for_fit("fill"), "zoom");
    assert_eq!(gnome_mode_for_fit("fit"), "scaled");
    assert_eq!(gnome_mode_for_fit("stretch"), "stretched");
    assert_eq!(gnome_mode_for_fit("center"), "centered");
    assert_eq!(gnome_mode_for_fit("tile"), "wallpaper");
    assert_eq!(gnome_mode_for_fit("bogus"), "zoom");
    assert_eq!(fit_for_gnome_mode("scaled"), "fit");
    assert_eq!(fit_for_gnome_mode("spanned"), "fill");
    assert_eq!(feh_flag_for_fit("fit"), "--bg-max");
    assert_eq!(feh_flag_for_fit("other"), "--bg-fill");
    assert_eq!(windows_style_for_fit("tile"), ("0".to_string(), "1".to_string()));
    assert_eq!(windows_style_for_fit("fill"), ("10".to_string(), "0".to_string()));
    assert_eq!(fit_for_windows_style("0", "1"), "tile");
    assert_eq!(windows_position_for_fit("center"), "0");
    assert_eq!(wallpaper_uri("/a b.png"), "file:///a b.png");
}

#[test]
fn gnome_wallpaper_from_gsettings() {
    assert_eq!(gsettings_value("  'file:///home/me/x.png'\n").iter().collect::<String>(), "file:///home/me/x.png");
    let info = gnome_wallpaper_info("'file:///home/me/x.png'\n", Some("'scaled'\n")).unwrap();
    assert_eq!(info.path, Some("/home/me/x.png".to_string()));
    assert_eq!(info.fit, Some("fit".to_string()));
    let info = gnome_wallpaper_info("'/plain.png'", None).unwrap();
    assert_eq!(info.fit, Some("fill".to_string()));
    assert!(gnome_wallpaper_info("''", Some("'zoom'")).is_none());
}

#[test]
fn windows_wallpaper_from_registry() {
    let out = "\r\nHKEY_CURRENT_USER\\Control Panel\\Desktop\r\n    Wallpaper    REG_SZ    C:\\pics\\a b.jpg\r\n\r\n";
    assert_eq!(reg_sz_value(out, "Wallpaper"), Some("C:\\pics\\a b.jpg".to_string()));
    assert_eq!(reg_sz_value(out, "WallpaperStyle"), None);
    let style = "    WallpaperStyle    REG_SZ    6\r\n";
    let tile = "    TileWallpaper    REG_SZ    0\r\n";
    let info = windows_wallpaper_info(out, Some(style), Some(tile)).unwrap();
    assert_eq!(info.path, Some("C:\\pics\\a b.jpg".to_string()));
    assert_eq!(info.fit, Some("fit".to_string()));
}

#[test]
fn test_slideshow_start_rejects_short_interval() {
    let result = slideshow_params_error(1, "forward", "fill").unwrap();
    assert!(result.contains("at least 5 minutes"));
}

#[test]
fn test_slideshow_start_rejects_invalid_fit() {
    let result = slideshow_params_error(5, "forward", "zoom").unwrap();
    assert!(result.contains("invalid fit mode"));
}

#[test]
fn test_slideshow_start_rejects_invalid_order() {
    let result = slideshow_params_error(5, "sideways", "fill").unwrap();
    assert!(result.contains("invalid order"));
}

#[test]
fn test_slideshow_start_rejects_empty_folder() {
    assert_eq!(slideshow_params_error(5, "forward", "fill"), None);
    let result = slideshow_images(select_images(Vec::new()), "forward").unwrap_err();
    assert!(result.contains("no valid images"));
}

#[test]
fn test_slideshow_status_not_running() {
    let mut slot: Option<SlideshowState> = None;
    slideshow_cancel(&mut slot);
    let result = slideshow_status(&slot);
    assert!(result.contains("\"running\":false"));
}

#[test]
fn seeded_shuffle_order_is_fixed_by_the_seed() {
    let mut v: Vec<String> = vec!["a".into(), "b".into(), "c".into(), "d".into()];
    shuffle_with_seed(&mut v, 42);
    assert_eq!(v, vec!["b", "a", "d", "c"]);
}
