//! What the overlay's windows show, and what is done with windows.

use lol_lcu::app::config::AppConfig;
use lol_lcu::app::event::TrayAction;
use lol_lcu::app::viewmodel::{LcuRect, ViewModel};
use lol_lcu::win::base::{hex_to_rgb, rgb};
use lol_lcu::win::hud1::{make_drawn_opaque, paint_hud, Font};
use lol_lcu::win::hud2::{
    fill_rect_alpha, hit_slot, paint_background, paint_bench, paint_slot, pointer_position,
    premultiply, PixelBox,
};
use lol_lcu::win::info_panel::{
    draw_settings_section, draw_status_section, find_secondary_monitor, optional_section,
    settings_changed, InfoPanel, Monitor, PanelAction, PanelApp, PanelContent, PanelMsg,
    SettingRow, SliderOption,
};
use lol_lcu::win::overlay::{is_hotkey, OverlayAction, WndState};
use lol_lcu::win::tray::{
    handle_menu_command, opens_menu, show_tray_menu, MenuItem, ID_AUTO_HONOR, ID_FIX_WINDOW,
    ID_QUIT,
};
use lol_lcu::win::winapi::{
    class_matches, class_matches_any_case, dpi_parameter, drawable_size, fix_lcu_window_by_zoom,
    is_browser_class, need_resize, opacity_alpha, place_window_above_target, point_parameter,
    Rect, StackPlace, WindowPlan,
};

fn rect(left: i32, top: i32, right: i32, bottom: i32) -> Rect {
    Rect { left, top, right, bottom }
}

#[test]
fn colours() {
    assert_eq!(rgb(1, 2, 3), 0x030201);
    assert_eq!(rgb(255, 215, 0), 0x00D7FF);
    assert_eq!(hex_to_rgb(0x123456), 0x123456);
}

#[test]
fn the_shape_of_the_window() {
    assert!(!need_resize(&rect(0, 0, 1280, 720)));
    assert!(need_resize(&rect(0, 0, 1280, 721)));
    assert!(need_resize(&rect(0, 0, 1281, 720)));
    assert!(!need_resize(&rect(5, 0, 5, 720)));
    assert!(!need_resize(&rect(5, 0, 1, 720)));
    for w in 1..200 {
        for h in 0..120 {
            let expected = h as f64 / w as f64 != 0.5625;
            assert_eq!(need_resize(&rect(-w, 3, 0, 3 + h)), expected);
        }
    }
}

#[test]
fn the_window_is_put_in_the_middle() {
    let good = Some(rect(0, 0, 1280, 720));
    let bad = Some(rect(0, 0, 1280, 700));
    let plan = Some(WindowPlan { x: 160, y: 90, width: 1600, height: 900 });
    assert!(fix_lcu_window_by_zoom(bad, good, (1600, 900), (1920, 1080), false) == plan);
    assert!(fix_lcu_window_by_zoom(good, bad, (1600, 900), (1920, 1080), false) == plan);
    assert!(fix_lcu_window_by_zoom(good, good, (1600, 900), (1920, 1080), true) == plan);
    assert!(fix_lcu_window_by_zoom(good, good, (1600, 900), (1920, 1080), false).is_none());
    assert!(fix_lcu_window_by_zoom(None, bad, (1600, 900), (1920, 1080), true).is_none());
    assert!(fix_lcu_window_by_zoom(bad, None, (1600, 900), (1920, 1080), true).is_none());
    assert!(fix_lcu_window_by_zoom(bad, bad, (0, 900), (1920, 1080), true).is_none());
    let odd = fix_lcu_window_by_zoom(bad, bad, (103, 103), (100, 100), false).unwrap();
    assert_eq!((odd.x, odd.y), (-1, -1));
}

#[test]
fn opacity() {
    assert_eq!(opacity_alpha(100), 255);
    assert_eq!(opacity_alpha(95), 242);
    assert_eq!(opacity_alpha(30), 76);
    for p in 0..=255u8 {
        let expected = (p.clamp(30, 100) as f32 / 100.0 * 255.0) as u8;
        assert_eq!(opacity_alpha(p), expected);
    }
}

#[test]
fn the_place_in_the_stack() {
    assert!(place_window_above_target(7, None) == StackPlace::Top);
    assert!(place_window_above_target(7, Some(7)) == StackPlace::Keep);
    assert!(place_window_above_target(7, Some(9)) == StackPlace::Behind(9));
}

#[test]
fn sizes_and_parameters() {
    assert_eq!(drawable_size(&rect(1, 2, 11, 22)), Some((10, 20)));
    assert_eq!(drawable_size(&rect(1, 2, 1, 22)), None);
    assert_eq!(drawable_size(&rect(1, 2, 11, 1)), None);
    assert_eq!(dpi_parameter(96), Some((96 << 16) | 96));
    assert_eq!(dpi_parameter(0), None);
    assert_eq!(point_parameter(3, 5), (5 << 16) | 3);
    for p in [0u64, 0xFFFF_FFFF, 0x8000_7FFF, 0x0001_0002, 0xABCD_1234_5678] {
        let x = (p & 0xFFFF) as u16 as i16 as i32;
        let y = ((p >> 16) & 0xFFFF) as u16 as i16 as i32;
        assert_eq!(pointer_position(p), (x, y));
    }
}

#[test]
fn classes_of_windows() {
    assert!(class_matches("cefbrowserwindow", "cefbrowser"));
    assert!(!class_matches("cef", "cefbrowser"));
    assert!(class_matches_any_case("CefBrowserWindow", "CEFBROWSERWINDOW"));
    assert!(!class_matches_any_case("RCLIENT", "CefBrowserWindow"));
    assert!(is_browser_class("CefBrowserWindow"));
    assert!(is_browser_class("Chrome_WidgetWin_0"));
    assert!(!is_browser_class("cef"));
}

#[test]
fn the_texts_of_the_panel() {
    let lines: Vec<String> = [
        "通天代 A 评分:40",
        "小代 B 评分:31",
        "上等马 C",
        "中等马 D",
        "-- E 评分:获取失败",
        "-- F 加载中",
        "[我方评分]",
        "[敌方评分]",
        "[对局组黑分析]",
        "plain",
    ]
    .iter()
    .map(|s| s.to_string())
    .collect();
    let runs = paint_hud("title", &lines);
    assert_eq!(runs.len(), 11);
    assert_eq!((runs[0].text.as_str(), runs[0].x, runs[0].y, runs[0].color), ("title", 10, 40, rgb(0, 255, 0)));
    let colors = [
        rgb(255, 215, 0),
        rgb(255, 100, 255),
        rgb(255, 80, 80),
        rgb(100, 255, 100),
        rgb(120, 120, 120),
        rgb(120, 120, 120),
        rgb(100, 149, 237),
        rgb(255, 69, 0),
        rgb(0, 255, 255),
        rgb(200, 200, 200),
    ];
    for i in 0..10 {
        assert_eq!(runs[i + 1].color, colors[i]);
        assert_eq!(runs[i + 1].y, 72 + 24 * i as i32);
        assert_eq!(runs[i + 1].text, lines[i]);
    }
    assert!(runs[1].font == Font::Small && runs[3].font == Font::Normal);
    assert_eq!((Font::Normal.height(), Font::Small.height()), (22, 20));
    let runs = paint_hud("", &vec!["x".to_string()]);
    assert_eq!((runs.len(), runs[0].y), (1, 40));
}

#[test]
fn drawn_pixels_are_opaque() {
    let mut pixels = vec![0, 0, 0, 0, 0, 1, 0, 9, 7, 0, 0, 255, 0, 0, 0, 5, 1, 2];
    make_drawn_opaque(&mut pixels);
    assert_eq!(pixels, vec![0, 0, 0, 0, 0, 1, 0, 255, 7, 0, 0, 255, 0, 0, 0, 5, 1, 2]);
}

#[test]
fn premultiplied_colours() {
    assert_eq!(premultiply(130, 255, 130, 65), 65 << 24 | 33 << 16 | 65 << 8 | 33);
    assert_eq!(premultiply(0, 0, 0, 2), 2 << 24);
    for (r, g, b, a) in [(255u8, 255u8, 255u8, 255u8), (1, 2, 3, 128), (200, 100, 50, 77)] {
        let alpha = a as f32 / 255.0;
        let part = |c: u8| (c as f32 * alpha) as u32;
        let expected = (a as u32) << 24 | part(r) << 16 | part(g) << 8 | part(b);
        assert_eq!(premultiply(r, g, b, a), expected);
    }
}

#[test]
fn a_box_is_filled() {
    let mut pixels = vec![0u32; 12];
    fill_rect_alpha(&mut pixels, 4, 3, PixelBox { x0: 1, y0: -5, x1: 3, y1: 2 }, 9);
    assert_eq!(pixels, vec![0, 9, 9, 0, 0, 9, 9, 0, 0, 0, 0, 0]);
    fill_rect_alpha(&mut pixels, 4, 3, PixelBox { x0: 3, y0: 2, x1: 90, y1: 90 }, 8);
    assert_eq!(pixels[11], 8);
    fill_rect_alpha(&mut pixels, 4, 3, PixelBox { x0: 3, y0: 2, x1: 1, y1: 1 }, 7);
    assert!(!pixels.contains(&7));
}

#[test]
fn the_bench_layer() {
    let whole = PixelBox { x0: 0, y0: 0, x1: 3, y1: 2 };
    let slots = vec![PixelBox { x0: 0, y0: 0, x1: 1, y1: 1 }, PixelBox { x0: 1, y0: 0, x1: 2, y1: 1 }];
    let faint = premultiply(0, 0, 0, 2);
    let green = premultiply(130, 255, 130, 65);
    assert_eq!(
        paint_bench(3, 2, true, Some(1), whole, &slots),
        vec![faint, green, faint, faint, faint, faint]
    );
    assert_eq!(paint_bench(3, 2, true, Some(5), whole, &slots), vec![faint; 6]);
    assert_eq!(paint_bench(3, 2, false, Some(1), whole, &slots), vec![0; 6]);
}

#[test]
fn the_bench_layer_in_steps() {
    let whole = PixelBox { x0: 0, y0: 0, x1: 2, y1: 2 };
    let slot = PixelBox { x0: 1, y0: 0, x1: 3, y1: 1 };
    let faint = premultiply(0, 0, 0, 2);
    let green = premultiply(130, 255, 130, 65);
    let mut image = paint_background(3, 2, true, whole);
    assert_eq!(image, vec![faint, faint, 0, faint, faint, 0]);
    image[1] = 7;
    paint_slot(&mut image, 3, 2, Some(4), 4, slot);
    assert_eq!(image, vec![faint, green, green, faint, faint, 0]);
    paint_slot(&mut image, 3, 2, None, 4, slot);
    assert_eq!(image, vec![faint, faint, faint, faint, faint, 0]);
    assert_eq!(paint_background(3, 2, false, whole), vec![0; 6]);
}

#[test]
fn clicks_hit_slots() {
    assert_eq!(hit_slot(true, true, &vec![false, true, true]), Some(1));
    assert_eq!(hit_slot(true, true, &vec![false]), None);
    assert_eq!(hit_slot(false, true, &vec![true]), None);
    assert_eq!(hit_slot(true, false, &vec![true]), None);
}

fn snapshot() -> ViewModel {
    let mut vm = ViewModel::default();
    vm.hud1_visible = true;
    vm.hud2_visible = true;
    vm.lcu_rect = LcuRect { x: 1, y: 2, width: 1280, height: 720 };
    vm
}

#[test]
fn turns_of_the_overlay() {
    let mut s = WndState::new();
    assert!(s.overlay_message_loop(None, 0) == vec![OverlayAction::Synced]);
    assert!(s.overlay_message_loop(None, 149).is_empty());
    assert!(s.overlay_message_loop(None, 150) == vec![OverlayAction::Synced]);
    let place = OverlayAction::PlaceBench(LcuRect { x: 1, y: 2, width: 1280, height: 720 });
    assert!(
        s.overlay_message_loop(Some(snapshot()), 0)
            == vec![
                OverlayAction::ShowHud(true),
                OverlayAction::ShowBench(true),
                OverlayAction::Synced,
                place,
                OverlayAction::PaintHud,
                OverlayAction::PaintBench,
            ]
    );
    assert_eq!((s.win_w, s.win_h), (1280, 720));
    assert!(s.overlay_message_loop(None, 500) == vec![OverlayAction::Synced]);
    let mut hidden = snapshot();
    hidden.hud1_visible = false;
    hidden.hud2_visible = false;
    hidden.hud1_title = "x".to_string();
    assert!(
        s.overlay_message_loop(Some(hidden), 0)
            == vec![
                OverlayAction::ShowHud(false),
                OverlayAction::ShowBench(false),
                OverlayAction::Synced,
            ]
    );
    assert!(s.needs_paint_hud && s.needs_paint_bench);
}

#[test]
fn the_hotkey() {
    assert!(is_hotkey(0, 0x0100, 0x70));
    assert!(!is_hotkey(-1, 0x0100, 0x70));
    assert!(!is_hotkey(0, 0x0101, 0x70));
    assert!(!is_hotkey(0, 0x0100, 0x71));
}

#[test]
fn the_menu_of_the_tray() {
    let mut config = AppConfig::default();
    config.auto_honor_skip = false;
    let menu = show_tray_menu(&config);
    assert_eq!(menu.len(), 11);
    assert!(matches!(menu[0], MenuItem::Choice { id: ID_FIX_WINDOW, text: "修复客户端窗口比例", checked: false }));
    assert!(matches!(menu[4], MenuItem::Separator));
    assert!(matches!(menu[5], MenuItem::Choice { text: "自动接受对局", checked: true, .. }));
    assert!(matches!(menu[6], MenuItem::Choice { id: ID_AUTO_HONOR, checked: false, .. }));
    assert!(matches!(menu[10], MenuItem::Choice { id: ID_QUIT, text: "退出程序", checked: false }));
    assert!(matches!(handle_menu_command(ID_QUIT), Some(TrayAction::Exit)));
    assert!(matches!(handle_menu_command(ID_AUTO_HONOR), Some(TrayAction::ToggleAutoHonor)));
    assert!(handle_menu_command(7).is_none());
    assert!(opens_menu(0x0205) && opens_menu(0x0001_007B) && !opens_menu(0x0201));
}

#[test]
fn messages_to_the_panel() {
    let mut p = InfoPanel::new();
    p.toggle();
    p.update(|mut c| {
        c.phase = "Lobby".to_string();
        c
    });
    assert_eq!(p.content.phase, "Lobby");
    assert_eq!(p.queue.len(), 2);
    let mut app = PanelApp::new();
    assert!(app.visible);
    assert!(app.read_messages(&p.queue));
    assert!(!app.visible);
    assert_eq!(app.content.phase, "Lobby");
    assert!(app.read_messages(&vec![PanelMsg::Show]));
    assert!(app.visible);
    assert!(!app.read_messages(&vec![]));
    p.destroy();
    assert_eq!(p.queue.len(), 2);
}

#[test]
fn the_panel_applies_its_opacity() {
    let mut app = PanelApp::new();
    assert_eq!(app.opacity_to_apply(95), Some(95));
    app.opacity_applied(95, false);
    assert_eq!(app.opacity_to_apply(95), Some(95));
    app.opacity_applied(95, true);
    assert_eq!(app.opacity_to_apply(95), None);
    app.visible = false;
    assert_eq!(app.opacity_to_apply(50), None);
    assert!(app.close_requested(true) == Some(PanelAction::Quit));
    assert!(app.close_requested(false).is_none());
}

#[test]
fn the_sections_of_the_panel() {
    let mut content = PanelContent::default();
    assert_eq!(draw_status_section(&content), ("等待中...".to_string(), "—".to_string()));
    content.connection = "ok".to_string();
    content.phase = "Lobby".to_string();
    assert_eq!(draw_status_section(&content.copy()), ("ok".to_string(), "Lobby".to_string()));
    assert_eq!(optional_section(""), None);
    assert_eq!(optional_section("x").as_deref(), Some("x"));
}

#[test]
fn the_settings_of_the_panel() {
    let mut config = AppConfig::default();
    let rows = draw_settings_section(&config);
    assert_eq!(rows.len(), 13);
    assert!(matches!(rows[2], SettingRow::Slider(_, SliderOption::AcceptDelay, 0, 15, "s")));
    assert!(matches!(rows[10], SettingRow::Slider(_, SliderOption::MemoryThreshold, 500, 4000, " MB")));
    let before = config;
    assert!(!settings_changed(&before, &config));
    config.auto_accept_enabled = false;
    config.memory_monitor = false;
    assert!(settings_changed(&before, &config));
    assert_eq!(draw_settings_section(&config).len(), 11);
}

#[test]
fn the_panel_prefers_a_second_monitor() {
    let first = Monitor { primary: true, work: rect(0, 0, 1920, 1040) };
    let second = Monitor { primary: false, work: rect(1920, 0, 3840, 1040) };
    let third = Monitor { primary: false, work: rect(-800, 0, 0, 600) };
    assert!(find_secondary_monitor(&vec![Some(first), None, Some(second), Some(third)]) == Some(second.work));
    assert!(find_secondary_monitor(&vec![Some(first), None]).is_none());
    assert!(find_secondary_monitor(&vec![]).is_none());
}
