use mycad::dialogs::{CardAction, ToolbarAction};
use mycad::dynamic_block::{unique_parameter_name, ConvertDialogResult, ConvertMode};
use mycad::drafting::{DraftingPreferences, PointSource, RunningSnaps, SnapKind};
use mycad::input::InputAction;
use mycad::perf::{default_sample_path, timed, Sample, DEFAULT_SAMPLE};
use mycad::preview::{draw_line, put_pixel};
use mycad::properties::{shared_text, truncate, yes_no};
use mycad::settings_ui::{CaptureTarget, SettingsTab};

#[test]
fn put_pixel_ignores_points_off_the_buffer() {
    let mut pixels = vec![0u8; 2 * 2 * 3];
    put_pixel(&mut pixels, 2, 2, 1, 1, 10, 20, 30);
    assert_eq!(&pixels[9..12], &[10, 20, 30]);
    put_pixel(&mut pixels, 2, 2, 2, 0, 1, 1, 1);
    put_pixel(&mut pixels, 2, 2, -1, 0, 1, 1, 1);
    assert_eq!(pixels.iter().filter(|b| **b != 0).count(), 3);
}

#[test]
fn a_diagonal_paints_both_ends_and_the_middle() {
    let (w, h) = (4u32, 4u32);
    let mut pixels = vec![0u8; (w * h * 3) as usize];
    draw_line(&mut pixels, w, h, 0, 0, 3, 3, 255, 0, 0);
    for i in 0..4usize {
        let idx = (i * 4 + i) * 3;
        assert_eq!(pixels[idx], 255);
    }
    assert_eq!(pixels.iter().filter(|b| **b == 255).count(), 4);
}

#[test]
fn a_line_far_off_the_buffer_gives_up() {
    let (w, h) = (2u32, 2u32);
    let mut pixels = vec![0u8; (w * h * 3) as usize];
    draw_line(&mut pixels, w, h, -100, -100, -50, -90, 9, 9, 9);
    assert!(pixels.iter().all(|b| *b == 0));
    draw_line(&mut pixels, w, h, -5, 0, 5, 1, 9, 9, 9);
    assert!(pixels.iter().any(|b| *b == 9));
}

#[test]
fn property_texts() {
    assert_eq!(yes_no(true), "Yes");
    assert_eq!(yes_no(false), "No");
    assert_eq!(truncate("ab\ncd", 10), "ab cd");
    assert_eq!(truncate("abcdef", 4), "abc…");
    assert_eq!(truncate("abcdef", 0), "…");
    assert_eq!(shared_text(&[]), "—");
    assert_eq!(shared_text(&["0".to_string(), "0".to_string()]), "0");
    assert_eq!(shared_text(&["0".to_string(), "Walls".to_string()]), "Mixed");
}

#[test]
fn drafting_defaults_and_point_source() {
    let preferences = DraftingPreferences::default();
    assert!(!preferences.ortho_enabled);
    assert!(preferences.osnap_enabled);
    assert_eq!(preferences.running_snaps, RunningSnaps::default());
    let snaps = RunningSnaps { endpoint: true, midpoint: false, center: true };
    assert!(snaps.contains(SnapKind::Endpoint));
    assert!(!snaps.contains(SnapKind::Midpoint));
    let ortho = DraftingPreferences { ortho_enabled: true, ..preferences };
    assert_eq!(ortho.point_source(false, false, true), PointSource::Ortho);
    assert_eq!(ortho.point_source(false, true, true), PointSource::Cursor);
    assert_eq!(ortho.point_source(true, false, true), PointSource::Snap);
    assert_eq!(preferences.point_source(false, true, true), PointSource::Ortho);
    assert_eq!(preferences.point_source(false, true, false), PointSource::Cursor);
}

#[test]
fn settings_capture_and_dialog_outcomes() {
    assert!(CaptureTarget::Add { action: InputAction::Pan }.prefers_drag());
    assert!(!CaptureTarget::Replace { action: InputAction::SelectReplace, index: 0 }.prefers_drag());
    assert_eq!(SettingsTab::default(), SettingsTab::Viewport);
    assert_ne!(ToolbarAction::Breadcrumb(1), ToolbarAction::Nothing);
    assert_eq!(ConvertDialogResult::Continue(ConvertMode::Shared), ConvertDialogResult::Continue(ConvertMode::Shared));
    assert_ne!(CardAction::Copy, CardAction::Close);
}

#[test]
fn timed_records_one_sample() {
    let mut samples: Vec<Sample> = Vec::new();
    let value = timed("sum", &mut samples, || 2 + 3);
    assert_eq!(value, 5);
    assert_eq!(samples.len(), 1);
    assert_eq!(samples[0].name, "sum");
    assert!(samples[0].detail.is_none());
    assert_eq!(default_sample_path(), DEFAULT_SAMPLE);
    let detailed = Sample::with_detail("clone", std::time::Duration::from_millis(3), "cheap".to_string());
    assert_eq!(detailed.detail.as_deref(), Some("cheap"));
}

#[test]
fn new_parameters_get_free_names() {
    assert_eq!(unique_parameter_name(None, "Width"), "Width");
    let names = vec!["Width".to_string(), "Width 2".to_string()];
    assert_eq!(unique_parameter_name(Some(&names), "Height"), "Height");
    assert_eq!(unique_parameter_name(Some(&names), "Width"), "Width 3");
}
