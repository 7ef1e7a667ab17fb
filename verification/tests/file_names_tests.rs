use mycad::file_names::{
    drawing_stem, file_name, in_place_cad_path, with_save_extension, CadFormat, format_pdf_export_status, format_save_failed, format_save_status,
    is_mycad_saved_dwg, lossy_save_message, suggested_pdf_name, suggested_save_name, with_extension,
    with_pdf_extension, PdfPlotAreaKind, SAVE_TOOLTIP,
};

#[test]
fn save_failed_status_prefixes_the_error() {
    assert_eq!(format_save_failed("disk full"), "Save failed: disk full");
}

#[test]
fn save_quick_access_tooltip_is_save_and_shortcut() {
    assert_eq!(SAVE_TOOLTIP, "Save\nCtrl+S");
}

#[test]
fn lossy_save_message_uses_singular_and_plural() {
    assert_eq!(
        lossy_save_message(1),
        "This drawing contains 1 entity that MyCad cannot fully preserve. Saving as DWG/DXF may change or remove unsupported content."
    );
    assert_eq!(
        lossy_save_message(14),
        "This drawing contains 14 entities that MyCad cannot fully preserve. Saving as DWG/DXF may change or remove unsupported content."
    );
}

#[test]
fn dwg_source_suggests_a_mycad_copy_name() {
    assert_eq!(suggested_save_name("plant.dwg", true), "plant-MyCad.dwg");
    assert_eq!(suggested_save_name("plant.dwg", false), "plant.dxf");
}

#[test]
fn existing_mycad_suffix_is_not_repeated() {
    assert_eq!(suggested_save_name("plant-MyCad.dwg", true), "plant-MyCad.dwg");
}

#[test]
fn untitled_drawing_uses_a_generic_dxf_name() {
    assert_eq!(suggested_save_name("(untitled)", false), "drawing.dxf");
    assert_eq!(suggested_save_name("(untitled)", true), "drawing-MyCad.dwg");
}

#[test]
fn pdf_name_does_not_reuse_dxf_extension() {
    assert_eq!(suggested_pdf_name("plant.dxf"), "plant.pdf");
}

#[test]
fn export_status_does_not_say_saved() {
    assert_eq!(format_pdf_export_status("Plant.pdf"), "Exported Plant.pdf");
}

#[test]
fn save_status_uses_the_file_name() {
    assert_eq!(format_save_status("Plant.dxf", false, 0), "Saved Plant.dxf");
    assert_eq!(format_save_status("Plant.dwg", true, 0), "Saved Plant.dwg");
}

#[test]
fn dwg_status_reports_compatibility_warnings() {
    assert_eq!(format_save_status("Plant.dwg", true, 3), "DWG saved with 3 compatibility warnings");
    assert_eq!(format_save_status("Plant.dwg", true, 1), "DWG saved with 1 compatibility warning");
    assert_eq!(format_save_status("Plant.dxf", false, 3), "Saved Plant.dxf");
}

#[test]
fn mycad_dwg_copy_is_recognised() {
    assert!(is_mycad_saved_dwg("plant-MyCad.dwg"));
    assert!(is_mycad_saved_dwg("dir/plant-MyCad.dwg"));
    assert!(!is_mycad_saved_dwg("plant.dwg"));
}

#[test]
fn extensions_are_added_unless_present() {
    assert_eq!(with_pdf_extension("sheet".to_string()), "sheet.pdf");
    assert_eq!(with_pdf_extension("sheet.PDF".to_string()), "sheet.PDF");
    assert_eq!(with_pdf_extension("sheet.dxf".to_string()), "sheet.pdf");
    assert_eq!(with_extension("out".to_string(), "dxf"), "out.dxf");
    assert_eq!(file_name("dir/Plant.dxf"), "Plant.dxf");
    assert_eq!(drawing_stem("dir/plant.dwg"), "plant");
    assert_eq!(PdfPlotAreaKind::Window.label(), "Window");
}

/// How the drawing writer reads a path's format: by its extension, in any
/// ASCII case.
fn writer_format(path: &str) -> Option<CadFormat> {
    let ext = std::path::Path::new(path).extension()?.to_str()?;
    if ext.eq_ignore_ascii_case("dwg") {
        Some(CadFormat::Dwg)
    } else if ext.eq_ignore_ascii_case("dxf") {
        Some(CadFormat::Dxf)
    } else {
        None
    }
}

fn save_path(path: &str, prefer_dwg: bool) -> String {
    with_save_extension(path.to_string(), prefer_dwg, writer_format(path))
}

fn in_place(source: &str, written_by_mycad: bool) -> Option<String> {
    in_place_cad_path(Some(source), writer_format(source), written_by_mycad)
}

#[test]
fn save_extension_follows_chosen_format() {
    assert_eq!(save_path("out.dwg", false), "out.dwg");
    assert_eq!(save_path("out.DXF", true), "out.DXF");
    assert_eq!(save_path("out", false), "out.dxf");
    assert_eq!(save_path("out", true), "out.dwg");
}

#[test]
fn dwg_source_cannot_save_in_place() {
    assert!(in_place("plant.dwg", false).is_none());
}

#[test]
fn mycad_dwg_copy_can_save_in_place() {
    assert_eq!(in_place("plant-MyCad.dwg", false).as_deref(), Some("plant-MyCad.dwg"));
}

#[test]
fn session_written_dwg_can_save_in_place() {
    assert_eq!(in_place("custom.dwg", true).as_deref(), Some("custom.dwg"));
}

#[test]
fn saved_dxf_can_save_in_place() {
    assert_eq!(in_place("plant.dxf", false).as_deref(), Some("plant.dxf"));
}

#[test]
fn pdf_source_cannot_save_in_place() {
    assert!(in_place("sheet.pdf", false).is_none());
}

#[test]
fn an_untitled_drawing_has_no_file_to_save_in_place() {
    assert!(in_place_cad_path(None, None, true).is_none());
}
