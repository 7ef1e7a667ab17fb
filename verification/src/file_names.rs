//! File names offered when saving or exporting a drawing, and the status
//! texts that report a save.
//!
//! Paths are plain strings here; how a path splits into a file name, a stem
//! and an extension is std's `Path` logic, reached through the wrappers
//! below.

use crate::text::{decimal, decimal_string, eq_ignore_case, lower, str_eq};
use vstd::prelude::*;

verus! {

/// The tooltip of the quick-access Save button.
pub const SAVE_TOOLTIP: &'static str = "Save\nCtrl+S";

/// What a PDF plot covers.
#[derive(Debug, Clone, Copy, PartialEq, Eq, Structural)]
pub enum PdfPlotAreaKind {
    Extents,
    Window,
}

impl PdfPlotAreaKind {
    pub fn label(self) -> (label: &'static str)
        ensures
            label@ == (match self {
                PdfPlotAreaKind::Extents => "Extents"@,
                PdfPlotAreaKind::Window => "Window"@,
            }),
    {
        match self {
            PdfPlotAreaKind::Extents => "Extents",
            PdfPlotAreaKind::Window => "Window",
        }
    }
}

/// `Path::file_name` of a path: its final component, if it has one.
pub uninterp spec fn file_name_of(path: Seq<char>) -> Option<Seq<char>>;

/// The index of the last `.` in `name` before `upto`, or -1.
pub open spec fn last_dot(name: Seq<char>, upto: int) -> int
    decreases upto,
{
    if upto <= 0 {
        -1
    } else if name[upto - 1] == '.' {
        upto - 1
    } else {
        last_dot(name, upto - 1)
    }
}

/// The file name splits at its last `.` into stem and extension, unless
/// it is `..`, has no `.`, or its only `.` is its first character.
pub open spec fn splits_at_dot(name: Seq<char>) -> bool {
    name != ".."@ && last_dot(name, name.len() as int) > 0
}

/// `Path::file_stem` of a path, as std documents it: none without a file
/// name; the whole file name when it does not split at a dot; otherwise
/// the part before the last `.`.
pub open spec fn file_stem_of(path: Seq<char>) -> Option<Seq<char>> {
    match file_name_of(path) {
        None => None,
        Some(name) => if splits_at_dot(name) {
            Some(name.take(last_dot(name, name.len() as int)))
        } else {
            Some(name)
        },
    }
}

/// `Path::extension` of a path, as std documents it: the part of the file
/// name after its last `.`, when the name splits at a dot.
pub open spec fn extension_of(path: Seq<char>) -> Option<Seq<char>> {
    match file_name_of(path) {
        None => None,
        Some(name) => if splits_at_dot(name) {
            Some(name.skip(last_dot(name, name.len() as int) + 1))
        } else {
            None
        },
    }
}

/// `Path::with_extension` of a path and an extension.
pub uninterp spec fn with_extension_of(path: Seq<char>, extension: Seq<char>) -> Seq<char>;

pub open spec fn opt_view(s: Option<String>) -> Option<Seq<char>> {
    match s {
        Some(t) => Some(t@),
        None => None,
    }
}

/// std's `Path::file_name`; the contract names the result and claims no
/// more of it.
#[verifier::external_body]
fn path_file_name(path: &str) -> (name: Option<String>)
    ensures
        opt_view(name) == file_name_of(path@),
{
    std::path::Path::new(path).file_name().map(|n| n.to_string_lossy().into_owned())
}

/// std's `Path::file_stem`; the contract states the result as std's
/// documentation gives it, from the file name.
#[verifier::external_body]
fn path_file_stem(path: &str) -> (stem: Option<String>)
    ensures
        opt_view(stem) == file_stem_of(path@),
{
    std::path::Path::new(path).file_stem().map(|n| n.to_string_lossy().into_owned())
}

/// std's `Path::extension`; the contract states the result as std's
/// documentation gives it, from the file name.
#[verifier::external_body]
fn path_extension(path: &str) -> (extension: Option<String>)
    ensures
        opt_view(extension) == extension_of(path@),
{
    std::path::Path::new(path).extension().map(|n| n.to_string_lossy().into_owned())
}

/// An extension std can put on a path: it holds no path separator (`/`,
/// and `\\` on Windows), on which `Path::with_extension` panics.
pub open spec fn plain_extension(extension: Seq<char>) -> bool {
    !extension.contains('/') && !extension.contains('\\')
}

/// std's `Path::with_extension`; the contract names the result and claims
/// no more of it. std panics on an extension that holds a path separator,
/// which `requires` leaves out.
#[verifier::external_body]
fn path_with_extension(path: &str, extension: &str) -> (result: String)
    requires
        plain_extension(extension@),
    ensures
        result@ == with_extension_of(path@, extension@),
{
    std::path::Path::new(path).with_extension(extension).to_string_lossy().into_owned()
}

/// The name a status line shows for a path: its file name, or the whole
/// path when it has none.
pub open spec fn shown_name(path: Seq<char>) -> Seq<char> {
    match file_name_of(path) {
        Some(name) => name,
        None => path,
    }
}

pub fn file_name(path: &str) -> (name: String)
    ensures
        name@ == shown_name(path@),
{
    match path_file_name(path) {
        Some(name) => name,
        None => path.to_string(),
    }
}

/// The stem new file names are made from: the stem of the drawing's file
/// name, or "drawing" for an untitled drawing.
pub open spec fn stem_for(file_name: Seq<char>) -> Seq<char> {
    match file_stem_of(file_name) {
        Some(stem) => if stem == "(untitled)"@ {
            "drawing"@
        } else {
            stem
        },
        None => "drawing"@,
    }
}

pub fn drawing_stem(file_name: &str) -> (stem: String)
    ensures
        stem@ == stem_for(file_name@),
{
    match path_file_stem(file_name) {
        Some(stem) => {
            if str_eq(stem.as_str(), "(untitled)") {
                "drawing".to_string()
            } else {
                stem
            }
        },
        None => "drawing".to_string(),
    }
}

/// `stem.extension`.
pub open spec fn stem_name(stem: Seq<char>, extension: Seq<char>) -> Seq<char> {
    stem + "."@ + extension
}

/// Whether a text ends with `suffix`.
pub open spec fn ends_with(text: Seq<char>, suffix: Seq<char>) -> bool {
    suffix.len() <= text.len() && text.subrange(text.len() - suffix.len(), text.len() as int)
        == suffix
}

fn text_ends_with(text: &str, suffix: &str) -> (found: bool)
    ensures
        found == ends_with(text@, suffix@),
{
    let t = crate::text::chars_of(text);
    let s = crate::text::chars_of(suffix);
    if s.len() > t.len() {
        return false;
    }
    let offset = t.len() - s.len();
    let mut i: usize = 0;
    while i < s.len()
        invariant
            t@ == text@,
            s@ == suffix@,
            offset == t@.len() - s@.len(),
            t@.len() <= usize::MAX,
            i <= s@.len(),
            forall|k: int| 0 <= k < i ==> t@[offset + k] == s@[k],
        decreases s@.len() - i,
    {
        if t[offset + i] != s[i] {
            assert(text@.subrange(offset as int, text@.len() as int)[i as int] != suffix@[i as int]);
            return false;
        }
        i = i + 1;
    }
    assert(text@.subrange(offset as int, text@.len() as int) =~= suffix@);
    true
}

/// The name a DWG copy of a drawing is saved under: the stem marked
/// "-MyCad" (once), then the extension.
pub open spec fn copy_name(file_name: Seq<char>, extension: Seq<char>) -> Seq<char> {
    let stem = stem_for(file_name);
    if ends_with(stem, "-MyCad"@) {
        stem_name(stem, extension)
    } else {
        stem_name(stem + "-MyCad"@, extension)
    }
}

pub fn drawing_stem_name(file_name: &str, extension: &str) -> (name: String)
    ensures
        name@ == stem_name(stem_for(file_name@), extension@),
{
    let mut name = drawing_stem(file_name);
    name.append(".");
    name.append(extension);
    name
}

pub fn drawing_copy_name(file_name: &str, extension: &str) -> (name: String)
    ensures
        name@ == copy_name(file_name@, extension@),
{
    let mut name = drawing_stem(file_name);
    if !text_ends_with(name.as_str(), "-MyCad") {
        name.append("-MyCad");
    }
    name.append(".");
    name.append(extension);
    name
}

/// The name offered by Save As: a "-MyCad" DWG copy, or a DXF of the same
/// stem.
pub fn suggested_save_name(file_name: &str, prefer_dwg: bool) -> (name: String)
    ensures
        name@ == if prefer_dwg {
            copy_name(file_name@, "dwg"@)
        } else {
            stem_name(stem_for(file_name@), "dxf"@)
        },
{
    if prefer_dwg {
        drawing_copy_name(file_name, "dwg")
    } else {
        drawing_stem_name(file_name, "dxf")
    }
}

/// The name offered by PDF export.
pub fn suggested_pdf_name(file_name: &str) -> (name: String)
    ensures
        name@ == stem_name(stem_for(file_name@), "pdf"@),
{
    drawing_stem_name(file_name, "pdf")
}

/// A path with the extension `extension`: kept when it already has it (in
/// any ASCII case), otherwise given it.
pub open spec fn with_extension_spec(path: Seq<char>, extension: Seq<char>) -> Seq<char> {
    match extension_of(path) {
        Some(ext) => if lower(ext) == lower(extension) {
            path
        } else {
            with_extension_of(path, extension)
        },
        None => with_extension_of(path, extension),
    }
}

pub fn with_extension(path: String, extension: &str) -> (result: String)
    requires
        plain_extension(extension@),
    ensures
        result@ == with_extension_spec(path@, extension@),
{
    match path_extension(path.as_str()) {
        Some(ext) => {
            if eq_ignore_case(ext.as_str(), extension) {
                path
            } else {
                path_with_extension(path.as_str(), extension)
            }
        },
        None => path_with_extension(path.as_str(), extension),
    }
}

pub fn with_pdf_extension(path: String) -> (result: String)
    ensures
        result@ == with_extension_spec(path@, "pdf"@),
{
    proof {
        reveal_strlit("pdf");
    }
    with_extension(path, "pdf")
}

/// A drawing format Save can write, as the writer recognizes it from a
/// path's extension.
#[derive(Debug, Clone, Copy, PartialEq, Eq, Structural)]
pub enum CadFormat {
    Dwg,
    Dxf,
}

/// The path Save As writes: one whose format the writer recognizes
/// (`format`) is kept; otherwise it gets the preferred format's extension.
pub fn with_save_extension(path: String, prefer_dwg: bool, format: Option<CadFormat>) -> (result:
    String)
    ensures
        format is Some ==> result@ == path@,
        format is None ==> result@ == with_extension_spec(
            path@,
            if prefer_dwg {
                "dwg"@
            } else {
                "dxf"@
            },
        ),
{
    match format {
        Some(_) => path,
        None => {
            proof {
                reveal_strlit("dwg");
                reveal_strlit("dxf");
            }
            with_extension(path, if prefer_dwg { "dwg" } else { "dxf" })
        },
    }
}

/// Where Save may write without asking: the drawing's own file when it is
/// a DXF, or a DWG that MyCad wrote (this session, or one named as a MyCad
/// copy); `format` is the writer's reading of the source path.
pub fn in_place_cad_path(source: Option<&str>, format: Option<CadFormat>, written_by_mycad: bool) -> (path:
    Option<String>)
    ensures
        path matches Some(p) ==> source matches Some(s) && p@ == s@,
        path is Some <==> (source is Some && (format == Some(CadFormat::Dxf) || (format == Some(
            CadFormat::Dwg,
        ) && (written_by_mycad || (file_stem_of(source.unwrap()@) matches Some(stem) && ends_with(
            stem,
            "-MyCad"@,
        )))))),
{
    let source = match source {
        None => return None,
        Some(source) => source,
    };
    match format {
        Some(CadFormat::Dxf) => Some(source.to_string()),
        Some(CadFormat::Dwg) => {
            if written_by_mycad || is_mycad_saved_dwg(source) {
                Some(source.to_string())
            } else {
                None
            }
        },
        None => None,
    }
}

/// Whether a DWG was written by MyCad: its stem ends with "-MyCad".
pub fn is_mycad_saved_dwg(path: &str) -> (saved: bool)
    ensures
        saved == (file_stem_of(path@) matches Some(stem) && ends_with(stem, "-MyCad"@)),
{
    match path_file_stem(path) {
        Some(stem) => text_ends_with(stem.as_str(), "-MyCad"),
        None => false,
    }
}

/// The warning shown before saving a drawing with `count` entities that
/// cannot be preserved.
pub open spec fn lossy_text(count: nat) -> Seq<char> {
    "This drawing contains "@ + decimal(count) + if count == 1 {
        " entity"@
    } else {
        " entities"@
    } + " that MyCad cannot fully preserve. Saving as DWG/DXF may change or remove unsupported content."@
}

pub fn lossy_save_message(count: u64) -> (message: String)
    ensures
        message@ == lossy_text(count as nat),
{
    let mut message = "This drawing contains ".to_string();
    let number = decimal_string(count);
    message.append(number.as_str());
    if count == 1 {
        message.append(" entity");
    } else {
        message.append(" entities");
    }
    message.append(
        " that MyCad cannot fully preserve. Saving as DWG/DXF may change or remove unsupported content.",
    );
    message
}

/// The status line after a failed save.
pub fn format_save_failed(error: &str) -> (message: String)
    ensures
        message@ == "Save failed: "@ + error@,
{
    let mut message = "Save failed: ".to_string();
    message.append(error);
    message
}

/// The status line after a save: a DWG written with compatibility warnings
/// says how many; otherwise the file name.
pub open spec fn save_status_text(path: Seq<char>, is_dwg: bool, warnings: nat) -> Seq<char> {
    if is_dwg && warnings > 0 {
        "DWG saved with "@ + decimal(warnings) + if warnings == 1 {
            " compatibility warning"@
        } else {
            " compatibility warnings"@
        }
    } else {
        "Saved "@ + shown_name(path)
    }
}

pub fn format_save_status(path: &str, is_dwg: bool, warnings: usize) -> (message: String)
    ensures
        message@ == save_status_text(path@, is_dwg, warnings as nat),
{
    if is_dwg && warnings > 0 {
        let mut message = "DWG saved with ".to_string();
        let number = decimal_string(warnings as u64);
        message.append(number.as_str());
        if warnings == 1 {
            message.append(" compatibility warning");
        } else {
            message.append(" compatibility warnings");
        }
        message
    } else {
        let mut message = "Saved ".to_string();
        let name = file_name(path);
        message.append(name.as_str());
        message
    }
}

/// The status line after a PDF export.
pub fn format_pdf_export_status(path: &str) -> (message: String)
    ensures
        message@ == "Exported "@ + shown_name(path@),
{
    let mut message = "Exported ".to_string();
    let name = file_name(path);
    message.append(name.as_str());
    message
}

} // verus!
