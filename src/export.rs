use vstd::prelude::*;
use crate::decimal::{decimal, format_u64};

verus! {

/// The trim window of a clip. Both boundaries are kept as the decimal text
/// of the seconds value, written at full precision, so that the tool reads
/// exactly the value the caller chose.
pub struct ClipSelection {
    pub start: String,
    pub end: String,
}

/// A pixel rectangle of the source frame. It is not checked against the
/// frame size: the tool reports a rectangle that does not fit.
#[derive(PartialEq, Eq, Structural, Clone, Copy, Debug)]
pub struct CropArea {
    pub x: u32,
    pub y: u32,
    pub width: u32,
    pub height: u32,
}

/// One clip export: source, destination, trim window and crop rectangle.
pub struct ExportArgs {
    pub input_path: String,
    pub output_path: String,
    pub selection: ClipSelection,
    pub crop: CropArea,
}

/// The crop filter `crop=width:height:x:y`.
pub open spec fn crop_filter(c: CropArea) -> Seq<char> {
    "crop="@ + decimal(c.width as nat) + ":"@ + decimal(c.height as nat) + ":"@ + decimal(
        c.x as nat,
    ) + ":"@ + decimal(c.y as nat)
}

/// The encoder's arguments for an export, one token each: input, start and
/// end of the window, crop filter, audio copied as it is, output overwritten.
pub open spec fn export_tokens(a: ExportArgs) -> Seq<Seq<char>> {
    seq![
        "-i"@,
        a.input_path@,
        "-ss"@,
        a.selection.start@,
        "-to"@,
        a.selection.end@,
        "-filter:v"@,
        crop_filter(a.crop),
        "-c:a"@,
        "copy"@,
        "-y"@,
        a.output_path@,
    ]
}

pub open spec fn texts(v: Seq<String>) -> Seq<Seq<char>> {
    v.map_values(|s: String| s@)
}

/// Builds the crop filter of `c`.
pub fn crop_filter_text(c: &CropArea) -> (r: String)
    ensures
        r@ == crop_filter(*c),
{
    let w = format_u64(c.width as u64);
    let h = format_u64(c.height as u64);
    let x = format_u64(c.x as u64);
    let y = format_u64(c.y as u64);
    let r = String::from_str("crop=").concat(w.as_str()).concat(":").concat(h.as_str()).concat(
        ":",
    ).concat(x.as_str()).concat(":").concat(y.as_str());
    r
}

/// Builds the encoder's argument list for an export. Each token stands on
/// its own, so a path is never read as more than one argument.
pub fn export_command_args(a: &ExportArgs) -> (r: Vec<String>)
    ensures
        texts(r@) == export_tokens(*a),
{
    let mut r: Vec<String> = Vec::new();
    r.push(String::from_str("-i"));
    r.push(a.input_path.clone());
    r.push(String::from_str("-ss"));
    r.push(a.selection.start.clone());
    r.push(String::from_str("-to"));
    r.push(a.selection.end.clone());
    r.push(String::from_str("-filter:v"));
    r.push(crop_filter_text(&a.crop));
    r.push(String::from_str("-c:a"));
    r.push(String::from_str("copy"));
    r.push(String::from_str("-y"));
    r.push(a.output_path.clone());
    assert(texts(r@) =~= export_tokens(*a));
    r
}

} // verus!
