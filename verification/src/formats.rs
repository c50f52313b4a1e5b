//! The image file kinds the viewer accepts, recognised by file
//! extension (compared case-insensitively over ASCII).

use vstd::prelude::*;

verus! {

use vstd::string::StringSliceAdditionalSpecFns;

/// An image file format the loader can be asked to decode.
#[derive(Clone, Copy, PartialEq, Eq, Structural, Debug)]
pub enum ImageKind {
    PngFile,
    JpegFile,
    GifFile,
    WebPFile,
    BmpFile,
    IcoFile,
    TiffFile,
}

/// ASCII lowercase of one byte.
pub open spec fn lower_ascii(b: u8) -> u8 {
    if 65 <= b <= 90 {
        (b + 32) as u8
    } else {
        b
    }
}

/// ASCII lowercase of a byte string.
pub open spec fn lowered(s: Seq<u8>) -> Seq<u8> {
    s.map_values(|b: u8| lower_ascii(b))
}

/// The format a file extension names, if any.
pub open spec fn kind_for_ext(s: Seq<u8>) -> Option<ImageKind> {
    let l = lowered(s);
    if l =~= seq![112u8, 110u8, 103u8] {
        Some(ImageKind::PngFile)
    } else if l =~= seq![106u8, 112u8, 103u8] || l =~= seq![106u8, 112u8, 101u8, 103u8] {
        Some(ImageKind::JpegFile)
    } else if l =~= seq![103u8, 105u8, 102u8] {
        Some(ImageKind::GifFile)
    } else if l =~= seq![119u8, 101u8, 98u8, 112u8] {
        Some(ImageKind::WebPFile)
    } else if l =~= seq![98u8, 109u8, 112u8] {
        Some(ImageKind::BmpFile)
    } else if l =~= seq![105u8, 99u8, 111u8] {
        Some(ImageKind::IcoFile)
    } else if l =~= seq![116u8, 105u8, 102u8, 102u8] || l =~= seq![116u8, 105u8, 102u8] {
        Some(ImageKind::TiffFile)
    } else {
        None
    }
}

/// Lowercase the extension's bytes (ASCII only, as extensions are).
fn lower_bytes(s: &[u8]) -> (r: Vec<u8>)
    ensures
        r@ == lowered(s@),
{
    let n: usize = s.len();
    let mut out: Vec<u8> = Vec::new();
    let mut i: usize = 0;
    while i < n
        invariant
            i <= n,
            n == s@.len(),
            out@.len() == i as int,
            forall|k: int| 0 <= k < i as int ==> out@[k] == lower_ascii(s@[k]),
        decreases n - i,
    {
        let b: u8 = *vstd::slice::slice_index_get(s, i);
        let lb: u8 = if 65 <= b && b <= 90 {
            b + 32
        } else {
            b
        };
        out.push(lb);
        i = i + 1;
    }
    proof {
        assert(out@ =~= lowered(s@));
    }
    out
}

/// Whether a byte vector equals a three-byte word.
fn eq3(v: &Vec<u8>, a: u8, b: u8, c: u8) -> (r: bool)
    ensures
        r == (v@ =~= seq![a, b, c]),
{
    v.len() == 3 && v[0] == a && v[1] == b && v[2] == c
}

/// Whether a byte vector equals a four-byte word.
fn eq4(v: &Vec<u8>, a: u8, b: u8, c: u8, d: u8) -> (r: bool)
    ensures
        r == (v@ =~= seq![a, b, c, d]),
{
    v.len() == 4 && v[0] == a && v[1] == b && v[2] == c && v[3] == d
}

/// The format a file extension names, compared case-insensitively.
pub fn format_from_extension(ext: &str) -> (r: Option<ImageKind>)
    ensures
        r == kind_for_ext(ext.spec_bytes()),
{
    let low: Vec<u8> = lower_bytes(ext.as_bytes());
    if eq3(&low, 112, 110, 103) {
        Some(ImageKind::PngFile)
    } else if eq3(&low, 106, 112, 103) || eq4(&low, 106, 112, 101, 103) {
        Some(ImageKind::JpegFile)
    } else if eq3(&low, 103, 105, 102) {
        Some(ImageKind::GifFile)
    } else if eq4(&low, 119, 101, 98, 112) {
        Some(ImageKind::WebPFile)
    } else if eq3(&low, 98, 109, 112) {
        Some(ImageKind::BmpFile)
    } else if eq3(&low, 105, 99, 111) {
        Some(ImageKind::IcoFile)
    } else if eq4(&low, 116, 105, 102, 102) || eq3(&low, 116, 105, 102) {
        Some(ImageKind::TiffFile)
    } else {
        None
    }
}

} // verus!
