//! The crop worker's rules: where the cropped variant of a download lies, the
//! geometry handed to the image tools, and how their answer is read.
use vstd::prelude::*;
use crate::text::{
    decimal, find_first, first_index, parse_i32, parse_i32_spec, push_char, push_decimal, push_signed_decimal, push_str,
    signed_decimal, trim_bounds, trimmed, ParseIntError,
};
use crate::wallpaper::{CropData, Prefered, Wallpaper};

verus! {

/// Why a crop attempt failed; the candidate stays undecided.
#[derive(Clone, Debug, PartialEq, Eq)]
pub enum CropError {
    /// The download's path names no file.
    NoFileName,
    /// The tool's answer holds no `@` before the offsets.
    MissingDelimiter,
    /// The offsets are not separated by a `,`.
    MissingSeparator,
    /// An offset is not a number.
    InvalidOffset(ParseIntError),
    /// A tool could not be started or failed.
    Tool(String),
}

/// The index just after the last `c` in `s`, or zero when there is none.
pub open spec fn after_last(s: Seq<char>, c: char) -> int
    decreases s.len(),
{
    if s.len() == 0 {
        0
    } else if s.last() == c {
        s.len() as int
    } else {
        after_last(s.drop_last(), c)
    }
}

/// Where the cropped variant of the download at `path` lies: beside it, named by
/// the download's stem with `_cropped` added, under the same extension. There is
/// none when the path ends in no file name (empty, `.` or `..`).
pub open spec fn cropped_path(path: Seq<char>) -> Option<Seq<char>> {
    let k = after_last(path, '/');
    let dir = path.subrange(0, k);
    let name = path.subrange(k, path.len() as int);
    if name.len() == 0 || name == "."@ || name == ".."@ {
        None
    } else {
        let d = after_last(name, '.');
        if d <= 1 {
            Some(dir + name + "_cropped"@)
        } else {
            let stem = name.subrange(0, d - 1);
            let ext = name.subrange(d, name.len() as int);
            if ext.len() == 0 {
                Some(dir + stem + "_cropped"@)
            } else {
                Some(dir + stem + "_cropped."@ + ext)
            }
        }
    }
}

proof fn lemma_after_last(s: Seq<char>, c: char)
    ensures
        0 <= after_last(s, c) <= s.len(),
        after_last(s, c) > 0 ==> s[after_last(s, c) - 1] == c,
        forall|i: int| after_last(s, c) <= i < s.len() ==> s[i] != c,
    decreases s.len(),
{
    if s.len() > 0 && s.last() != c {
        let t = s.drop_last();
        lemma_after_last(t, c);
        assert forall|i: int| after_last(s, c) <= i < s.len() implies s[i] != c by {
            if i < t.len() {
                assert(s[i] == t[i]);
            }
        }
    }
}

/// The index just after the last `c` in `s[from..to]`, or `from` when there is none.
fn find_after_last(s: &str, from: usize, to: usize, c: char) -> (r: usize)
    requires
        from <= to <= s@.len(),
    ensures
        r == from + after_last(s@.subrange(from as int, to as int), c),
{
    let mut k: usize = to;
    while k > from && s.get_char(k - 1) != c
        invariant
            from <= k <= to <= s@.len(),
            after_last(s@.subrange(from as int, to as int), c) == after_last(s@.subrange(from as int, k as int), c),
        decreases k,
    {
        assert(s@.subrange(from as int, k - 1) =~= s@.subrange(from as int, k as int).drop_last());
        k = k - 1;
    }
    k
}

/// Whether `s[from..to]` is exactly the literal `lit`.
fn slice_is(s: &str, from: usize, to: usize, lit: &str) -> (r: bool)
    requires
        from <= to <= s@.len(),
    ensures
        r == (s@.subrange(from as int, to as int) == lit@),
{
    crate::text::str_eq(s.substring_char(from, to), lit)
}

/// Where the cropped variant of the download at `path` lies.
pub fn cropped_path_for(path: &str) -> (r: Option<String>)
    ensures
        match cropped_path(path@) {
            Some(p) => r matches Some(s) && s@ == p,
            None => r is None,
        },
{
    let n = path.unicode_len();
    let k = find_after_last(path, 0, n, '/');
    assert(path@.subrange(0, n as int) =~= path@);
    proof { lemma_after_last(path@, '/'); }
    let ghost name = path@.subrange(k as int, n as int);
    if k == n || slice_is(path, k, n, ".") || slice_is(path, k, n, "..") {
        return None;
    }
    let d = find_after_last(path, k, n, '.');
    proof { lemma_after_last(name, '.'); }
    let mut out = String::new();
    push_str(&mut out, path.substring_char(0, k));
    if d <= k + 1 {
        push_str(&mut out, path.substring_char(k, n));
        push_str(&mut out, "_cropped");
        assert(out@ =~= path@.subrange(0, k as int) + name + "_cropped"@);
    } else {
        push_str(&mut out, path.substring_char(k, d - 1));
        assert(name.subrange(0, d - k - 1) =~= path@.subrange(k as int, d - 1));
        assert(name.subrange(d - k, name.len() as int) =~= path@.subrange(d as int, n as int));
        if d == n {
            push_str(&mut out, "_cropped");
            assert(out@ =~= path@.subrange(0, k as int) + name.subrange(0, d - k - 1) + "_cropped"@);
        } else {
            push_str(&mut out, "_cropped.");
            push_str(&mut out, path.substring_char(d, n));
            assert(out@ =~= path@.subrange(0, k as int) + name.subrange(0, d - k - 1) + "_cropped."@
                + name.subrange(d - k, name.len() as int));
        }
    }
    Some(out)
}

/// The resize geometry: at least `width` by `height`, keeping the aspect ratio.
pub open spec fn resize_geometry_text(width: u16, height: u16) -> Seq<char> {
    decimal(width as nat) + "x"@ + decimal(height as nat) + "^"@
}

/// The size of the box searched for in the tenfold reduced edge map.
pub open spec fn search_box_text(width: u16, height: u16) -> Seq<char> {
    decimal((width / 10) as nat) + "x"@ + decimal((height / 10) as nat)
}

/// The crop geometry: the target box at the found offsets.
pub open spec fn crop_geometry_text(width: u16, height: u16, x: i32, y: i32) -> Seq<char> {
    decimal(width as nat) + "x"@ + decimal(height as nat) + "+"@ + signed_decimal(x as int) + "+"@
        + signed_decimal(y as int)
}

/// The geometry that resizes the original to cover the target box.
pub fn resize_geometry(width: u16, height: u16) -> (r: String)
    ensures
        r@ == resize_geometry_text(width, height),
{
    let mut s = String::new();
    push_decimal(&mut s, width as u64);
    push_str(&mut s, "x");
    push_decimal(&mut s, height as u64);
    push_str(&mut s, "^");
    assert(s@ =~= resize_geometry_text(width, height));
    s
}

/// The box searched for in the edge map.
pub fn search_box(width: u16, height: u16) -> (r: String)
    ensures
        r@ == search_box_text(width, height),
{
    let mut s = String::new();
    push_decimal(&mut s, (width / 10) as u64);
    push_str(&mut s, "x");
    push_decimal(&mut s, (height / 10) as u64);
    assert(s@ =~= search_box_text(width, height));
    s
}

/// The geometry that cuts the target box out of the resized image.
pub fn crop_geometry(width: u16, height: u16, x: i32, y: i32) -> (r: String)
    ensures
        r@ == crop_geometry_text(width, height, x, y),
{
    let mut s = String::new();
    push_decimal(&mut s, width as u64);
    push_str(&mut s, "x");
    push_decimal(&mut s, height as u64);
    push_str(&mut s, "+");
    push_signed_decimal(&mut s, x as i64);
    push_str(&mut s, "+");
    push_signed_decimal(&mut s, y as i64);
    assert(s@ =~= crop_geometry_text(width, height, x, y));
    s
}

/// The offsets after the `@` of the comparison tool's answer: a number, a `,`,
/// and a number running to the end, whitespace around either number allowed.
#[verifier::opaque]
pub open spec fn coords_offset(coords: Seq<char>) -> Result<(i32, i32), CropError> {
    match first_index(coords, ',') {
        None => Err(CropError::MissingSeparator),
        Some(b) => match parse_i32_spec(trimmed(coords.subrange(0, b))) {
            Err(e) => Err(CropError::InvalidOffset(e)),
            Ok(x) => match parse_i32_spec(trimmed(coords.subrange(b + 1, coords.len() as int))) {
                Err(e) => Err(CropError::InvalidOffset(e)),
                Ok(y) => Ok((x, y)),
            },
        },
    }
}

/// The offsets in the comparison tool's answer, read after its first `@`.
pub open spec fn crop_offset(output: Seq<char>) -> Result<(i32, i32), CropError> {
    match first_index(output, '@') {
        None => Err(CropError::MissingDelimiter),
        Some(a) => coords_offset(output.subrange(a + 1, output.len() as int)),
    }
}

/// Reads the offsets that follow the `@` of the tool's answer.
fn parse_coords(coords: &str) -> (r: Result<(i32, i32), CropError>)
    ensures
        r == coords_offset(coords@),
{
    proof { reveal(coords_offset); }
    let m = coords.unicode_len();
    assert(coords@.subrange(0, m as int) =~= coords@);
    let b = match find_first(coords, 0, ',') {
        Some(b) => b,
        None => {
            return Err(CropError::MissingSeparator);
        },
    };
    let x_part = coords.substring_char(0, b);
    let (s0, s1) = trim_bounds(x_part);
    let x_text = x_part.substring_char(s0, s1);
    assert(x_text@ == trimmed(coords@.subrange(0, b as int)));
    let y_part = coords.substring_char(b + 1, m);
    let (t0, t1) = trim_bounds(y_part);
    let y_text = y_part.substring_char(t0, t1);
    assert(y_text@ == trimmed(coords@.subrange(b + 1, m as int)));
    assert(first_index(coords@, ',') == Some(b as int));
    let x = match parse_i32(x_text) {
        Ok(x) => x,
        Err(e) => {
            return Err(CropError::InvalidOffset(e));
        },
    };
    let y = match parse_i32(y_text) {
        Ok(y) => y,
        Err(e) => {
            return Err(CropError::InvalidOffset(e));
        },
    };
    Ok((x, y))
}

/// Reads the offsets out of the comparison tool's answer.
pub fn parse_crop_offset(output: &str) -> (r: Result<(i32, i32), CropError>)
    ensures
        r == crop_offset(output@),
{
    let n = output.unicode_len();
    assert(output@.subrange(0, n as int) =~= output@);
    match find_first(output, 0, '@') {
        Some(a) => {
            assert(first_index(output@, '@') == Some(a as int));
            let coords = output.substring_char(a + 1, n);
            assert(coords@ == output@.subrange(a + 1, output@.len() as int));
            parse_coords(coords)
        },
        None => Err(CropError::MissingDelimiter),
    }
}

/// The candidate once its cropped variant exists at `cropped_path`: it records
/// where and at which offsets, and prefers the cropped variant.
pub open spec fn with_crop(w: Wallpaper, cropped_path: String, x: i32, y: i32) -> Wallpaper {
    Wallpaper {
        crop_data: Some(CropData { cropped_image_path: cropped_path, crop_offset_x: x, crop_offset_y: y }),
        prefered: Prefered::Cropped,
        ..w
    }
}

/// Records the cropped variant made at `cropped_path` with offsets `x`, `y`.
pub fn apply_crop(wallpaper: Wallpaper, cropped_path: String, x: i32, y: i32) -> (r: Wallpaper)
    ensures
        r == with_crop(wallpaper, cropped_path, x, y),
        r.wf(),
{
    let mut wallpaper = wallpaper;
    wallpaper.crop_data = Some(CropData { cropped_image_path: cropped_path, crop_offset_x: x, crop_offset_y: y });
    wallpaper.prefered = Prefered::Cropped;
    wallpaper
}

/// What the crop worker does with a candidate.
#[derive(Debug)]
pub enum CropPlan {
    /// The cropped variant exists already: the candidate is returned unchanged.
    Skip,
    /// Run the tools, writing the cropped variant here.
    Run(String),
}

/// The crop worker's first step: nothing to do when the cropped variant exists at
/// its derived path; otherwise the path where the tools will write it.
pub fn plan_crop(wallpaper: &Wallpaper, artifact_exists: bool) -> (r: Result<CropPlan, CropError>)
    ensures
        match cropped_path(wallpaper.downloaded_image_path@) {
            None => r == Err::<CropPlan, _>(CropError::NoFileName),
            Some(p) => if artifact_exists {
                r matches Ok(CropPlan::Skip)
            } else {
                r matches Ok(CropPlan::Run(s)) && s@ == p
            },
        },
{
    match cropped_path_for(wallpaper.downloaded_image_path.as_str()) {
        None => Err(CropError::NoFileName),
        Some(p) => if artifact_exists {
            Ok(CropPlan::Skip)
        } else {
            Ok(CropPlan::Run(p))
        },
    }
}

/// A crop leaves the download where it was, so a second crop of the result looks
/// for its variant at the same path, where the first one wrote it: the second
/// finds it and skips the tools, returning the candidate, and its crop data, as
/// the first left them.
pub proof fn lemma_second_crop_skips(w: Wallpaper, p: String, x: i32, y: i32)
    requires
        cropped_path(w.downloaded_image_path@) == Some(p@),
    ensures
        cropped_path(with_crop(w, p, x, y).downloaded_image_path@) == Some(p@),
        with_crop(w, p, x, y).crop_data == Some(CropData { cropped_image_path: p, crop_offset_x: x, crop_offset_y: y }),
{
}

} // verus!
