//! Candidate records: what the catalog says of an image, and what the
//! collection keeps of it once downloaded.
use vstd::prelude::*;
use crate::rating::{Category, Rating};

verus! {

/// Relies on `std::io::Error` only as an opaque value carried back to the caller.
#[verifier::external_type_specification]
#[verifier::external_body]
pub struct ExIoError(std::io::Error);

/// One image as the catalog lists it.
#[derive(Debug, Clone, PartialEq, Eq)]
pub struct KonachanWallpaper {
    pub md5: String,
    pub file_url: String,
    pub width: i32,
    pub height: i32,
    pub score: i32,
    pub rating: Rating,
}

/// Where the cropped variant lies and where the crop box stood in the resized image.
#[derive(Debug, Clone, PartialEq, Eq)]
pub struct CropData {
    pub cropped_image_path: String,
    pub crop_offset_x: i32,
    pub crop_offset_y: i32,
}

/// Which variant of a candidate is shown.
#[derive(Clone, Copy, Debug, PartialEq, Eq, Structural, PartialOrd, Ord, Hash)]
pub enum Prefered {
    Original,
    Cropped,
}

/// Applying an artifact as the active display failed.
#[derive(Debug)]
pub enum SetWallpaperError {
    IOError(std::io::Error),
}

/// A candidate of the collection, one record per content hash.
#[derive(Debug, Clone, PartialEq, Eq)]
pub struct Wallpaper {
    pub md5: String,
    pub original_url: String,
    pub original_width: i32,
    pub original_height: i32,
    pub score: i32,
    pub rating: Rating,
    pub prefered: Prefered,
    pub category: Option<Category>,
    pub downloaded_image_path: String,
    pub crop_data: Option<CropData>,
}

/// The way an artifact is made the active display (a command, or a record of
/// the paths shown).
pub trait ApplyArtifact {
    /// The paths shown so far, oldest first; an implementation that keeps no
    /// record states none.
    open spec fn applied(&self) -> Seq<Seq<char>> {
        Seq::empty()
    }

    /// Shows the artifact at `path`; a success adds it to the paths shown, a
    /// failure leaves them as they were.
    fn apply(&mut self, path: &str) -> (r: Result<(), SetWallpaperError>)
        ensures
            r is Ok ==> final(self).applied() == old(self).applied().push(path@),
            r is Err ==> final(self).applied() == old(self).applied();
}

/// Shows nothing, and keeps the paths it was asked to show.
#[derive(Debug, Clone)]
pub struct AppliedLog {
    pub paths: Vec<String>,
}

impl AppliedLog {
    /// A record of no paths.
    pub fn new() -> (r: AppliedLog)
        ensures
            r.applied() == Seq::<Seq<char>>::empty(),
    {
        let r = AppliedLog { paths: Vec::new() };
        assert(r.paths@.map_values(|s: String| s@) =~= Seq::<Seq<char>>::empty());
        r
    }
}

impl ApplyArtifact for AppliedLog {
    open spec fn applied(&self) -> Seq<Seq<char>> {
        self.paths@.map_values(|s: String| s@)
    }

    fn apply(&mut self, path: &str) -> (r: Result<(), SetWallpaperError>) {
        self.paths.push(path.to_owned());
        assert(self.paths@.map_values(|s: String| s@) =~= old(self).paths@.map_values(|s: String| s@).push(path@));
        Ok(())
    }
}

impl Wallpaper {
    /// The cropped variant is preferred only once it exists.
    pub open spec fn wf(&self) -> bool {
        self.prefered == Prefered::Cropped ==> self.crop_data is Some
    }

    /// The path of the variant that is shown for this candidate: the cropped one
    /// when it is preferred and exists, else the original download.
    pub open spec fn display_path_spec(&self) -> Seq<char> {
        match (self.prefered, self.crop_data) {
            (Prefered::Cropped, Some(c)) => c.cropped_image_path@,
            _ => self.downloaded_image_path@,
        }
    }

    /// A new, undecided record for a catalog entry downloaded to `downloaded_image_path`.
    pub fn from_konachan(wallpaper: KonachanWallpaper, downloaded_image_path: String) -> (r: Wallpaper)
        ensures
            r.md5 == wallpaper.md5,
            r.original_url == wallpaper.file_url,
            r.original_width == wallpaper.width,
            r.original_height == wallpaper.height,
            r.score == wallpaper.score,
            r.rating == wallpaper.rating,
            r.category is None,
            r.prefered == Prefered::Original,
            r.downloaded_image_path == downloaded_image_path,
            r.crop_data is None,
            r.wf(),
    {
        Wallpaper {
            md5: wallpaper.md5,
            original_url: wallpaper.file_url,
            original_width: wallpaper.width,
            original_height: wallpaper.height,
            score: wallpaper.score,
            rating: wallpaper.rating,
            category: None,
            prefered: Prefered::Original,
            downloaded_image_path,
            crop_data: None,
        }
    }

    /// The record with its decision taken back, so that it is reviewed again.
    pub fn reopened(self) -> (r: Wallpaper)
        ensures
            r == (Wallpaper { category: None, ..self }),
    {
        let mut w = self;
        w.category = None;
        w
    }

    /// The path of the variant that is shown for this candidate.
    pub fn display_path(&self) -> (r: &String)
        ensures
            r@ == self.display_path_spec(),
    {
        match (&self.prefered, &self.crop_data) {
            (Prefered::Cropped, Some(crop_data)) => &crop_data.cropped_image_path,
            _ => &self.downloaded_image_path,
        }
    }

    /// Makes the preferred variant the active display, with one call of `apply`
/// on its path, and returns which variant it is.
    pub fn set_prefered<A: ApplyArtifact>(&self, applier: &mut A) -> (r: Result<Prefered, SetWallpaperError>)
        ensures
            r matches Ok(p) ==> p == self.prefered,
            r is Ok ==> final(applier).applied() == old(applier).applied().push(self.display_path_spec()),
            r is Err ==> final(applier).applied() == old(applier).applied(),
    {
        let path = self.display_path();
        match applier.apply(path.as_str()) {
            Ok(()) => Ok(self.prefered),
            Err(e) => Err(e),
        }
    }
}

} // verus!
