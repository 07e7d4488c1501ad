use aniwall::catalog::{lookup_cache, resolve_fetch, CacheLookup};
use aniwall::crop::{
    apply_crop, crop_geometry, cropped_path_for, parse_crop_offset, plan_crop, resize_geometry, search_box, CropError,
    CropPlan,
};
use aniwall::history::History;
use aniwall::pipeline::{process_wallpaper, Curation, ProcessingStatus, Step};
use aniwall::rating::{Category, CategoryPrompt, Rating};
use aniwall::text::ParseIntError;
use aniwall::wallpaper::{AppliedLog, ApplyArtifact, CropData, KonachanWallpaper, Prefered, SetWallpaperError, Wallpaper};

const DAY: u64 = 86400;

fn entry(md5: &str, score: i32) -> KonachanWallpaper {
    KonachanWallpaper {
        md5: md5.to_string(),
        file_url: format!("https://example.org/{md5}.png"),
        width: 2560,
        height: 1440,
        score,
        rating: Rating::Safe,
    }
}

fn candidate(md5: &str) -> Wallpaper {
    Wallpaper::from_konachan(entry(md5, 3), format!("/pics/{md5}.png"))
}

#[test]
fn from_konachan_starts_undecided() {
    let w = candidate("abc");
    assert_eq!(w.md5, "abc");
    assert_eq!(w.original_url, "https://example.org/abc.png");
    assert_eq!((w.original_width, w.original_height, w.score), (2560, 1440, 3));
    assert_eq!(w.prefered, Prefered::Original);
    assert_eq!(w.category, None);
    assert_eq!(w.crop_data, None);
    assert_eq!(w.downloaded_image_path, "/pics/abc.png");
}

#[test]
fn second_lookup_after_fetch_is_served_from_cache() {
    let fetched = vec![entry("a", 1), entry("b", 2)];
    let (list, store) = resolve_fetch::<String>(Ok(fetched.clone()), None).unwrap();
    assert!(store);
    match lookup_cache(Some(list), Some(0)) {
        CacheLookup::Fresh(l) => assert_eq!(l, fetched),
        CacheLookup::Stale(_) => panic!("a stored answer must be fresh"),
    }
}

#[test]
fn six_day_old_entry_is_refetched_three_day_old_is_not() {
    let f1 = vec![entry("old", 1)];
    let f2 = vec![entry("new", 1)];
    match lookup_cache(Some(f1.clone()), Some(6 * DAY)) {
        CacheLookup::Stale(Some(s)) => assert_eq!(s, f1),
        _ => panic!("six days old is stale"),
    }
    let mocked = vec![entry("fetched", 9)];
    let (list, store) = resolve_fetch::<String>(Ok(mocked.clone()), Some(f1)).unwrap();
    assert!(store);
    assert_eq!(list, mocked);
    match lookup_cache(Some(f2.clone()), Some(3 * DAY)) {
        CacheLookup::Fresh(l) => assert_eq!(l, f2),
        _ => panic!("three days old is fresh"),
    }
}

#[test]
fn fresh_bound_is_five_whole_days() {
    let l = vec![entry("a", 1)];
    assert!(matches!(lookup_cache(Some(l.clone()), Some(6 * DAY - 1)), CacheLookup::Fresh(_)));
    assert!(matches!(lookup_cache(Some(l.clone()), None), CacheLookup::Stale(Some(_))));
    assert!(matches!(lookup_cache(Some(l), Some(u64::MAX)), CacheLookup::Stale(Some(_))));
    assert!(matches!(lookup_cache(Some(vec![]), Some(0)), CacheLookup::Stale(Some(_))));
    assert!(matches!(lookup_cache(None, Some(0)), CacheLookup::Stale(None)));
}

#[test]
fn failed_fetch_falls_back_or_fails() {
    let stale = vec![entry("s", 1)];
    let (list, store) = resolve_fetch(Err("offline".to_string()), Some(stale.clone())).unwrap();
    assert_eq!(list, stale);
    assert!(!store);
    assert_eq!(resolve_fetch(Err("offline".to_string()), None), Err("offline".to_string()));
}

#[test]
fn cropped_path_sits_beside_download() {
    assert_eq!(cropped_path_for("/pics/abc.png"), Some("/pics/abc_cropped.png".to_string()));
    assert_eq!(cropped_path_for("abc"), Some("abc_cropped".to_string()));
    assert_eq!(cropped_path_for("dir/a.tar.gz"), Some("dir/a.tar_cropped.gz".to_string()));
    assert_eq!(cropped_path_for("dir/.hidden"), Some("dir/.hidden_cropped".to_string()));
    assert_eq!(cropped_path_for("dir/"), None);
    assert_eq!(cropped_path_for("dir/.."), None);
}

#[test]
fn crop_output_offsets() {
    assert_eq!(parse_crop_offset("1234.5 (0.0188) @ 12,-7"), Ok((12, -7)));
    assert_eq!(parse_crop_offset("0 (0) @ 0,345"), Ok((0, 345)));
    assert_eq!(parse_crop_offset("no answer"), Err(CropError::MissingDelimiter));
    assert_eq!(parse_crop_offset("x @ 12 7"), Err(CropError::MissingSeparator));
    assert_eq!(parse_crop_offset("x @ a,7"), Err(CropError::InvalidOffset(ParseIntError::InvalidDigit)));
    assert_eq!(parse_crop_offset("x @ 1, 7"), Ok((1, 7)));
    assert_eq!(parse_crop_offset("0.1 (0.2) @ 30,40\n"), Ok((30, 40)));
    assert_eq!(parse_crop_offset("x @ 1,7 8"), Err(CropError::InvalidOffset(ParseIntError::InvalidDigit)));
    assert_eq!(parse_crop_offset("x @ 1,"), Err(CropError::InvalidOffset(ParseIntError::Empty)));
    assert_eq!(parse_crop_offset("x @ 1,99999999999"), Err(CropError::InvalidOffset(ParseIntError::Overflow)));
}

#[test]
fn crop_geometries() {
    assert_eq!(resize_geometry(2560, 1440), "2560x1440^");
    assert_eq!(search_box(2560, 1445), "256x144");
    assert_eq!(crop_geometry(2560, 1440, 12, -3), "2560x1440+12+-3");
}

#[test]
fn second_crop_skips_tools_and_keeps_crop_data() {
    let w = candidate("abc");
    let path = match plan_crop(&w, false) {
        Ok(CropPlan::Run(p)) => p,
        other => panic!("expected a run, got {other:?}"),
    };
    assert_eq!(path, "/pics/abc_cropped.png");
    let cropped = apply_crop(w, path.clone(), 40, 0);
    let expected = Some(CropData { cropped_image_path: path, crop_offset_x: 40, crop_offset_y: 0 });
    assert_eq!(cropped.crop_data, expected);
    assert_eq!(cropped.prefered, Prefered::Cropped);
    assert!(matches!(plan_crop(&cropped, true), Ok(CropPlan::Skip)));
    assert_eq!(cropped.crop_data, expected);
    let nameless = Wallpaper { downloaded_image_path: "/pics/".to_string(), ..candidate("x") };
    assert!(matches!(plan_crop(&nameless, false), Err(CropError::NoFileName)));
}

#[test]
fn answers_map_to_statuses() {
    let mut w = candidate("a");
    assert_eq!(process_wallpaper(&mut w, None), ProcessingStatus::Interupted);
    assert_eq!(process_wallpaper(&mut w, Some(CategoryPrompt::NeedsCropping)), ProcessingStatus::ToogleCropped);
    assert_eq!(w.category, None);
    assert_eq!(process_wallpaper(&mut w, Some(CategoryPrompt::Disliked)), ProcessingStatus::Done);
    assert_eq!(w.category, Some(Category::Disliked));
}

struct Recorder {
    shown: Vec<String>,
}

impl ApplyArtifact for Recorder {
    fn apply(&mut self, path: &str) -> Result<(), SetWallpaperError> {
        self.shown.push(path.to_string());
        Ok(())
    }
}

#[test]
fn set_prefered_records_each_shown_path() {
    let mut log = AppliedLog::new();
    let w = candidate("a");
    assert_eq!(w.set_prefered(&mut log).unwrap(), Prefered::Original);
    let c = apply_crop(candidate("b"), "/pics/b_cropped.png".to_string(), 1, 2);
    assert_eq!(c.set_prefered(&mut log).unwrap(), Prefered::Cropped);
    let no_crop = Wallpaper { prefered: Prefered::Cropped, ..candidate("c") };
    assert_eq!(no_crop.set_prefered(&mut log).unwrap(), Prefered::Cropped);
    assert_eq!(log.paths, vec!["/pics/a.png", "/pics/b_cropped.png", "/pics/c.png"]);
}

#[test]
fn set_prefered_shows_preferred_variant() {
    let mut rec = Recorder { shown: vec![] };
    let w = candidate("a");
    assert_eq!(w.set_prefered(&mut rec).unwrap(), Prefered::Original);
    let c = apply_crop(candidate("b"), "/pics/b_cropped.png".to_string(), 1, 2);
    assert_eq!(c.set_prefered(&mut rec).unwrap(), Prefered::Cropped);
    assert_eq!(rec.shown, vec!["/pics/a.png", "/pics/b_cropped.png"]);
}

#[test]
fn categorized_candidate_is_pushed_and_persisted() {
    let mut s = Curation::new(History::new());
    match s.offer(candidate("a")) {
        Step::Present { path, md5, width, height, is_cropped } => {
            assert_eq!((path.as_str(), md5.as_str(), width, height, is_cropped), ("/pics/a.png", "a", 2560, 1440, false));
        }
        other => panic!("expected a prompt, got {other:?}"),
    }
    match s.answer(Some(CategoryPrompt::Liked)) {
        Step::Persist(w) => {
            assert_eq!(w.category, Some(Category::Liked));
            assert_eq!(w.prefered, Prefered::Original);
        }
        other => panic!("expected a record to write, got {other:?}"),
    }
    assert_eq!(s.history().ids(), vec!["a"]);
    assert!(!s.is_busy());
}

#[test]
fn decided_candidate_is_skipped() {
    let mut s = Curation::new(History::new());
    let w = Wallpaper { category: Some(Category::Borked), ..candidate("a") };
    assert!(matches!(s.offer(w), Step::Skip(_)));
    assert!(!s.is_busy());
}

#[test]
fn crop_toggle_round_trip() {
    let mut s = Curation::new(History::new());
    assert!(matches!(s.offer(candidate("a")), Step::Present { is_cropped: false, .. }));
    let to_crop = match s.answer(Some(CategoryPrompt::NeedsCropping)) {
        Step::Crop(w) => w,
        other => panic!("expected a crop, got {other:?}"),
    };
    assert!(s.is_busy());
    assert!(matches!(s.offer(candidate("b")), Step::Busy(_)));
    let cropped = apply_crop(to_crop, "/pics/a_cropped.png".to_string(), 3, 4);
    match s.crop_finished(Ok(cropped)) {
        Step::Present { path, is_cropped, .. } => {
            assert_eq!(path, "/pics/a_cropped.png");
            assert!(is_cropped);
        }
        other => panic!("expected a prompt, got {other:?}"),
    }
    match s.answer(Some(CategoryPrompt::DidNotNeedCropping)) {
        Step::Present { path, is_cropped, .. } => {
            assert_eq!(path, "/pics/a.png");
            assert!(!is_cropped);
        }
        other => panic!("expected a prompt, got {other:?}"),
    }
    assert!(matches!(s.answer(Some(CategoryPrompt::NeedsCropping)), Step::Present { is_cropped: true, .. }));
    match s.answer(Some(CategoryPrompt::Liked)) {
        Step::Persist(w) => {
            assert_eq!(w.prefered, Prefered::Cropped);
            assert!(w.crop_data.is_some());
        }
        other => panic!("expected a record to write, got {other:?}"),
    }
}

#[test]
fn failed_crop_frees_the_prompt() {
    let mut s = Curation::new(History::new());
    s.offer(candidate("a"));
    assert!(matches!(s.answer(Some(CategoryPrompt::NeedsCropping)), Step::Crop(_)));
    let r = s.crop_finished(Err(CropError::Tool("magick missing".to_string())));
    assert!(matches!(r, Step::Abandoned(CropError::Tool(_))));
    assert!(!s.is_busy());
    assert_eq!(s.history().len(), 0);
}

#[test]
fn interruption_rewinds_and_cancels() {
    let h = History::from_parts(vec!["x".to_string(), "y".to_string()], 1).unwrap();
    let mut s = Curation::new(h);
    s.offer(candidate("a"));
    match s.answer(None) {
        Step::Rewind(id) => assert_eq!(id, Some("x".to_string())),
        other => panic!("expected a rewind, got {other:?}"),
    }
    assert!(s.is_cancelled());
    assert_eq!(s.history().idx(), 0);
    assert!(matches!(s.offer(candidate("b")), Step::Stopped));
}

#[test]
fn cancellation_halts_queued_candidates() {
    let mut s = Curation::new(History::new());
    assert!(matches!(s.offer(candidate("a")), Step::Present { .. }));
    assert!(matches!(s.answer(Some(CategoryPrompt::Liked)), Step::Persist(_)));
    assert!(matches!(s.offer(candidate("b")), Step::Present { .. }));
    s.cancel();
    assert!(matches!(s.answer(Some(CategoryPrompt::Liked)), Step::Stopped));
    for id in ["c", "d", "e"] {
        assert!(matches!(s.offer(candidate(id)), Step::Stopped));
    }
    assert_eq!(s.history().ids(), vec!["a"]);
}

#[test]
fn at_most_one_prompt_outstanding() {
    let mut s = Curation::new(History::new());
    let mut outstanding = 0;
    let mut max_seen = 0;
    let mut queue = vec![candidate("direct")];
    s.offer(candidate("first"));
    outstanding += 1;
    max_seen = max_seen.max(outstanding);
    let rejoin = match s.answer(Some(CategoryPrompt::NeedsCropping)) {
        Step::Crop(w) => w,
        other => panic!("expected a crop, got {other:?}"),
    };
    outstanding -= 1;
    let direct = queue.pop().unwrap();
    let back = match s.offer(direct) {
        Step::Busy(w) => w,
        Step::Present { .. } => panic!("a second prompt while the crop is pending"),
        other => panic!("unexpected {other:?}"),
    };
    if let Step::Present { .. } = s.crop_finished(Ok(apply_crop(rejoin, "/pics/first_cropped.png".to_string(), 0, 0))) {
        outstanding += 1;
        max_seen = max_seen.max(outstanding);
    }
    assert!(matches!(s.offer(back.clone()), Step::Busy(_)));
    assert!(matches!(s.answer(Some(CategoryPrompt::Borked)), Step::Persist(_)));
    outstanding -= 1;
    if let Step::Present { .. } = s.offer(back) {
        outstanding += 1;
        max_seen = max_seen.max(outstanding);
    }
    assert_eq!(max_seen, 1);
    assert_eq!(outstanding, 1);
}
