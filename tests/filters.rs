use aniwall::catalog::{compute_hash_for_filters, is_last_page, page_url, sort_by_score, PageCollector};
use aniwall::commands::range_or_screen;
use aniwall::filters::{Range, RangeParseError};
use aniwall::rating::{
    Category, CategoryParseError, CategoryPrompt, KonachanRatingFilter, KonachanRatingFilterParseError, Rating,
    RatingParseError,
};
use aniwall::text::ParseIntError;
use aniwall::wallpaper::KonachanWallpaper;

#[test]
fn range_parses_three_forms() {
    assert_eq!(Range::from_str("1920.."), Ok(Range::LeftBounded(1920)));
    assert_eq!(Range::from_str("..1080"), Ok(Range::RightBounded(1080)));
    assert_eq!(Range::from_str("800"), Ok(Range::Exactly(800)));
    assert_eq!(Range::from(7), Range::Exactly(7));
}

#[test]
fn range_refusals() {
    assert_eq!(Range::from_str(".."), Err(RangeParseError::FullRangeNotSupported));
    assert_eq!(Range::from_str("1..2"), Err(RangeParseError::TwoWayRangeNotSupported));
    assert_eq!(Range::from_str("1....2"), Err(RangeParseError::InvalidRange));
    assert_eq!(Range::from_str("..1.."), Err(RangeParseError::InvalidRange));
    assert_eq!(Range::from_str("abc"), Err(RangeParseError::ParseIntError(ParseIntError::InvalidDigit)));
    assert_eq!(Range::from_str(""), Err(RangeParseError::ParseIntError(ParseIntError::Empty)));
    assert_eq!(Range::from_str("70000.."), Err(RangeParseError::ParseIntError(ParseIntError::Overflow)));
    assert_eq!(Range::from_str("..."), Err(RangeParseError::ParseIntError(ParseIntError::InvalidDigit)));
}

#[test]
fn range_text_round_trips() {
    for r in [Range::LeftBounded(1920), Range::RightBounded(0), Range::Exactly(65535)] {
        assert_eq!(Range::from_str(&r.to_text()), Ok(r));
    }
    assert_eq!(Range::LeftBounded(1920).to_text(), "1920..");
    assert_eq!(Range::RightBounded(1080).to_text(), "..1080");
}

#[test]
fn default_range_is_screen_or_more() {
    assert_eq!(range_or_screen(None, 2560), Range::LeftBounded(2560));
    assert_eq!(range_or_screen(Some(Range::Exactly(5)), 2560), Range::Exactly(5));
}

#[test]
fn ratings_and_categories_parse() {
    assert_eq!(KonachanRatingFilter::from_str("qe"), Ok(KonachanRatingFilter::QuestionableAndExplicit));
    assert_eq!(KonachanRatingFilter::from_str("questionableless"), Ok(KonachanRatingFilter::QuestionableAndSafe));
    assert_eq!(KonachanRatingFilter::from_str("nope"), Err(KonachanRatingFilterParseError::VariantNotFound));
    assert_eq!(KonachanRatingFilter::QuestionableAndExplicit.as_str(), "questionableplus");
    assert_eq!(Rating::from_str("e"), Ok(Rating::Explicit));
    assert_eq!(Rating::from_str("SAFE"), Err(RatingParseError::VariantNotFound));
    assert_eq!(Rating::Questionable.as_str(), "Questionable");
    assert_eq!(Category::from_str("disliked"), Ok(Category::Disliked));
    assert_eq!(Category::from_str("x"), Err(CategoryParseError::VariantNotFound));
    assert_eq!(Category::try_from(CategoryPrompt::Borked), Ok(Category::Borked));
    assert_eq!(Category::try_from(CategoryPrompt::NeedsCropping), Err(CategoryParseError::VariantNotFound));
}

#[test]
fn menu_puts_crop_toggle_first() {
    assert_eq!(
        CategoryPrompt::menu(false),
        vec![CategoryPrompt::NeedsCropping, CategoryPrompt::Liked, CategoryPrompt::Disliked, CategoryPrompt::Borked]
    );
    assert_eq!(CategoryPrompt::menu(true)[0], CategoryPrompt::DidNotNeedCropping);
}

#[test]
fn fingerprint_is_md5_of_filter_text() {
    let h = compute_hash_for_filters(
        &Range::LeftBounded(1920),
        &Range::LeftBounded(1080),
        &Some("landscape".to_string()),
        &KonachanRatingFilter::Safe,
    );
    assert_eq!(h, "d9b59599cd13eb88a5d01a1cbe8edd88");
    let none = compute_hash_for_filters(&Range::LeftBounded(1920), &Range::LeftBounded(1080), &None, &KonachanRatingFilter::Safe);
    assert_eq!(none, "0325c0efcbbb7250298ed2c0eeb9c63a");
}

#[test]
fn fingerprint_is_deterministic() {
    let f = || {
        compute_hash_for_filters(&Range::Exactly(1), &Range::RightBounded(2), &Some("sky".to_string()), &KonachanRatingFilter::Explicit)
    };
    assert_eq!(f(), f());
}

#[test]
fn fingerprint_distinguishes_tag_separators() {
    let w = Range::LeftBounded(1920);
    let h = Range::LeftBounded(1080);
    let spaced = compute_hash_for_filters(&w, &h, &Some("a b".to_string()), &KonachanRatingFilter::Safe);
    let commas = compute_hash_for_filters(&w, &h, &Some("a,b".to_string()), &KonachanRatingFilter::Safe);
    assert_eq!(spaced, "f8037f838239a3c213041fbe12f53da5");
    assert_eq!(commas, "650434509915002d091d33be1cf66a0e");
    assert_ne!(spaced, commas);
}

#[test]
fn fingerprint_separates_width_from_height() {
    let twelve_by_three = compute_hash_for_filters(&Range::Exactly(12), &Range::Exactly(3), &None, &KonachanRatingFilter::Safe);
    let one_by_twenty_three = compute_hash_for_filters(&Range::Exactly(1), &Range::Exactly(23), &None, &KonachanRatingFilter::Safe);
    assert_eq!(twelve_by_three, "12e1880af98a3af21df403c21f8553d6");
    assert_eq!(one_by_twenty_three, "152c3eac2081adc6a9a4b55c474a86c6");
    assert_ne!(twelve_by_three, one_by_twenty_three);
}

#[test]
fn page_url_holds_every_filter() {
    let url = page_url(&Range::LeftBounded(1920), &Range::Exactly(1080), &Some("blue sky".to_string()), &KonachanRatingFilter::Safe, 3);
    assert_eq!(
        url,
        "https://konachan.net/post.json?limit=1000&tags=blue%20sky%20rating%3Asafe%20width%3A1920..+height%3A1080&page=3"
    );
    let bare = page_url(&Range::RightBounded(5), &Range::LeftBounded(6), &None, &KonachanRatingFilter::Explicit, 1);
    assert_eq!(bare, "https://konachan.net/post.json?limit=1000&tags=%20rating%3Aexplicit%20width%3A..5+height%3A6..&page=1");
}

#[test]
fn last_page_is_a_short_one() {
    assert!(is_last_page(0));
    assert!(is_last_page(999));
    assert!(!is_last_page(1000));
}

fn entry(md5: &str, score: i32) -> KonachanWallpaper {
    KonachanWallpaper {
        md5: md5.to_string(),
        file_url: format!("https://example.org/{md5}.png"),
        width: 1920,
        height: 1080,
        score,
        rating: Rating::Safe,
    }
}

#[test]
fn sort_by_score_is_ascending_and_stable() {
    let list = vec![entry("a", 5), entry("b", 1), entry("c", 5), entry("d", -2), entry("e", 1)];
    let sorted: Vec<String> = sort_by_score(list).into_iter().map(|w| w.md5).collect();
    assert_eq!(sorted, vec!["d", "b", "e", "a", "c"]);
    assert!(sort_by_score(vec![]).is_empty());
}

#[test]
fn pages_are_collected_until_a_short_one() {
    let w = Range::LeftBounded(10);
    let h = Range::LeftBounded(20);
    let mut pages = PageCollector::new();
    let first = pages.next_url(&w, &h, &None, &KonachanRatingFilter::Safe).unwrap();
    assert!(first.ends_with("&page=1"));
    let full: Vec<KonachanWallpaper> = (0..1000).map(|i| entry(&format!("f{i}"), 1000 - i)).collect();
    pages.absorb(full);
    assert!(!pages.is_done());
    let second = pages.next_url(&w, &h, &None, &KonachanRatingFilter::Safe).unwrap();
    assert!(second.ends_with("&page=2"));
    pages.absorb(vec![entry("short", 0)]);
    assert!(pages.is_done());
    assert_eq!(pages.next_url(&w, &h, &None, &KonachanRatingFilter::Safe), None);
    let all = pages.finish();
    assert_eq!(all.len(), 1001);
    assert_eq!(all[0].md5, "short");
    assert_eq!(all[1000].md5, "f0");
}
