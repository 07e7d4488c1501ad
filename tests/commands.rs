use aniwall::command::{apply_command, parse_screen_dimension, probe_command};
use aniwall::commands::{in_review, matches_random, review_category, RandomScan, ReviewSubcommand};
use aniwall::config::{default_set_wallpaper_command, Config};
use aniwall::rating::{Category, Rating};
use aniwall::wallpaper::{KonachanWallpaper, Wallpaper};

fn decided(md5: &str, category: Category, rating: Rating) -> Wallpaper {
    let k = KonachanWallpaper {
        md5: md5.to_string(),
        file_url: String::new(),
        width: 1,
        height: 1,
        score: 0,
        rating,
    };
    Wallpaper { category: Some(category), ..Wallpaper::from_konachan(k, format!("/p/{md5}.png")) }
}

#[test]
fn apply_command_substitutes_path() {
    let (prog, args) = apply_command("swaybg --mode fill --image {}", "/p/a.png").unwrap();
    assert_eq!(prog, "swaybg");
    assert_eq!(args, vec!["--mode", "fill", "--image", "/p/a.png"]);
    let (prog, args) = apply_command("feh  --bg-fill {}{}", "x").unwrap();
    assert_eq!(prog, "feh");
    assert_eq!(args, vec!["", "--bg-fill", "xx"]);
    assert!(apply_command("swaybg", "/p/a.png").is_none());
}

#[test]
fn default_config_commands() {
    let c = Config::new();
    assert_eq!(c.set_wallpaper_command, default_set_wallpaper_command());
    assert_eq!(c.set_wallpaper_command, "swaybg --mode fill --image {}");
    assert!(c.get_screen_width_command.starts_with("bash -c 'hyprctl monitors"));
    assert!(c.get_screen_height_command.contains(r"(?<=x)\d+(?=@)"));
}

#[test]
fn probe_command_splits_like_a_shell() {
    let (prog, args) = probe_command("bash -c 'echo 1920'").unwrap();
    assert_eq!(prog, "bash");
    assert_eq!(args, vec!["-c", "echo 1920"]);
    assert!(probe_command("bash -c 'open").is_none());
    assert!(probe_command("   ").is_none());
}

#[test]
fn screen_dimension_is_trimmed_number() {
    assert_eq!(parse_screen_dimension(" 1920\n"), Some(1920));
    assert_eq!(parse_screen_dimension("1080"), Some(1080));
    assert_eq!(parse_screen_dimension("wide"), None);
    assert_eq!(parse_screen_dimension("99999"), None);
}

#[test]
fn review_filters_by_category() {
    assert_eq!(review_category(ReviewSubcommand::Current), None);
    assert_eq!(review_category(ReviewSubcommand::Borked), Some(Category::Borked));
    let w = decided("a", Category::Liked, Rating::Safe);
    assert!(in_review(&w, Category::Liked));
    assert!(!in_review(&w, Category::Disliked));
}

#[test]
fn random_pick_rules() {
    let w = decided("a", Category::Liked, Rating::Safe);
    assert!(matches_random(&w, Rating::Safe, Category::Liked, &None));
    assert!(matches_random(&w, Rating::Safe, Category::Liked, &Some("b".to_string())));
    assert!(!matches_random(&w, Rating::Safe, Category::Liked, &Some("a".to_string())));
    assert!(!matches_random(&w, Rating::Explicit, Category::Liked, &None));
    assert!(!matches_random(&w, Rating::Safe, Category::Borked, &None));
}

#[test]
fn random_scan_visits_each_path_once() {
    let paths: Vec<String> = (0..20).map(|i| format!("/p/{i}.json")).collect();
    let mut scan = RandomScan::new(paths.clone());
    let mut seen = vec![];
    while let Some(p) = scan.next_path() {
        seen.push(p);
    }
    assert_eq!(scan.next_path(), None);
    seen.sort();
    let mut expected = paths;
    expected.sort();
    assert_eq!(seen, expected);
}
