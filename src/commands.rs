//! The command-line surface, and the small decisions that its commands make.
use rand::seq::SliceRandom;
use vstd::prelude::*;
use crate::filters::Range;
use crate::history::{opt_chars, History, HistoryModel};
use crate::rating::{Category, KonachanRatingFilter, Rating};
use crate::wallpaper::Wallpaper;

verus! {

/// The arguments of one run.
#[derive(Debug)]
pub struct Cli {
    pub command: Commands,
    pub screen_width: Option<u16>,
    pub screen_height: Option<u16>,
    pub cache_dir: Option<String>,
    pub config_dir: Option<String>,
    pub wallpapers_dir: Option<String>,
}

/// What a run does.
#[derive(Debug)]
pub enum Commands {
    /// Fetch candidates for the filters, download them and review them.
    Download {
        download_width: Option<Range>,
        download_height: Option<Range>,
        tags: Option<String>,
        rating: KonachanRatingFilter,
    },
    /// Make an artifact the active display.
    SetActive { subcommand: SetSubcommand },
    /// Print a record.
    Get { subcommand: GetSubcommand },
    /// Review decided candidates again.
    Review { subcommand: ReviewSubcommand },
}

/// Which candidates are reviewed again.
#[derive(Clone, Copy, Debug, PartialEq, Eq, Structural)]
pub enum ReviewSubcommand {
    Current,
    Liked,
    Disliked,
    Borked,
}

/// A move through the history.
#[derive(Clone, Copy, Debug, PartialEq, Eq, Structural)]
pub enum HistorySubcommand {
    Previous,
    Current,
    Next,
}

/// Which artifact is made the active display.
#[derive(Debug)]
pub enum SetSubcommand {
    History(HistorySubcommand),
    Random { rating: Rating, category: Category },
    File { path: String },
    Md5 { md5: String },
}

/// Which record is printed.
#[derive(Debug)]
pub enum GetSubcommand {
    History(HistorySubcommand),
    Md5 { md5: String },
}

/// The history after a move.
pub open spec fn moved(h: HistoryModel, sub: HistorySubcommand) -> HistoryModel {
    match sub {
        HistorySubcommand::Previous => h.back(),
        HistorySubcommand::Current => h,
        HistorySubcommand::Next => h.forward(),
    }
}

/// Moves through the history and returns the identifier now under the cursor.
pub fn navigate(history: &mut History, sub: HistorySubcommand) -> (r: Option<String>)
    requires
        old(history)@.wf(),
    ensures
        final(history)@ == moved(old(history)@, sub),
        final(history)@.wf(),
        opt_chars(r) == final(history)@.current(),
{
    match sub {
        HistorySubcommand::Previous => history.prev(),
        HistorySubcommand::Current => history.current(),
        HistorySubcommand::Next => history.next(),
    }
}

/// The category whose candidates a review shows again; the current one is taken
/// from the history instead.
pub fn review_category(sub: ReviewSubcommand) -> (r: Option<Category>)
    ensures
        r == match sub {
            ReviewSubcommand::Current => None,
            ReviewSubcommand::Liked => Some(Category::Liked),
            ReviewSubcommand::Disliked => Some(Category::Disliked),
            ReviewSubcommand::Borked => Some(Category::Borked),
        },
{
    match sub {
        ReviewSubcommand::Current => None,
        ReviewSubcommand::Liked => Some(Category::Liked),
        ReviewSubcommand::Disliked => Some(Category::Disliked),
        ReviewSubcommand::Borked => Some(Category::Borked),
    }
}

/// Whether a record belongs in a review of `category`.
pub fn in_review(wallpaper: &Wallpaper, category: Category) -> (r: bool)
    ensures
        r == (wallpaper.category == Some(category)),
{
    match wallpaper.category {
        Some(c) => c == category,
        None => false,
    }
}

/// The size range fetched when none is given: the screen's size or more.
pub fn range_or_screen(given: Option<Range>, screen: u16) -> (r: Range)
    ensures
        r == match given {
            Some(g) => g,
            None => Range::LeftBounded(screen),
        },
{
    match given {
        Some(g) => g,
        None => Range::LeftBounded(screen),
    }
}

/// Whether a record may be picked at random: of the category and rating asked
/// for, and not the one shown now.
pub fn matches_random(wallpaper: &Wallpaper, rating: Rating, category: Category, current: &Option<String>) -> (r: bool)
    ensures
        r == (wallpaper.category == Some(category) && wallpaper.rating == rating
            && opt_chars(*current) != Some(wallpaper.md5@)),
{
    let cat_ok = match wallpaper.category {
        Some(c) => c == category,
        None => false,
    };
    let not_current = match current {
        Some(c) => !(*c == wallpaper.md5),
        None => true,
    };
    cat_ok && wallpaper.rating == rating && not_current
}

/// Relies on rand's `SliceRandom::shuffle` with the thread's generator, which
/// permutes the slice by swaps.
#[verifier::external_body]
fn shuffle(items: &mut Vec<String>)
    ensures
        final(items)@.to_multiset() == old(items)@.to_multiset(),
{
    items.shuffle(&mut rand::thread_rng())
}

/// One pass over record paths in random order: each path comes once, and the
/// pass ends when all have come, matched or not.
pub struct RandomScan {
    order: Vec<String>,
    pos: usize,
}

impl RandomScan {
    /// The paths still to come.
    pub closed spec fn remaining(&self) -> Seq<String> {
        self.order@.subrange(self.pos as int, self.order@.len() as int)
    }

    /// All the paths, in the order of the pass.
    pub closed spec fn order_spec(&self) -> Seq<String> {
        self.order@
    }

    /// The position is within the order.
    pub closed spec fn wf(&self) -> bool {
        self.pos <= self.order@.len()
    }

    /// A pass over `paths` in a random order.
    pub fn new(paths: Vec<String>) -> (r: RandomScan)
        ensures
            r.wf(),
            r.order_spec().to_multiset() == paths@.to_multiset(),
            r.remaining() == r.order_spec(),
    {
        let mut order = paths;
        shuffle(&mut order);
        let r = RandomScan { order, pos: 0 };
        assert(r.order@.subrange(0, r.order@.len() as int) =~= r.order@);
        r
    }

    /// The next path of the pass, or nothing once every path has come.
    pub fn next_path(&mut self) -> (r: Option<String>)
        requires
            old(self).wf(),
        ensures
            final(self).wf(),
            final(self).order_spec() == old(self).order_spec(),
            old(self).remaining().len() == 0 ==> r is None && final(self).remaining() == old(self).remaining(),
            old(self).remaining().len() > 0 ==> r == Some(old(self).remaining()[0])
                && final(self).remaining() == old(self).remaining().drop_first(),
    {
        if self.pos < self.order.len() {
            let p = self.order[self.pos].clone();
            self.pos = self.pos + 1;
            assert(self.remaining() =~= old(self).remaining().drop_first());
            Some(p)
        } else {
            None
        }
    }
}

} // verus!
