//! The decisions of a review session: which candidate is shown, what the
//! operator's answer does to it and to the history, when a crop is needed, and
//! how an interruption ends the session. The caller performs each returned step
//! (showing, prompting, cropping, writing) and reports back.
use vstd::prelude::*;
use crate::crop::CropError;
use crate::history::{opt_chars, History, HistoryModel};
use crate::rating::{Category, CategoryPrompt};
use crate::wallpaper::{Prefered, Wallpaper};

verus! {

/// What the operator's answer means for the candidate on screen.
#[derive(Clone, Copy, Debug, PartialEq, Eq, Structural)]
pub enum ProcessingStatus {
    /// The operator interrupted the prompt.
    Interupted,
    /// The operator asked to switch between original and cropped variant.
    ToogleCropped,
    /// The operator gave a category, now recorded on the candidate.
    Done,
}

/// The category that a menu choice records, if it is no crop toggle.
pub open spec fn choice_category(c: CategoryPrompt) -> Option<Category> {
    match c {
        CategoryPrompt::Liked => Some(Category::Liked),
        CategoryPrompt::Disliked => Some(Category::Disliked),
        CategoryPrompt::Borked => Some(Category::Borked),
        _ => None,
    }
}

/// Applies the operator's answer (`None` for an interrupted prompt) to the candidate.
pub fn process_wallpaper(wallpaper: &mut Wallpaper, answer: Option<CategoryPrompt>) -> (r: ProcessingStatus)
    ensures
        match answer {
            None => r == ProcessingStatus::Interupted && *final(wallpaper) == *old(wallpaper),
            Some(c) => match choice_category(c) {
                None => r == ProcessingStatus::ToogleCropped && *final(wallpaper) == *old(wallpaper),
                Some(cat) => r == ProcessingStatus::Done && *final(wallpaper) == (Wallpaper { category: Some(cat), ..*old(wallpaper) }),
            },
        },
{
    match answer {
        None => ProcessingStatus::Interupted,
        Some(choice) => match Category::try_from(choice) {
            Ok(cat) => {
                wallpaper.category = Some(cat);
                ProcessingStatus::Done
            },
            Err(_) => ProcessingStatus::ToogleCropped,
        },
    }
}

/// The candidate that holds the single prompt slot, if any.
#[derive(Debug)]
pub enum Slot {
    /// No candidate is being decided: the next one may be shown.
    Idle,
    /// A prompt is outstanding for this candidate, shown cropped (`true`) or not.
    Deciding(Wallpaper, bool),
    /// The candidate waits for its cropped variant; the slot stays held.
    Cropping,
}

/// What the caller does next.
#[derive(Debug)]
pub enum Step {
    /// Show the artifact at `path`, then ask the operator about the candidate
    /// with the menu for `is_cropped`.
    Present { path: String, md5: String, width: i32, height: i32, is_cropped: bool },
    /// Make the cropped variant of this candidate, then report with `crop_finished`.
    Crop(Wallpaper),
    /// Write this decided candidate's record.
    Persist(Wallpaper),
    /// The session was interrupted: show again the record with this identifier, if
    /// any, save the history and stop.
    Rewind(Option<String>),
    /// Another candidate holds the prompt: offer this one again later.
    Busy(Wallpaper),
    /// This candidate was decided before: nothing to do.
    Skip(Wallpaper),
    /// The candidate's crop failed: it stays undecided for a later session.
    Abandoned(CropError),
    /// The session is cancelled: nothing more is shown or decided.
    Stopped,
    /// Nothing was waiting for this report.
    Ignored,
}

/// A candidate as shown: it prefers the variant on screen.
pub open spec fn shown_as(w: Wallpaper, is_cropped: bool) -> Wallpaper {
    Wallpaper { prefered: if is_cropped { Prefered::Cropped } else { Prefered::Original }, ..w }
}

/// The path shown for a candidate in the given variant.
pub open spec fn shown_path(w: Wallpaper, is_cropped: bool) -> Seq<char> {
    match w.crop_data {
        Some(c) => if is_cropped { c.cropped_image_path@ } else { w.downloaded_image_path@ },
        None => w.downloaded_image_path@,
    }
}

/// Whether `step` presents candidate `w` in the given variant.
pub open spec fn presents(step: Step, w: Wallpaper, is_cropped: bool) -> bool {
    match step {
        Step::Present { path, md5, width, height, is_cropped: c } => path@ == shown_path(w, is_cropped)
            && md5@ == w.md5@ && width == w.original_width && height == w.original_height
            && c == is_cropped,
        _ => false,
    }
}

/// One review session: the history, the single prompt slot, and whether the
/// session was cancelled.
pub struct Curation {
    history: History,
    slot: Slot,
    cancelled: bool,
}

impl Curation {
    /// The history as it stands.
    pub closed spec fn history_model(&self) -> HistoryModel {
        self.history@
    }

    /// The prompt slot.
    pub closed spec fn slot_state(&self) -> Slot {
        self.slot
    }

    /// Whether the session was cancelled.
    pub closed spec fn is_cancelled_spec(&self) -> bool {
        self.cancelled
    }

    /// The history is well formed, and a candidate being decided is undecided,
    /// shown cropped only when its cropped variant exists, and prefers what is shown.
    pub closed spec fn wf(&self) -> bool {
        &&& self.history@.wf()
        &&& match self.slot {
            Slot::Deciding(w, c) => w.category is None && (c ==> w.crop_data is Some) && w == shown_as(w, c),
            _ => true,
        }
    }

    /// Once the session is cancelled, a call neither shows nor decides anything,
    /// and the history stays as it was when the cancellation was raised.
    pub open spec fn halted(before: &Curation, after: &Curation, r: Step) -> bool {
        before.is_cancelled_spec() ==> after.is_cancelled_spec() && r is Stopped
            && after.history_model() == before.history_model()
    }

    /// How many prompts are outstanding: the slot holds at most one.
    pub open spec fn prompts_outstanding(&self) -> nat {
        match self.slot_state() {
            Slot::Deciding(_, _) => 1,
            _ => 0,
        }
    }

    /// A session over `history`, with no candidate shown yet.
    pub fn new(history: History) -> (r: Curation)
        requires
            history@.wf(),
        ensures
            r.wf(),
            r.history_model() == history@,
            r.slot_state() is Idle,
            !r.is_cancelled_spec(),
    {
        Curation { history, slot: Slot::Idle, cancelled: false }
    }

    /// The history, to be saved.
    pub fn history(&self) -> (r: &History)
        ensures
            r@ == self.history_model(),
    {
        &self.history
    }

    /// Whether the session was cancelled.
    pub fn is_cancelled(&self) -> (r: bool)
        ensures
            r == self.is_cancelled_spec(),
    {
        self.cancelled
    }

    /// Whether a candidate holds the prompt slot.
    pub fn is_busy(&self) -> (r: bool)
        ensures
            r == !(self.slot_state() is Idle),
    {
        match self.slot {
            Slot::Idle => false,
            _ => true,
        }
    }

    /// Raises the cancellation: no candidate is shown or decided from now on.
    pub fn cancel(&mut self)
        requires
            old(self).wf(),
        ensures
            final(self).wf(),
            final(self).is_cancelled_spec(),
            final(self).history_model() == old(self).history_model(),
            final(self).slot_state() == old(self).slot_state(),
    {
        self.cancelled = true;
    }

    fn present(w: &Wallpaper, is_cropped: bool) -> (r: Step)
        ensures
            presents(r, *w, is_cropped),
    {
        let path = match &w.crop_data {
            Some(c) => if is_cropped { c.cropped_image_path.clone() } else { w.downloaded_image_path.clone() },
            None => w.downloaded_image_path.clone(),
        };
        Step::Present {
            path,
            md5: w.md5.clone(),
            width: w.original_width,
            height: w.original_height,
            is_cropped,
        }
    }

    /// A candidate arrives (from the download stage). Unless the session is
    /// cancelled, the slot is taken or the candidate was decided before, it takes
    /// the slot and is shown in its preferred variant (cropped only if that exists).
    pub fn offer(&mut self, w: Wallpaper) -> (r: Step)
        requires
            old(self).wf(),
        ensures
            Curation::halted(old(self), final(self), r),
            final(self).wf(),
            final(self).history_model() == old(self).history_model(),
            final(self).is_cancelled_spec() == old(self).is_cancelled_spec(),
            if old(self).is_cancelled_spec() {
                r is Stopped && final(self).slot_state() == old(self).slot_state()
            } else if !(old(self).slot_state() is Idle) {
                r == Step::Busy(w) && final(self).slot_state() == old(self).slot_state()
            } else if w.category is Some {
                r == Step::Skip(w) && final(self).slot_state() is Idle
            } else {
                let c = w.prefered == Prefered::Cropped && w.crop_data is Some;
                presents(r, w, c) && final(self).slot_state() == Slot::Deciding(shown_as(w, c), c)
            },
            r is Present ==> old(self).slot_state() is Idle && old(self).prompts_outstanding() == 0
                && final(self).prompts_outstanding() == 1,
    {
        if self.cancelled {
            return Step::Stopped;
        }
        match self.slot {
            Slot::Idle => {},
            _ => {
                return Step::Busy(w);
            },
        }
        if w.category.is_some() {
            return Step::Skip(w);
        }
        let is_cropped = match (&w.prefered, &w.crop_data) {
            (Prefered::Cropped, Some(_)) => true,
            _ => false,
        };
        let mut w = w;
        w.prefered = if is_cropped { Prefered::Cropped } else { Prefered::Original };
        let step = Curation::present(&w, is_cropped);
        self.slot = Slot::Deciding(w, is_cropped);
        step
    }

    /// The operator answered the outstanding prompt (`None`: interrupted).
    /// A category is recorded with the variant shown, the candidate's identifier
    /// pushed onto the history, and the record handed back to be written. A crop
    /// toggle shows the other variant, first asking for a crop when the cropped
    /// variant does not exist yet. An interruption cancels the session and steps
    /// the history back.
    pub fn answer(&mut self, choice: Option<CategoryPrompt>) -> (r: Step)
        requires
            old(self).wf(),
        ensures
            Curation::halted(old(self), final(self), r),
            final(self).wf(),
            old(self).is_cancelled_spec() ==> r is Stopped && final(self).is_cancelled_spec()
                && final(self).history_model() == old(self).history_model()
                && final(self).slot_state() == old(self).slot_state(),
            !old(self).is_cancelled_spec() ==> match old(self).slot_state() {
                Slot::Deciding(w, c) => match choice {
                    None => final(self).is_cancelled_spec()
                        && final(self).history_model() == old(self).history_model().back()
                        && final(self).slot_state() is Idle
                        && (r matches Step::Rewind(id) && opt_chars(id) == final(self).history_model().current()),
                    Some(p) => !final(self).is_cancelled_spec() && match choice_category(p) {
                        Some(cat) => final(self).history_model() == old(self).history_model().pushed(w.md5@)
                            && final(self).slot_state() is Idle
                            && r == Step::Persist(Wallpaper { category: Some(cat), ..w }),
                        None => final(self).history_model() == old(self).history_model() && if c {
                            presents(r, w, false) && final(self).slot_state() == Slot::Deciding(shown_as(w, false), false)
                        } else if w.crop_data is Some {
                            presents(r, w, true) && final(self).slot_state() == Slot::Deciding(shown_as(w, true), true)
                        } else {
                            r == Step::Crop(w) && final(self).slot_state() is Cropping
                        },
                    },
                },
                _ => r is Ignored && final(self).history_model() == old(self).history_model()
                    && final(self).slot_state() == old(self).slot_state()
                    && !final(self).is_cancelled_spec(),
            },
            r is Present ==> old(self).prompts_outstanding() == 1 && final(self).prompts_outstanding() == 1,
            r matches Step::Persist(p) ==> p.wf() && p.category is Some,
            !(r is Present) ==> final(self).prompts_outstanding() == 0 || final(self).slot_state() == old(self).slot_state(),
    {
        if self.cancelled {
            return Step::Stopped;
        }
        let mut slot = Slot::Idle;
        std::mem::swap(&mut slot, &mut self.slot);
        let (mut w, is_cropped) = match slot {
            Slot::Deciding(w, c) => (w, c),
            other => {
                self.slot = other;
                return Step::Ignored;
            },
        };
        match process_wallpaper(&mut w, choice) {
            ProcessingStatus::Interupted => {
                self.cancelled = true;
                let id = self.history.prev();
                Step::Rewind(id)
            },
            ProcessingStatus::Done => {
                self.history.push(w.md5.clone());
                Step::Persist(w)
            },
            ProcessingStatus::ToogleCropped => {
                if is_cropped {
                    w.prefered = Prefered::Original;
                    let step = Curation::present(&w, false);
                    self.slot = Slot::Deciding(w, false);
                    step
                } else if w.crop_data.is_some() {
                    w.prefered = Prefered::Cropped;
                    let step = Curation::present(&w, true);
                    self.slot = Slot::Deciding(w, true);
                    step
                } else {
                    self.slot = Slot::Cropping;
                    Step::Crop(w)
                }
            },
        }
    }

    /// The crop worker finished with the candidate in the slot. It is shown
    /// cropped when its cropped variant is recorded, else as the original; a
    /// failed crop frees the slot and leaves the candidate undecided.
    pub fn crop_finished(&mut self, result: Result<Wallpaper, CropError>) -> (r: Step)
        requires
            old(self).wf(),
        ensures
            Curation::halted(old(self), final(self), r),
            final(self).wf(),
            final(self).history_model() == old(self).history_model(),
            final(self).is_cancelled_spec() == old(self).is_cancelled_spec(),
            old(self).is_cancelled_spec() ==> r is Stopped && final(self).slot_state() is Idle,
            !old(self).is_cancelled_spec() ==> if old(self).slot_state() is Cropping {
                match result {
                    Ok(w) => if w.category is Some {
                        r == Step::Skip(w) && final(self).slot_state() is Idle
                    } else if w.crop_data is Some {
                        presents(r, w, true) && final(self).slot_state() == Slot::Deciding(shown_as(w, true), true)
                    } else {
                        presents(r, w, false) && final(self).slot_state() == Slot::Deciding(shown_as(w, false), false)
                    },
                    Err(e) => r == Step::Abandoned(e) && final(self).slot_state() is Idle,
                }
            } else {
                r is Ignored && final(self).slot_state() == old(self).slot_state()
            },
            r is Present ==> old(self).slot_state() is Cropping && old(self).prompts_outstanding() == 0
                && final(self).prompts_outstanding() == 1,
    {
        if self.cancelled {
            self.slot = Slot::Idle;
            return Step::Stopped;
        }
        match self.slot {
            Slot::Cropping => {},
            _ => {
                return Step::Ignored;
            },
        }
        match result {
            Err(e) => {
                self.slot = Slot::Idle;
                Step::Abandoned(e)
            },
            Ok(w) => {
                if w.category.is_some() {
                    self.slot = Slot::Idle;
                    return Step::Skip(w);
                }
                let is_cropped = w.crop_data.is_some();
                let mut w = w;
                w.prefered = if is_cropped { Prefered::Cropped } else { Prefered::Original };
                let step = Curation::present(&w, is_cropped);
                self.slot = Slot::Deciding(w, is_cropped);
                step
            },
        }
    }
}

} // verus!
