//! Ratings, rating filters, categories and the operator's menu choices.
use vstd::prelude::*;
use crate::text::{no_bar, str_eq};

verus! {

/// The rating filter that the catalog accepts in a query.
#[derive(Clone, Copy, Debug, PartialEq, Eq, Structural, PartialOrd, Ord, Hash)]
pub enum KonachanRatingFilter {
    Safe,
    Questionable,
    Explicit,
    QuestionableAndExplicit,
    QuestionableAndSafe,
}

/// The word that stands for a rating filter in a catalog query.
pub open spec fn rating_filter_text(f: KonachanRatingFilter) -> Seq<char> {
    match f {
        KonachanRatingFilter::Safe => "safe"@,
        KonachanRatingFilter::Questionable => "questionable"@,
        KonachanRatingFilter::Explicit => "explicit"@,
        KonachanRatingFilter::QuestionableAndExplicit => "questionableplus"@,
        KonachanRatingFilter::QuestionableAndSafe => "questionableless"@,
    }
}

/// A rating filter's word holds no `|`, and different filters have different words.
pub proof fn lemma_rating_filter_text(f1: KonachanRatingFilter, f2: KonachanRatingFilter)
    ensures
        no_bar(rating_filter_text(f1)),
        rating_filter_text(f1) == rating_filter_text(f2) ==> f1 == f2,
{
    reveal_strlit("safe");
    reveal_strlit("questionable");
    reveal_strlit("explicit");
    reveal_strlit("questionableplus");
    reveal_strlit("questionableless");
    assert("safe"@ =~= seq!['s', 'a', 'f', 'e']);
    assert("questionable"@ =~= seq!['q', 'u', 'e', 's', 't', 'i', 'o', 'n', 'a', 'b', 'l', 'e']);
    assert("explicit"@ =~= seq!['e', 'x', 'p', 'l', 'i', 'c', 'i', 't']);
    assert("questionableplus"@ =~= seq!['q', 'u', 'e', 's', 't', 'i', 'o', 'n', 'a', 'b', 'l', 'e', 'p', 'l', 'u', 's']);
    assert("questionableless"@ =~= seq!['q', 'u', 'e', 's', 't', 'i', 'o', 'n', 'a', 'b', 'l', 'e', 'l', 'e', 's', 's']);
    if rating_filter_text(f1) == rating_filter_text(f2) && f1 != f2 {
        assert(rating_filter_text(f1).len() == rating_filter_text(f2).len());
        assert(rating_filter_text(f1)[12] == rating_filter_text(f2)[12]);
    }
}

/// The rating filter that a command-line word names, if any.
pub open spec fn parse_rating_filter(s: Seq<char>) -> Option<KonachanRatingFilter> {
    if s == "Safe"@ || s == "safe"@ || s == "s"@ {
        Some(KonachanRatingFilter::Safe)
    } else if s == "Questionable"@ || s == "questionable"@ || s == "q"@ {
        Some(KonachanRatingFilter::Questionable)
    } else if s == "Explicit"@ || s == "explicit"@ || s == "e"@ {
        Some(KonachanRatingFilter::Explicit)
    } else if s == "QuestionableAndExplicit"@ || s == "questionableplus"@ || s == "qe"@ {
        Some(KonachanRatingFilter::QuestionableAndExplicit)
    } else if s == "QuestionableAndSafe"@ || s == "questionableless"@ || s == "qs"@ {
        Some(KonachanRatingFilter::QuestionableAndSafe)
    } else {
        None
    }
}

/// The word given on the command line names no rating filter.
#[derive(Clone, Copy, Debug, PartialEq, Eq, Structural)]
pub enum KonachanRatingFilterParseError {
    VariantNotFound,
}

impl KonachanRatingFilterParseError {
    /// The message shown to the operator.
    pub fn message(&self) -> &'static str {
        "Matching variant not found, must be one of: Safe|s, Questionable|q, Explicit|e, QuestionableAndExplicit|questionableplus|qe, QuestionableAndSafe|questionableless|qs"
    }
}

impl KonachanRatingFilter {
    /// The word used for this filter in catalog queries.
    pub fn as_str(&self) -> (r: &'static str)
        ensures
            r@ == rating_filter_text(*self),
    {
        match self {
            KonachanRatingFilter::Safe => "safe",
            KonachanRatingFilter::Questionable => "questionable",
            KonachanRatingFilter::Explicit => "explicit",
            KonachanRatingFilter::QuestionableAndExplicit => "questionableplus",
            KonachanRatingFilter::QuestionableAndSafe => "questionableless",
        }
    }

    /// Reads a rating filter from its long name, its query word or its short form.
    pub fn from_str(input: &str) -> (r: Result<KonachanRatingFilter, KonachanRatingFilterParseError>)
        ensures
            match parse_rating_filter(input@) {
                Some(f) => r == Ok::<_, KonachanRatingFilterParseError>(f),
                None => r == Err::<KonachanRatingFilter, _>(KonachanRatingFilterParseError::VariantNotFound),
            },
    {
        if str_eq(input, "Safe") || str_eq(input, "safe") || str_eq(input, "s") {
            Ok(KonachanRatingFilter::Safe)
        } else if str_eq(input, "Questionable") || str_eq(input, "questionable") || str_eq(input, "q") {
            Ok(KonachanRatingFilter::Questionable)
        } else if str_eq(input, "Explicit") || str_eq(input, "explicit") || str_eq(input, "e") {
            Ok(KonachanRatingFilter::Explicit)
        } else if str_eq(input, "QuestionableAndExplicit") || str_eq(input, "questionableplus")
            || str_eq(input, "qe") {
            Ok(KonachanRatingFilter::QuestionableAndExplicit)
        } else if str_eq(input, "QuestionableAndSafe") || str_eq(input, "questionableless")
            || str_eq(input, "qs") {
            Ok(KonachanRatingFilter::QuestionableAndSafe)
        } else {
            Err(KonachanRatingFilterParseError::VariantNotFound)
        }
    }
}

/// The rating that the catalog gives an image.
#[derive(Clone, Copy, Debug, PartialEq, Eq, Structural, PartialOrd, Ord, Hash)]
pub enum Rating {
    Safe,
    Questionable,
    Explicit,
}

/// The name under which a rating is shown and stored.
pub open spec fn rating_text(r: Rating) -> Seq<char> {
    match r {
        Rating::Safe => "Safe"@,
        Rating::Questionable => "Questionable"@,
        Rating::Explicit => "Explicit"@,
    }
}

/// The rating that a word names, if any.
pub open spec fn parse_rating(s: Seq<char>) -> Option<Rating> {
    if s == "Safe"@ || s == "safe"@ || s == "s"@ {
        Some(Rating::Safe)
    } else if s == "Questionable"@ || s == "questionable"@ || s == "q"@ {
        Some(Rating::Questionable)
    } else if s == "Explicit"@ || s == "explicit"@ || s == "e"@ {
        Some(Rating::Explicit)
    } else {
        None
    }
}

/// The word names no rating.
#[derive(Clone, Copy, Debug, PartialEq, Eq, Structural)]
pub enum RatingParseError {
    VariantNotFound,
}

impl RatingParseError {
    /// The message shown to the operator.
    pub fn message(&self) -> &'static str {
        "Matching variant not found, must be one of: Safe|safe|s, Questionable|questionable|q, Explicit|explicit|e"
    }
}

impl Rating {
    /// The name under which this rating is shown and stored.
    pub fn as_str(&self) -> (r: &'static str)
        ensures
            r@ == rating_text(*self),
    {
        match self {
            Rating::Safe => "Safe",
            Rating::Questionable => "Questionable",
            Rating::Explicit => "Explicit",
        }
    }

    /// Reads a rating from its name, in either case, or its first letter.
    pub fn from_str(input: &str) -> (r: Result<Rating, RatingParseError>)
        ensures
            match parse_rating(input@) {
                Some(x) => r == Ok::<_, RatingParseError>(x),
                None => r == Err::<Rating, _>(RatingParseError::VariantNotFound),
            },
    {
        if str_eq(input, "Safe") || str_eq(input, "safe") || str_eq(input, "s") {
            Ok(Rating::Safe)
        } else if str_eq(input, "Questionable") || str_eq(input, "questionable") || str_eq(input, "q") {
            Ok(Rating::Questionable)
        } else if str_eq(input, "Explicit") || str_eq(input, "explicit") || str_eq(input, "e") {
            Ok(Rating::Explicit)
        } else {
            Err(RatingParseError::VariantNotFound)
        }
    }
}

/// The operator's verdict on a candidate.
#[derive(Clone, Copy, Debug, PartialEq, Eq, Structural, PartialOrd, Ord, Hash)]
pub enum Category {
    Liked,
    Disliked,
    Borked,
}

/// The name under which a category is shown and stored.
pub open spec fn category_text(c: Category) -> Seq<char> {
    match c {
        Category::Liked => "Liked"@,
        Category::Disliked => "Disliked"@,
        Category::Borked => "Borked"@,
    }
}

/// The category that a word names, if any.
pub open spec fn parse_category(s: Seq<char>) -> Option<Category> {
    if s == "Liked"@ || s == "liked"@ || s == "l"@ {
        Some(Category::Liked)
    } else if s == "Disliked"@ || s == "disliked"@ || s == "d"@ {
        Some(Category::Disliked)
    } else if s == "Borked"@ || s == "borked"@ || s == "b"@ {
        Some(Category::Borked)
    } else {
        None
    }
}

/// The word or menu choice names no category.
#[derive(Clone, Copy, Debug, PartialEq, Eq, Structural)]
pub enum CategoryParseError {
    VariantNotFound,
}

impl CategoryParseError {
    /// The message shown to the operator.
    pub fn message(&self) -> &'static str {
        "Matching variant not found, must be one of: Liked, Disliked, Borked"
    }
}

impl Category {
    /// The name under which this category is shown and stored.
    pub fn as_str(&self) -> (r: &'static str)
        ensures
            r@ == category_text(*self),
    {
        match self {
            Category::Liked => "Liked",
            Category::Disliked => "Disliked",
            Category::Borked => "Borked",
        }
    }

    /// Reads a category from its name, in either case, or its first letter.
    pub fn from_str(input: &str) -> (r: Result<Category, CategoryParseError>)
        ensures
            match parse_category(input@) {
                Some(x) => r == Ok::<_, CategoryParseError>(x),
                None => r == Err::<Category, _>(CategoryParseError::VariantNotFound),
            },
    {
        if str_eq(input, "Liked") || str_eq(input, "liked") || str_eq(input, "l") {
            Ok(Category::Liked)
        } else if str_eq(input, "Disliked") || str_eq(input, "disliked") || str_eq(input, "d") {
            Ok(Category::Disliked)
        } else if str_eq(input, "Borked") || str_eq(input, "borked") || str_eq(input, "b") {
            Ok(Category::Borked)
        } else {
            Err(CategoryParseError::VariantNotFound)
        }
    }

    /// The category that a menu choice stands for; the two crop choices stand for none.
    pub fn try_from(value: CategoryPrompt) -> (r: Result<Category, CategoryParseError>)
        ensures
            r == match value {
                CategoryPrompt::Liked => Ok::<_, CategoryParseError>(Category::Liked),
                CategoryPrompt::Disliked => Ok(Category::Disliked),
                CategoryPrompt::Borked => Ok(Category::Borked),
                _ => Err(CategoryParseError::VariantNotFound),
            },
    {
        match value {
            CategoryPrompt::Liked => Ok(Category::Liked),
            CategoryPrompt::Disliked => Ok(Category::Disliked),
            CategoryPrompt::Borked => Ok(Category::Borked),
            _ => Err(CategoryParseError::VariantNotFound),
        }
    }
}

/// One entry of the menu that the operator answers for each candidate.
#[derive(Clone, Copy, Debug, PartialEq, Eq, Structural, PartialOrd, Ord, Hash)]
pub enum CategoryPrompt {
    Liked,
    Disliked,
    NeedsCropping,
    DidNotNeedCropping,
    Borked,
}

/// The menu offered for a candidate: the crop toggle first, then the three verdicts.
pub open spec fn prompt_menu(is_cropped: bool) -> Seq<CategoryPrompt> {
    seq![
        if is_cropped { CategoryPrompt::DidNotNeedCropping } else { CategoryPrompt::NeedsCropping },
        CategoryPrompt::Liked,
        CategoryPrompt::Disliked,
        CategoryPrompt::Borked,
    ]
}

/// The label that the menu shows for a choice.
pub open spec fn prompt_label(p: CategoryPrompt) -> Seq<char> {
    match p {
        CategoryPrompt::Liked => "I like it "@,
        CategoryPrompt::Disliked => "I don't like it"@,
        CategoryPrompt::NeedsCropping => "Do smart cropping, and go show me when it's done"@,
        CategoryPrompt::DidNotNeedCropping => "Did not need cropping, go back to uncropped"@,
        CategoryPrompt::Borked => "It's borked"@,
    }
}

impl CategoryPrompt {
    /// The label that the menu shows for this choice.
    pub fn label(&self) -> (r: &'static str)
        ensures
            r@ == prompt_label(*self),
    {
        match self {
            CategoryPrompt::Liked => "I like it ",
            CategoryPrompt::Disliked => "I don't like it",
            CategoryPrompt::NeedsCropping => "Do smart cropping, and go show me when it's done",
            CategoryPrompt::DidNotNeedCropping => "Did not need cropping, go back to uncropped",
            CategoryPrompt::Borked => "It's borked",
        }
    }

    /// Whether this choice asks to switch between the original and the cropped variant.
    pub fn is_crop_toggle(&self) -> (r: bool)
        ensures
            r == (*self == CategoryPrompt::NeedsCropping || *self == CategoryPrompt::DidNotNeedCropping),
    {
        match self {
            CategoryPrompt::NeedsCropping | CategoryPrompt::DidNotNeedCropping => true,
            _ => false,
        }
    }

    /// The menu for a candidate shown as its cropped (`true`) or original variant.
    pub fn menu(is_cropped: bool) -> (r: Vec<CategoryPrompt>)
        ensures
            r@ == prompt_menu(is_cropped),
    {
        let mut options = vec![CategoryPrompt::Liked, CategoryPrompt::Disliked, CategoryPrompt::Borked];
        if is_cropped {
            options.insert(0, CategoryPrompt::DidNotNeedCropping);
        } else {
            options.insert(0, CategoryPrompt::NeedsCropping);
        }
        assert(options@ =~= prompt_menu(is_cropped));
        options
    }
}

} // verus!
