//! The catalog query: its fingerprint, its pages, the order of its answer,
//! and when a cached answer is used instead of asking again.
use vstd::prelude::*;
use crate::filters::{lemma_range_text, range_text, Range};
use crate::rating::{lemma_rating_filter_text, rating_filter_text, KonachanRatingFilter};
use crate::text::{decimal, no_bar, push_char, push_decimal, push_str};
use crate::wallpaper::KonachanWallpaper;

verus! {

/// How many entries the catalog returns on a full page.
pub const PAGE_LIMIT: usize = 1000;

/// A cached answer older than this many whole days is stale.
pub const MAX_CACHE_AGE_DAYS: i64 = 5;

/// The lower-case hexadecimal MD5 digest of the UTF-8 bytes of a text.
pub uninterp spec fn md5_hex_of(text: Seq<char>) -> Seq<char>;

/// Relies on `md5::compute` and the digest's `LowerHex`: two lower-case hex digits
/// for each of its 16 bytes, a function of the bytes alone.
#[verifier::external_body]
fn md5_hex(text: &str) -> (r: String)
    ensures
        r@ == md5_hex_of(text@),
        r@.len() == 32,
{
    format!("{:x}", md5::compute(text.as_bytes()))
}

/// The tags of a query, or nothing when there are none.
pub open spec fn tags_text(tags: Option<String>) -> Seq<char> {
    match tags {
        Some(t) => t@,
        None => Seq::empty(),
    }
}

/// The text that a query's fingerprint is the digest of: tags, rating filter,
/// width range and height range, each after the one before and a `|`.
pub open spec fn filter_text(width: Range, height: Range, tags: Option<String>, rating: KonachanRatingFilter) -> Seq<char> {
    tags_text(tags) + seq!['|'] + rating_filter_text(rating) + seq!['|'] + range_text(width) + seq!['|']
        + range_text(height)
}

/// The fingerprint of a query.
pub open spec fn fingerprint(width: Range, height: Range, tags: Option<String>, rating: KonachanRatingFilter) -> Seq<char> {
    md5_hex_of(filter_text(width, height, tags, rating))
}

/// The fingerprint under which the answer to a query is cached.
pub fn compute_hash_for_filters(
    width: &Range,
    height: &Range,
    tags: &Option<String>,
    rating: &KonachanRatingFilter,
) -> (r: String)
    ensures
        r@ == fingerprint(*width, *height, *tags, *rating),
        r@.len() == 32,
{
    let mut text = String::new();
    match tags {
        Some(t) => push_str(&mut text, t.as_str()),
        None => {},
    }
    push_char(&mut text, '|');
    push_str(&mut text, rating.as_str());
    push_char(&mut text, '|');
    width.push_text(&mut text);
    push_char(&mut text, '|');
    height.push_text(&mut text);
    assert(text@ =~= filter_text(*width, *height, *tags, *rating));
    md5_hex(text.as_str())
}

/// Two texts that end in a `|` and a part without one are equal only when
/// both the parts before the `|` and the parts after it are.
proof fn lemma_split_last_bar(a: Seq<char>, b: Seq<char>, c: Seq<char>, d: Seq<char>)
    requires
        no_bar(b),
        no_bar(d),
        a + seq!['|'] + b == c + seq!['|'] + d,
    ensures
        a == c,
        b == d,
{
    let s = a + seq!['|'] + b;
    let t = c + seq!['|'] + d;
    if b.len() < d.len() {
        let i = s.len() - 1 - b.len();
        assert(s[i] == '|');
        assert(t[i] == d[i - c.len() - 1]);
    } else if b.len() > d.len() {
        let i = t.len() - 1 - d.len();
        assert(t[i] == '|');
        assert(s[i] == b[i - a.len() - 1]);
    }
    assert(a =~= s.subrange(0, a.len() as int));
    assert(c =~= t.subrange(0, c.len() as int));
    assert(b =~= s.subrange(a.len() + 1 as int, s.len() as int));
    assert(d =~= t.subrange(c.len() + 1 as int, t.len() as int));
}

/// Queries that differ (in tag text, rating filter, width or height) have
/// different fingerprint texts: no two of them share a cache entry unless
/// their digests collide.
pub proof fn lemma_filter_text_injective(
    width1: Range, height1: Range, tags1: Option<String>, rating1: KonachanRatingFilter,
    width2: Range, height2: Range, tags2: Option<String>, rating2: KonachanRatingFilter,
)
    requires
        filter_text(width1, height1, tags1, rating1) == filter_text(width2, height2, tags2, rating2),
    ensures
        width1 == width2,
        height1 == height2,
        tags_text(tags1) == tags_text(tags2),
        rating1 == rating2,
{
    lemma_range_text(width1, width2);
    lemma_range_text(width2, width1);
    lemma_range_text(height1, height2);
    lemma_range_text(height2, height1);
    lemma_rating_filter_text(rating1, rating2);
    lemma_rating_filter_text(rating2, rating1);
    let p1 = tags_text(tags1) + seq!['|'] + rating_filter_text(rating1);
    let p2 = tags_text(tags2) + seq!['|'] + rating_filter_text(rating2);
    let q1 = p1 + seq!['|'] + range_text(width1);
    let q2 = p2 + seq!['|'] + range_text(width2);
    lemma_split_last_bar(q1, range_text(height1), q2, range_text(height2));
    lemma_split_last_bar(p1, range_text(width1), p2, range_text(width2));
    lemma_split_last_bar(tags_text(tags1), rating_filter_text(rating1), tags_text(tags2), rating_filter_text(rating2));
}

/// The fingerprint depends on the query's values alone: equal queries, however
/// they were built, have equal fingerprints.
pub proof fn lemma_fingerprint_deterministic(
    width1: Range, height1: Range, tags1: Option<String>, rating1: KonachanRatingFilter,
    width2: Range, height2: Range, tags2: Option<String>, rating2: KonachanRatingFilter,
)
    requires
        width1 == width2,
        height1 == height2,
        tags_text(tags1) == tags_text(tags2),
        rating1 == rating2,
    ensures
        fingerprint(width1, height1, tags1, rating1) == fingerprint(width2, height2, tags2, rating2),
{
}

/// `s` with each space written as `%20`.
pub open spec fn escape_spaces(s: Seq<char>) -> Seq<char>
    decreases s.len(),
{
    if s.len() == 0 {
        s
    } else {
        escape_spaces(s.drop_last()) + if s.last() == ' ' { "%20"@ } else { seq![s.last()] }
    }
}

/// The address of one page of the catalog's answer to a query.
pub open spec fn page_url_text(width: Range, height: Range, tags: Option<String>, rating: KonachanRatingFilter, page: nat) -> Seq<char> {
    "https://konachan.net/post.json?limit="@ + decimal(PAGE_LIMIT as nat) + "&tags="@
        + escape_spaces(tags_text(tags)) + "%20rating%3A"@ + rating_filter_text(rating)
        + "%20width%3A"@ + range_text(width) + "+height%3A"@ + range_text(height) + "&page="@
        + decimal(page)
}

/// Appends the characters of a literal.
fn push_lit(s: &mut String, lit: &str)
    ensures
        final(s)@ == old(s)@ + lit@,
{
    push_str(s, lit)
}

/// Appends `t` with each space written as `%20`.
fn push_escaped(s: &mut String, t: &str)
    ensures
        final(s)@ == old(s)@ + escape_spaces(t@),
{
    let n = t.unicode_len();
    let mut i: usize = 0;
    assert(t@.subrange(0, 0) =~= Seq::<char>::empty());
    while i < n
        invariant
            n == t@.len(),
            i <= n,
            s@ == old(s)@ + escape_spaces(t@.subrange(0, i as int)),
        decreases n - i,
    {
        let c = t.get_char(i);
        let ghost pre = t@.subrange(0, i as int);
        assert(t@.subrange(0, i + 1).drop_last() =~= pre);
        if c == ' ' {
            push_lit(s, "%20");
        } else {
            push_char(s, c);
            assert(old(s)@ + escape_spaces(pre) + seq![c] =~= (old(s)@ + escape_spaces(pre)).push(c));
        }
        assert(s@ =~= old(s)@ + escape_spaces(t@.subrange(0, i + 1)));
        i = i + 1;
    }
    assert(t@.subrange(0, n as int) =~= t@);
}

/// The address of page `page` (counted from one) of the answer to a query.
pub fn page_url(
    width: &Range,
    height: &Range,
    tags: &Option<String>,
    rating: &KonachanRatingFilter,
    page: u32,
) -> (r: String)
    ensures
        r@ == page_url_text(*width, *height, *tags, *rating, page as nat),
{
    let mut s = String::new();
    push_lit(&mut s, "https://konachan.net/post.json?limit=");
    push_decimal(&mut s, PAGE_LIMIT as u64);
    push_lit(&mut s, "&tags=");
    match tags {
        Some(t) => push_escaped(&mut s, t.as_str()),
        None => {},
    }
    assert(escape_spaces(Seq::<char>::empty()) == Seq::<char>::empty());
    push_lit(&mut s, "%20rating%3A");
    push_str(&mut s, rating.as_str());
    push_lit(&mut s, "%20width%3A");
    width.push_text(&mut s);
    push_lit(&mut s, "+height%3A");
    height.push_text(&mut s);
    push_lit(&mut s, "&page=");
    push_decimal(&mut s, page as u64);
    assert(s@ =~= page_url_text(*width, *height, *tags, *rating, page as nat));
    s
}

/// Whether a page with this many entries is the last one: a full page may be
/// followed by more.
pub fn is_last_page(page_len: usize) -> (r: bool)
    ensures
        r == (page_len < PAGE_LIMIT),
{
    page_len < PAGE_LIMIT
}

/// Where an entry with `score` goes among entries sorted by score: after every
/// entry whose score is not larger.
pub open spec fn insert_pos(s: Seq<KonachanWallpaper>, score: i32) -> nat
    decreases s.len(),
{
    if s.len() == 0 {
        0
    } else if s[0].score > score {
        0
    } else {
        1 + insert_pos(s.drop_first(), score)
    }
}

/// `s` sorted ascending by score; entries of equal score keep their order.
pub open spec fn sorted_by_score(s: Seq<KonachanWallpaper>) -> Seq<KonachanWallpaper>
    decreases s.len(),
{
    if s.len() == 0 {
        s
    } else {
        let rest = sorted_by_score(s.drop_last());
        rest.insert(insert_pos(rest, s.last().score) as int, s.last())
    }
}

/// Whether the scores never decrease along `s`.
pub open spec fn is_sorted_by_score(s: Seq<KonachanWallpaper>) -> bool {
    forall|i: int, j: int| 0 <= i < j < s.len() ==> s[i].score <= s[j].score
}

proof fn lemma_insert_pos(s: Seq<KonachanWallpaper>, score: i32)
    requires
        is_sorted_by_score(s),
    ensures
        insert_pos(s, score) <= s.len(),
        forall|i: int| 0 <= i < insert_pos(s, score) ==> s[i].score <= score,
        forall|i: int| insert_pos(s, score) <= i < s.len() ==> s[i].score > score,
    decreases s.len(),
{
    if s.len() > 0 && s[0].score <= score {
        let t = s.drop_first();
        lemma_insert_pos(t, score);
        assert forall|i: int| 0 <= i < insert_pos(s, score) implies s[i].score <= score by {
            if i > 0 {
                assert(s[i] == t[i - 1]);
            }
        }
        assert forall|i: int| insert_pos(s, score) <= i < s.len() implies s[i].score > score by {
            assert(s[i] == t[i - 1]);
        }
    }
}

proof fn lemma_sorted_by_score(s: Seq<KonachanWallpaper>)
    ensures
        is_sorted_by_score(sorted_by_score(s)),
        sorted_by_score(s).to_multiset() == s.to_multiset(),
    decreases s.len(),
{
    broadcast use vstd::seq_lib::to_multiset_insert, vstd::seq_lib::to_multiset_build;
    if s.len() > 0 {
        let rest = sorted_by_score(s.drop_last());
        lemma_sorted_by_score(s.drop_last());
        let x = s.last();
        lemma_insert_pos(rest, x.score);
        let p = insert_pos(rest, x.score) as int;
        let r = rest.insert(p, x);
        assert forall|i: int, j: int| 0 <= i < j < r.len() implies r[i].score <= r[j].score by {
            if j < p {
            } else if j == p {
            } else if i < p {
                assert(r[j] == rest[j - 1]);
            } else if i == p {
                assert(r[j] == rest[j - 1]);
            } else {
                assert(r[i] == rest[i - 1]);
                assert(r[j] == rest[j - 1]);
            }
        }
        assert(s =~= s.drop_last().push(x));
    }
}

/// Whether an entry has score `k`.
pub open spec fn score_is(k: i32) -> spec_fn(KonachanWallpaper) -> bool {
    |e: KonachanWallpaper| e.score == k
}

proof fn lemma_filter_single(x: KonachanWallpaper, k: i32)
    ensures
        seq![x].filter(score_is(k)) == if x.score == k { seq![x] } else { Seq::<KonachanWallpaper>::empty() },
{
    reveal(Seq::filter);
    let e = Seq::<KonachanWallpaper>::empty();
    assert(e.filter(score_is(k)) == e);
    assert(seq![x].drop_last() =~= e);
    assert(seq![x].last() == x);
    assert(score_is(k)(x) == (x.score == k));
    assert(e.push(x) =~= seq![x]);
    assert(seq![x].filter(score_is(k)) == if score_is(k)(x) { e.push(x) } else { e });
}

proof fn lemma_sorted_by_score_stable(s: Seq<KonachanWallpaper>, k: i32)
    ensures
        sorted_by_score(s).filter(score_is(k)) == s.filter(score_is(k)),
    decreases s.len(),
{
    broadcast use Seq::filter_distributes_over_add;
    if s.len() > 0 {
        let rest = sorted_by_score(s.drop_last());
        lemma_sorted_by_score_stable(s.drop_last(), k);
        lemma_sorted_by_score(s.drop_last());
        let x = s.last();
        lemma_insert_pos(rest, x.score);
        let p = insert_pos(rest, x.score) as int;
        let lo = rest.subrange(0, p);
        let hi = rest.subrange(p, rest.len() as int);
        assert(rest =~= lo + hi);
        assert(rest.insert(p, x) =~= lo + seq![x] + hi);
        lemma_filter_single(x, k);
        if x.score == k {
            assert(hi.all(|e: KonachanWallpaper| !score_is(k)(e))) by {
                assert forall|i: int| 0 <= i < hi.len() implies !score_is(k)(#[trigger] hi[i]) by {
                    assert(hi[i] == rest[p + i]);
                }
            }
            hi.lemma_all_neg_filter_empty(score_is(k));
            assert(hi.filter(score_is(k)) =~= Seq::<KonachanWallpaper>::empty());
        }
        assert(s =~= s.drop_last() + seq![x]);
    }
}

/// Sorts catalog entries ascending by score; entries of equal score keep their order.
pub fn sort_by_score(list: Vec<KonachanWallpaper>) -> (r: Vec<KonachanWallpaper>)
    ensures
        r@ == sorted_by_score(list@),
        is_sorted_by_score(r@),
        r@.to_multiset() == list@.to_multiset(),
        forall|k: i32| #[trigger] r@.filter(score_is(k)) == list@.filter(score_is(k)),
{
    let ghost all = list@;
    let n = list.len();
    let mut input = list;
    let mut out: Vec<KonachanWallpaper> = Vec::new();
    let mut i: usize = 0;
    assert(all.subrange(0, 0) =~= Seq::<KonachanWallpaper>::empty());
    assert(all.subrange(0, n as int) =~= all);
    while i < n
        invariant
            n == all.len(),
            i <= n,
            input@ == all.subrange(i as int, n as int),
            out@ == sorted_by_score(all.subrange(0, i as int)),
        decreases n - i,
    {
        proof { lemma_sorted_by_score(all.subrange(0, i as int)); }
        let x = input.remove(0);
        assert(input@ =~= all.subrange(i + 1, n as int));
        let mut j: usize = 0;
        assert(out@.subrange(0, out@.len() as int) =~= out@);
        while j < out.len() && out[j].score <= x.score
            invariant
                j <= out@.len(),
                insert_pos(out@, x.score) == j + insert_pos(out@.subrange(j as int, out@.len() as int), x.score),
            decreases out@.len() - j,
        {
            let ghost t = out@.subrange(j as int, out@.len() as int);
            assert(t.drop_first() =~= out@.subrange(j + 1, out@.len() as int));
            j = j + 1;
        }
        proof {
            lemma_insert_pos(out@, x.score);
        }
        assert(insert_pos(out@, x.score) == j);
        out.insert(j, x);
        assert(all.subrange(0, i + 1).drop_last() =~= all.subrange(0, i as int));
        i = i + 1;
    }
    proof {
        lemma_sorted_by_score(all);
        assert forall|k: i32| #[trigger] out@.filter(score_is(k)) == all.filter(score_is(k)) by {
            lemma_sorted_by_score_stable(all, k);
        }
    }
    out
}

/// The pages of one catalog answer, collected in order until a short page ends it.
pub struct PageCollector {
    next_page: u32,
    collected: Vec<KonachanWallpaper>,
    done: bool,
}

impl PageCollector {
    /// The page to ask for next, counted from one.
    pub closed spec fn next_page_spec(&self) -> nat {
        self.next_page as nat
    }

    /// The entries of the pages received so far, in order.
    pub closed spec fn collected_spec(&self) -> Seq<KonachanWallpaper> {
        self.collected@
    }

    /// Whether the last page has come.
    pub closed spec fn is_done_spec(&self) -> bool {
        self.done
    }

    /// A collection that starts at page one.
    pub fn new() -> (r: PageCollector)
        ensures
            r.next_page_spec() == 1,
            r.collected_spec().len() == 0,
            !r.is_done_spec(),
    {
        PageCollector { next_page: 1, collected: Vec::new(), done: false }
    }

    /// The address of the next page to ask for, or nothing once the last has come.
    pub fn next_url(
        &self,
        width: &Range,
        height: &Range,
        tags: &Option<String>,
        rating: &KonachanRatingFilter,
    ) -> (r: Option<String>)
        ensures
            self.is_done_spec() ==> r is None,
            !self.is_done_spec() ==> (r matches Some(u)
                && u@ == page_url_text(*width, *height, *tags, *rating, self.next_page_spec())),
    {
        if self.done {
            None
        } else {
            Some(page_url(width, height, tags, rating, self.next_page))
        }
    }

    /// Adds a received page: its entries follow the earlier ones, and a page
    /// shorter than the limit (or the last page number there is) ends the answer.
    pub fn absorb(&mut self, page: Vec<KonachanWallpaper>)
        requires
            !old(self).is_done_spec(),
        ensures
            final(self).collected_spec() == old(self).collected_spec() + page@,
            final(self).is_done_spec() == (page@.len() < PAGE_LIMIT || old(self).next_page_spec() == u32::MAX),
            final(self).next_page_spec() == if old(self).next_page_spec() == u32::MAX {
                old(self).next_page_spec()
            } else {
                old(self).next_page_spec() + 1
            },
    {
        let mut page = page;
        let len = page.len();
        self.collected.append(&mut page);
        if is_last_page(len) || self.next_page == u32::MAX {
            self.done = true;
        }
        if self.next_page < u32::MAX {
            self.next_page = self.next_page + 1;
        }
    }

    /// Whether the last page has come.
    pub fn is_done(&self) -> (r: bool)
        ensures
            r == self.is_done_spec(),
    {
        self.done
    }

    /// The whole answer, sorted ascending by score with ties in the order received.
    pub fn finish(self) -> (r: Vec<KonachanWallpaper>)
        ensures
            r@ == sorted_by_score(self.collected_spec()),
    {
        sort_by_score(self.collected)
    }
}

/// What a look into the cache found.
pub enum CacheLookup {
    /// A fresh, non-empty answer: the catalog is not asked.
    Fresh(Vec<KonachanWallpaper>),
    /// The catalog must be asked; the stale answer, if any, is kept to fall back on.
    Stale(Option<Vec<KonachanWallpaper>>),
}

/// Relies on chrono's `Duration::from_std`, which refuses more than `i64::MAX`
/// milliseconds, and `num_days`, which counts whole days rounded toward zero:
/// together they turn an elapsed number of seconds into whole days.
#[verifier::external_body]
fn whole_days(elapsed_secs: u64) -> (r: Option<i64>)
    ensures
        elapsed_secs <= 9223372036854775 ==> r == Some((elapsed_secs / 86400) as i64),
        elapsed_secs > 9223372036854775 ==> r is None,
{
    chrono::Duration::from_std(std::time::Duration::from_secs(elapsed_secs)).ok().map(|d| d.num_days())
}

/// Whether an answer cached `elapsed_secs` seconds ago (when known) is still fresh.
pub open spec fn is_fresh_age(elapsed_secs: Option<u64>) -> bool {
    match elapsed_secs {
        Some(e) => e <= 9223372036854775 && e / 86400 <= MAX_CACHE_AGE_DAYS,
        None => false,
    }
}

/// The cached answer that is used without asking the catalog, if any.
pub open spec fn cache_hit(cached: Option<Seq<KonachanWallpaper>>, elapsed_secs: Option<u64>) -> Option<Seq<KonachanWallpaper>> {
    match cached {
        Some(l) => if l.len() > 0 && is_fresh_age(elapsed_secs) { Some(l) } else { None },
        None => None,
    }
}

/// The view of an optional answer.
pub open spec fn opt_list(o: Option<Vec<KonachanWallpaper>>) -> Option<Seq<KonachanWallpaper>> {
    match o {
        Some(l) => Some(l@),
        None => None,
    }
}

/// The cached answer is used when it is non-empty and at most five whole days old;
/// otherwise it is kept as a fallback and the catalog is asked.
pub fn lookup_cache(cached: Option<Vec<KonachanWallpaper>>, elapsed_secs: Option<u64>) -> (r: CacheLookup)
    ensures
        match cached {
            Some(l) => if l@.len() > 0 && is_fresh_age(elapsed_secs) {
                r == CacheLookup::Fresh(l)
            } else {
                r == CacheLookup::Stale(Some(l))
            },
            None => r == CacheLookup::Stale(None),
        },
        cache_hit(opt_list(cached), elapsed_secs) == match r {
            CacheLookup::Fresh(l) => Some(l@),
            CacheLookup::Stale(_) => None,
        },
{
    let days = match elapsed_secs {
        Some(e) => whole_days(e),
        None => None,
    };
    match cached {
        Some(list) => {
            let fresh = match days {
                Some(d) => d <= MAX_CACHE_AGE_DAYS,
                None => false,
            };
            if list.len() > 0 && fresh {
                CacheLookup::Fresh(list)
            } else {
                CacheLookup::Stale(Some(list))
            }
        },
        None => CacheLookup::Stale(None),
    }
}

/// The answer after asking the catalog: a fetched answer is returned and marked
/// to be stored; on failure the stale answer is used, or the error passed on
/// when there is none.
pub fn resolve_fetch<E>(
    fetched: Result<Vec<KonachanWallpaper>, E>,
    stale: Option<Vec<KonachanWallpaper>>,
) -> (r: Result<(Vec<KonachanWallpaper>, bool), E>)
    ensures
        match fetched {
            Ok(l) => r == Ok::<_, E>((l, true)),
            Err(e) => match stale {
                Some(s) => r == Ok::<_, E>((s, false)),
                None => r == Err::<(Vec<KonachanWallpaper>, bool), E>(e),
            },
        },
{
    match fetched {
        Ok(list) => Ok((list, true)),
        Err(e) => match stale {
            Some(s) => Ok((s, false)),
            None => Err(e),
        },
    }
}

/// An answer that was just fetched is stored; asked for again within five days,
/// the cache returns that same answer and the catalog is not asked, provided the
/// answer is not empty.
pub proof fn lemma_stored_answer_is_fresh(fetched: Seq<KonachanWallpaper>, elapsed_secs: u64)
    requires
        fetched.len() > 0,
        elapsed_secs < 6 * 86400,
    ensures
        cache_hit(Some(fetched), Some(elapsed_secs)) == Some(fetched),
{
}

/// An answer more than five whole days old is never used without asking the catalog.
pub proof fn lemma_old_answer_is_refetched(cached: Option<Seq<KonachanWallpaper>>, elapsed_secs: u64)
    requires
        elapsed_secs >= 6 * 86400,
    ensures
        cache_hit(cached, Some(elapsed_secs)) is None,
{
}

} // verus!
