//! Training items: the prefixes of each card's history on which a parameter
//! vector is fitted or scored.
//!
//! A review log arrives flat: all reviews of all cards in one run, and for
//! each card the one-based position at which its reviews start. A card's
//! reviews end where the next card's start, the last card's at the end of
//! the log. Every prefix of a card's history that holds at least two
//! reviews and at least one review with time elapsed is one training item.

use vstd::prelude::*;
use crate::error::FsrsError;
use crate::review::{paired_reviews, reviews_from, Review};

verus! {

/// One labelled example: a card's history up to and including the review
/// whose outcome is to be predicted.
#[derive(Clone, Debug)]
pub struct TrainingItem {
    pub reviews: Vec<Review>,
}

impl View for TrainingItem {
    type V = Seq<Review>;

    open spec fn view(&self) -> Seq<Review> {
        self.reviews@
    }
}

impl TrainingItem {
    /// Whether the item can be trained on: it holds at least two reviews,
    /// and at least one of them has time elapsed.
    pub open spec fn trainable(&self) -> bool {
        self@.len() >= 2 && has_signal(self@)
    }
}

/// The histories that a run of training items holds.
pub open spec fn item_views(items: Seq<TrainingItem>) -> Seq<Seq<Review>> {
    Seq::new(items.len(), |i: int| items[i]@)
}

/// Whether any of the reviews has time elapsed before it.
pub open spec fn has_signal(reviews: Seq<Review>) -> bool {
    exists|i: int| 0 <= i < reviews.len() && (#[trigger] reviews[i]).elapsed_days > 0
}

/// The training items among the prefixes of `card` of at most `longest`
/// reviews, shortest first.
pub open spec fn prefix_items(card: Seq<Review>, longest: nat) -> Seq<Seq<Review>>
    decreases longest,
{
    if longest < 2 {
        Seq::empty()
    } else {
        let before = prefix_items(card, (longest - 1) as nat);
        if has_signal(card.take(longest as int)) {
            before.push(card.take(longest as int))
        } else {
            before
        }
    }
}

/// All training items of one card.
pub open spec fn card_items(card: Seq<Review>) -> Seq<Seq<Review>> {
    prefix_items(card, card.len())
}

/// The zero-based position at which card `k` starts. One past the last card
/// it is the length of the log.
pub open spec fn bound_at(card_starts: Seq<i32>, total: int, k: int) -> int {
    if 0 <= k < card_starts.len() {
        card_starts[k] - 1
    } else {
        total
    }
}

/// The reviews of card `k`. A card whose bounds do not enclose a non-empty
/// stretch of the log has none.
pub open spec fn card_at(all: Seq<Review>, card_starts: Seq<i32>, k: int) -> Seq<Review> {
    let start = bound_at(card_starts, all.len() as int, k);
    let end = bound_at(card_starts, all.len() as int, k + 1);
    if 0 <= start < end <= all.len() {
        all.subrange(start, end)
    } else {
        Seq::empty()
    }
}

/// The training items of the first `cards` cards, card after card.
pub open spec fn items_of_cards(all: Seq<Review>, card_starts: Seq<i32>, cards: nat) -> Seq<
    Seq<Review>,
>
    decreases cards,
{
    if cards == 0 {
        Seq::empty()
    } else {
        items_of_cards(all, card_starts, (cards - 1) as nat) + card_items(
            card_at(all, card_starts, cards - 1),
        )
    }
}

/// The training items of a whole log.
pub open spec fn training_items_of(all: Seq<Review>, card_starts: Seq<i32>) -> Seq<Seq<Review>> {
    items_of_cards(all, card_starts, card_starts.len())
}

/// A prefix gains a signal exactly when the shorter prefix had one or the
/// review that was added has time elapsed.
proof fn lemma_signal_step(card: Seq<Review>, last: int)
    requires
        0 <= last < card.len(),
    ensures
        has_signal(card.take(last + 1)) <==> has_signal(card.take(last))
            || card[last].elapsed_days > 0,
{
    let longer = card.take(last + 1);
    let before = card.take(last);
    if has_signal(longer) {
        let i = choose|i: int| 0 <= i < longer.len() && (#[trigger] longer[i]).elapsed_days > 0;
        if i < last {
            assert(before[i].elapsed_days > 0);
        }
    }
    if has_signal(before) {
        let i = choose|i: int| 0 <= i < before.len() && (#[trigger] before[i]).elapsed_days > 0;
        assert(longer[i].elapsed_days > 0);
    }
    if card[last].elapsed_days > 0 {
        assert(longer[last].elapsed_days > 0);
    }
}

/// Every entry of `prefix_items` is a prefix of the card with at least two
/// reviews, at most `longest`, and a signal.
proof fn lemma_prefix_items_entries(card: Seq<Review>, longest: nat, i: int)
    requires
        longest <= card.len(),
        0 <= i < prefix_items(card, longest).len(),
    ensures
        2 <= prefix_items(card, longest)[i].len() <= longest,
        has_signal(prefix_items(card, longest)[i]),
        prefix_items(card, longest)[i] == card.take(prefix_items(card, longest)[i].len() as int),
    decreases longest,
{
    if longest >= 2 {
        let before = prefix_items(card, (longest - 1) as nat);
        if i < before.len() {
            lemma_prefix_items_entries(card, (longest - 1) as nat, i);
        }
    }
}

/// Every entry of `items_of_cards` is a training item of one of the cards.
proof fn lemma_items_of_cards_entries(
    all: Seq<Review>,
    card_starts: Seq<i32>,
    cards: nat,
    i: int,
) -> (k: int)
    requires
        0 <= i < items_of_cards(all, card_starts, cards).len(),
    ensures
        0 <= k < cards,
        2 <= items_of_cards(all, card_starts, cards)[i].len() <= card_at(
            all,
            card_starts,
            k,
        ).len(),
        has_signal(items_of_cards(all, card_starts, cards)[i]),
        items_of_cards(all, card_starts, cards)[i] == card_at(all, card_starts, k).take(
            items_of_cards(all, card_starts, cards)[i].len() as int,
        ),
    decreases cards,
{
    let before = items_of_cards(all, card_starts, (cards - 1) as nat);
    if i < before.len() {
        lemma_items_of_cards_entries(all, card_starts, (cards - 1) as nat, i)
    } else {
        let card = card_at(all, card_starts, cards - 1);
        lemma_prefix_items_entries(card, card.len(), i - before.len());
        cards - 1
    }
}

/// Every training item of a log holds at least two reviews, one of them
/// with time elapsed, and is the beginning of one card's history.
pub proof fn lemma_items_trainable(all: Seq<Review>, card_starts: Seq<i32>, i: int)
    requires
        0 <= i < training_items_of(all, card_starts).len(),
    ensures
        training_items_of(all, card_starts)[i].len() >= 2,
        has_signal(training_items_of(all, card_starts)[i]),
        exists|k: int|
            0 <= k < card_starts.len() && training_items_of(all, card_starts)[i].len() <= card_at(
                all,
                card_starts,
                k,
            ).len() && training_items_of(all, card_starts)[i] == (#[trigger] card_at(
                all,
                card_starts,
                k,
            )).take(training_items_of(all, card_starts)[i].len() as int),
{
    let k = lemma_items_of_cards_entries(all, card_starts, card_starts.len(), i);
}

/// Every prefix of a card with at least two reviews and a signal is among
/// the first `longest` candidates, once `longest` reaches its length.
proof fn lemma_prefix_items_complete(card: Seq<Review>, longest: nat, n: int)
    requires
        2 <= n <= longest <= card.len(),
        has_signal(card.take(n)),
    ensures
        prefix_items(card, longest).contains(card.take(n)),
    decreases longest,
{
    let items = prefix_items(card, longest);
    let before = prefix_items(card, (longest - 1) as nat);
    if n == longest {
        assert(items[items.len() - 1] == card.take(n));
    } else {
        lemma_prefix_items_complete(card, (longest - 1) as nat, n);
        let i = choose|i: int| 0 <= i < before.len() && before[i] == card.take(n);
        assert(items[i] == card.take(n));
    }
}

/// Among the first `longest` candidates a later item is longer than an
/// earlier one.
proof fn lemma_prefix_items_ascend(card: Seq<Review>, longest: nat, i: int, j: int)
    requires
        longest <= card.len(),
        0 <= i < j < prefix_items(card, longest).len(),
    ensures
        prefix_items(card, longest)[i].len() < prefix_items(card, longest)[j].len(),
    decreases longest,
{
    if longest >= 2 {
        let before = prefix_items(card, (longest - 1) as nat);
        if j < before.len() {
            lemma_prefix_items_ascend(card, (longest - 1) as nat, i, j);
        } else {
            lemma_prefix_items_entries(card, (longest - 1) as nat, i);
        }
    }
}

/// The training items of one card are exactly its prefixes of at least two
/// reviews that hold a signal: each item is such a prefix.
pub proof fn lemma_card_items_sound(card: Seq<Review>, i: int)
    requires
        0 <= i < card_items(card).len(),
    ensures
        2 <= card_items(card)[i].len() <= card.len(),
        has_signal(card_items(card)[i]),
        card_items(card)[i] == card.take(card_items(card)[i].len() as int),
{
    lemma_prefix_items_entries(card, card.len(), i);
}

/// The training items of one card are exactly its prefixes of at least two
/// reviews that hold a signal: each such prefix is an item.
pub proof fn lemma_card_items_complete(card: Seq<Review>, n: int)
    requires
        2 <= n <= card.len(),
        has_signal(card.take(n)),
    ensures
        card_items(card).contains(card.take(n)),
{
    lemma_prefix_items_complete(card, card.len(), n);
}

/// The training items of one card come shortest first, and no prefix comes
/// twice.
pub proof fn lemma_card_items_ascend(card: Seq<Review>, i: int, j: int)
    requires
        0 <= i < j < card_items(card).len(),
    ensures
        card_items(card)[i].len() < card_items(card)[j].len(),
{
    lemma_prefix_items_ascend(card, card.len(), i, j);
}

/// Once a prefix of a card holds a signal, every longer prefix does: a
/// card's training items are its prefixes from some length on.
pub proof fn lemma_signal_stays(card: Seq<Review>, n: int, m: int)
    requires
        0 <= n <= m <= card.len(),
        has_signal(card.take(n)),
    ensures
        has_signal(card.take(m)),
{
    let shorter = card.take(n);
    let i = choose|i: int| 0 <= i < shorter.len() && (#[trigger] shorter[i]).elapsed_days > 0;
    assert(card.take(m)[i].elapsed_days > 0);
}

/// Every training item of every card is among the training items of the
/// log.
pub proof fn lemma_items_complete(all: Seq<Review>, card_starts: Seq<i32>, k: int, n: int)
    requires
        0 <= k < card_starts.len(),
        2 <= n <= card_at(all, card_starts, k).len(),
        has_signal(card_at(all, card_starts, k).take(n)),
    ensures
        training_items_of(all, card_starts).contains(card_at(all, card_starts, k).take(n)),
{
    lemma_items_of_cards_complete(all, card_starts, card_starts.len(), k, n);
}

/// Every training item of the first `cards` cards is among `items_of_cards`.
proof fn lemma_items_of_cards_complete(
    all: Seq<Review>,
    card_starts: Seq<i32>,
    cards: nat,
    k: int,
    n: int,
)
    requires
        0 <= k < cards,
        2 <= n <= card_at(all, card_starts, k).len(),
        has_signal(card_at(all, card_starts, k).take(n)),
    ensures
        items_of_cards(all, card_starts, cards).contains(card_at(all, card_starts, k).take(n)),
    decreases cards,
{
    let items = items_of_cards(all, card_starts, cards);
    let before = items_of_cards(all, card_starts, (cards - 1) as nat);
    let wanted = card_at(all, card_starts, k).take(n);
    if k == cards - 1 {
        let own = card_items(card_at(all, card_starts, k));
        lemma_card_items_complete(card_at(all, card_starts, k), n);
        let i = choose|i: int| 0 <= i < own.len() && own[i] == wanted;
        assert(items[before.len() + i] == wanted);
    } else {
        lemma_items_of_cards_complete(all, card_starts, (cards - 1) as nat, k, n);
        let i = choose|i: int| 0 <= i < before.len() && before[i] == wanted;
        assert(items[i] == wanted);
    }
}

/// A log in which no review has time elapsed yields no training item,
/// however its cards are laid out.
pub proof fn lemma_no_signal_no_items(all: Seq<Review>, card_starts: Seq<i32>)
    requires
        !has_signal(all),
    ensures
        training_items_of(all, card_starts).len() == 0,
{
    if training_items_of(all, card_starts).len() > 0 {
        let item = training_items_of(all, card_starts)[0];
        let k = lemma_items_of_cards_entries(all, card_starts, card_starts.len(), 0);
        let card = card_at(all, card_starts, k);
        let start = bound_at(card_starts, all.len() as int, k);
        let j = choose|j: int| 0 <= j < item.len() && (#[trigger] item[j]).elapsed_days > 0;
        assert(all[start + j].elapsed_days > 0);
    }
}

/// A log without cards, and a log of fewer than two reviews, yield no
/// training item.
pub proof fn lemma_short_log_no_items(all: Seq<Review>, card_starts: Seq<i32>)
    requires
        card_starts.len() == 0 || all.len() < 2,
    ensures
        training_items_of(all, card_starts).len() == 0,
{
    if training_items_of(all, card_starts).len() > 0 {
        let k = lemma_items_of_cards_entries(all, card_starts, card_starts.len(), 0);
    }
}

/// The zero-based start of card `k` where it lies within the log.
fn bound(card_starts: &Vec<i32>, total: usize, k: usize) -> (b: Option<usize>)
    requires
        k <= card_starts.len(),
    ensures
        match b {
            Some(v) => v as int == bound_at(card_starts@, total as int, k as int) && v <= total,
            None => bound_at(card_starts@, total as int, k as int) < 0 || bound_at(
                card_starts@,
                total as int,
                k as int,
            ) > total,
        },
{
    if k < card_starts.len() {
        let raw: i32 = card_starts[k];
        if raw < 1 {
            None
        } else {
            let v: usize = (raw - 1) as usize;
            if v > total {
                None
            } else {
                Some(v)
            }
        }
    } else {
        Some(total)
    }
}

/// A copy of the reviews from `start` up to `end`.
fn copy_range(all: &Vec<Review>, start: usize, end: usize) -> (part: Vec<Review>)
    requires
        start <= end <= all.len(),
    ensures
        part@ == all@.subrange(start as int, end as int),
{
    let mut part: Vec<Review> = Vec::new();
    let mut i: usize = start;
    while i < end
        invariant
            start <= i <= end <= all.len(),
            part@ == all@.subrange(start as int, i as int),
        decreases end - i,
    {
        part.push(all[i]);
        assert(part@ =~= all@.subrange(start as int, i + 1));
        i += 1;
    }
    part
}

/// The training items of one card's history: each prefix of at least two
/// reviews that holds a review with time elapsed, shortest first.
pub fn history_items(history: &Vec<Review>) -> (items: Vec<TrainingItem>)
    ensures
        item_views(items@) == card_items(history@),
        forall|i: int| 0 <= i < items@.len() ==> (#[trigger] items@[i]).trainable(),
{
    let mut items: Vec<TrainingItem> = Vec::new();
    let len: usize = history.len();
    if len == 0 {
        assert(item_views(items@) =~= card_items(history@));
        return items;
    }
    let mut seen: bool = history[0].elapsed_days > 0;
    let mut last: usize = 1;
    proof {
        lemma_signal_step(history@, 0);
        assert(item_views(items@) =~= prefix_items(history@, 1));
    }
    while last < len
        invariant
            1 <= last <= len,
            len == history.len(),
            seen == has_signal(history@.take(last as int)),
            item_views(items@) == prefix_items(history@, last as nat),
        decreases len - last,
    {
        proof {
            lemma_signal_step(history@, last as int);
        }
        seen = seen || history[last].elapsed_days > 0;
        if seen {
            let ghost before = items@;
            let reviews = copy_range(history, 0, last + 1);
            assert(reviews@ =~= history@.take(last + 1));
            items.push(TrainingItem { reviews });
            assert(item_views(items@) =~= item_views(before).push(history@.take(last + 1)));
        }
        last += 1;
    }
    proof {
        assert forall|i: int| 0 <= i < items@.len() implies (#[trigger] items@[i]).trainable() by {
            lemma_card_items_sound(history@, i);
            assert(items@[i]@ == item_views(items@)[i]);
        }
    }
    items
}

/// Builds the training items of a flat review log.
///
/// `ratings` and `delta_ts` run in parallel, one entry per review; where one
/// is longer, the log ends with the shorter. `card_starts` gives each card's
/// one-based starting position. A card whose bounds are out of order or
/// outside the log contributes nothing.
pub fn training_items(ratings: &Vec<i32>, delta_ts: &Vec<i32>, card_starts: &Vec<i32>) -> (items:
    Vec<TrainingItem>)
    ensures
        item_views(items@) == training_items_of(
            paired_reviews(ratings@, delta_ts@),
            card_starts@,
        ),
        forall|i: int| 0 <= i < items@.len() ==> (#[trigger] items@[i]).trainable(),
{
    let all = reviews_from(ratings, delta_ts);
    let total: usize = all.len();
    let mut items: Vec<TrainingItem> = Vec::new();
    let mut k: usize = 0;
    assert(item_views(items@) =~= items_of_cards(all@, card_starts@, 0));
    while k < card_starts.len()
        invariant
            k <= card_starts.len(),
            total == all.len(),
            item_views(items@) == items_of_cards(all@, card_starts@, k as nat),
        decreases card_starts.len() - k,
    {
        let ghost done = items@;
        let ghost card = card_at(all@, card_starts@, k as int);
        let start = bound(card_starts, total, k);
        let end = bound(card_starts, total, k + 1);
        let mut grown: bool = false;
        if let (Some(s), Some(e)) = (start, end) {
            if s < e {
                grown = true;
                let history = copy_range(&all, s, e);
                let mut fresh = history_items(&history);
                let ghost added = fresh@;
                items.append(&mut fresh);
                assert(item_views(items@) =~= item_views(done) + item_views(added));
            }
        }
        proof {
            if !grown {
                assert(card_items(card) =~= Seq::<Seq<Review>>::empty());
                assert(item_views(items@) =~= item_views(done) + card_items(card));
            }
        }
        k += 1;
    }
    proof {
        assert forall|i: int| 0 <= i < items@.len() implies (#[trigger] items@[i]).trainable() by {
            lemma_items_trainable(all@, card_starts@, i);
            assert(items@[i]@ == item_views(items@)[i]);
        }
    }
    items
}

/// The training set of an optimisation run, or `NoTrainableData` where the
/// log yields no training item.
pub fn training_set(ratings: &Vec<i32>, delta_ts: &Vec<i32>, card_starts: &Vec<i32>) -> (set:
    Result<Vec<TrainingItem>, FsrsError>)
    ensures
        training_items_of(paired_reviews(ratings@, delta_ts@), card_starts@).len() > 0
            ==> set is Ok,
        match set {
            Ok(items) => items@.len() > 0 && item_views(items@) == training_items_of(
                paired_reviews(ratings@, delta_ts@),
                card_starts@,
            ) && forall|i: int| 0 <= i < items@.len() ==> (#[trigger] items@[i]).trainable(),
            Err(e) => e == FsrsError::NoTrainableData && training_items_of(
                paired_reviews(ratings@, delta_ts@),
                card_starts@,
            ).len() == 0,
        },
{
    let items = training_items(ratings, delta_ts, card_starts);
    if items.len() == 0 {
        Err(FsrsError::NoTrainableData)
    } else {
        Ok(items)
    }
}

/// The items on which a parameter vector is scored, or `EmptyHistory` where
/// the log yields none.
pub fn evaluation_set(ratings: &Vec<i32>, delta_ts: &Vec<i32>, card_starts: &Vec<i32>) -> (set:
    Result<Vec<TrainingItem>, FsrsError>)
    ensures
        training_items_of(paired_reviews(ratings@, delta_ts@), card_starts@).len() > 0
            ==> set is Ok,
        match set {
            Ok(items) => items@.len() > 0 && item_views(items@) == training_items_of(
                paired_reviews(ratings@, delta_ts@),
                card_starts@,
            ) && forall|i: int| 0 <= i < items@.len() ==> (#[trigger] items@[i]).trainable(),
            Err(e) => e == FsrsError::EmptyHistory && training_items_of(
                paired_reviews(ratings@, delta_ts@),
                card_starts@,
            ).len() == 0,
        },
{
    let items = training_items(ratings, delta_ts, card_starts);
    if items.len() == 0 {
        Err(FsrsError::EmptyHistory)
    } else {
        Ok(items)
    }
}

} // verus!
