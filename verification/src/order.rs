//! The order in which articles are listed: newest first for search results,
//! and led by the parity of the newest identifier for the index.

use crate::blog::Blog;
use vstd::prelude::*;

verus! {

/// The articles of `s` that carry the identifier `id`, in the order they
/// have in `s`.
pub open spec fn with_id(s: Seq<Blog>, id: i32) -> Seq<Blog> {
    s.filter(|b: Blog| b.id == id)
}

/// `r` holds the articles of `s`, each as often as `s` does, and articles
/// that share an identifier stand in `r` in the order they had in `s`.
pub open spec fn same_per_id(s: Seq<Blog>, r: Seq<Blog>) -> bool {
    &&& r.len() == s.len()
    &&& forall|id: i32| #[trigger] with_id(r, id) == with_id(s, id)
}

/// No article stands before one with a larger identifier.
pub open spec fn newest_first(s: Seq<Blog>) -> bool {
    forall|i: int, j: int| 0 <= i < j < s.len() ==> s[i].id >= s[j].id
}

/// The largest identifier in `s`; `s` is not empty.
pub open spec fn max_id(s: Seq<Blog>) -> int
    decreases s.len(),
{
    if s.len() <= 1 {
        s[0].id as int
    } else if s.last().id > max_id(s.drop_last()) {
        s.last().id as int
    } else {
        max_id(s.drop_last())
    }
}

/// `id` is odd.
pub open spec fn is_odd(id: int) -> bool {
    id % 2 != 0
}

/// Odd identifiers lead the index of `s`: its largest identifier is odd and
/// above zero. In every other case even identifiers lead.
pub open spec fn odds_lead(s: Seq<Blog>) -> bool {
    s.len() > 0 && max_id(s) > 0 && is_odd(max_id(s))
}

/// The articles of one parity all stand before those of the other: the odd
/// ones first where `odd_first`, else the even ones.
pub open spec fn parity_led(s: Seq<Blog>, odd_first: bool) -> bool {
    forall|i: int, j: int|
        0 <= i < j < s.len() ==> (is_odd(s[i].id as int) == odd_first || is_odd(s[j].id as int)
            != odd_first)
}

/// Among articles of one parity, none stands before one with a larger
/// identifier.
pub open spec fn newest_first_per_parity(s: Seq<Blog>) -> bool {
    forall|i: int, j: int|
        0 <= i < j < s.len() && is_odd(s[i].id as int) == is_odd(s[j].id as int) ==> s[i].id
            >= s[j].id
}

/// How a list is ordered.
#[derive(Debug, Clone, Copy, PartialEq, Eq, Structural)]
pub enum Listing {
    /// By identifier, largest first.
    NewestFirst,
    /// Odd identifiers before even ones, each group largest first.
    OddsLead,
    /// Even identifiers before odd ones, each group largest first.
    EvensLead,
}

impl Listing {
    /// The place of an identifier in the listing: an article stands before
    /// every article whose identifier has a larger place.
    pub open spec fn place(self, id: i32) -> int {
        match self {
            Listing::NewestFirst => -(id as int),
            Listing::OddsLead => (if is_odd(id as int) {
                0
            } else {
                0x1_0000_0000int
            }) - id,
            Listing::EvensLead => (if is_odd(id as int) {
                0x1_0000_0000int
            } else {
                0
            }) - id,
        }
    }

    /// The place of an identifier in the listing.
    pub fn place_of(self, id: i32) -> (p: i64)
        ensures
            p == self.place(id),
    {
        let odd: bool = id % 2 != 0;
        let shift: i64 = match self {
            Listing::NewestFirst => 0,
            Listing::OddsLead => if odd {
                0
            } else {
                0x1_0000_0000
            },
            Listing::EvensLead => if odd {
                0x1_0000_0000
            } else {
                0
            },
        };
        shift - id as i64
    }
}

/// The articles stand by rising place.
pub open spec fn listed(s: Seq<Blog>, listing: Listing) -> bool {
    forall|i: int, j: int|
        0 <= i < j < s.len() ==> listing.place(s[i].id) <= listing.place(s[j].id)
}

/// Putting `b` into `s` at `at` adds it behind the articles that share its
/// identifier, where none of them stands at or after `at`, and changes
/// nothing for any other identifier.
proof fn lemma_insert_per_id(s: Seq<Blog>, at: int, b: Blog, id: i32)
    requires
        0 <= at <= s.len(),
        forall|k: int| at <= k < s.len() ==> s[k].id != b.id,
    ensures
        with_id(s.insert(at, b), id) == if id == b.id {
            with_id(s, id).push(b)
        } else {
            with_id(s, id)
        },
{
    let pred = |x: Blog| x.id == id;
    let front = s.subrange(0, at);
    let back = s.subrange(at, s.len() as int);
    assert(s == front + back);
    assert(s.insert(at, b) == front.push(b) + back);
    Seq::filter_distributes_over_add(front, back, pred);
    Seq::filter_distributes_over_add(front.push(b), back, pred);
    assert(front.push(b).drop_last() == front);
    assert(front.push(b).filter(pred) == if id == b.id {
        front.filter(pred).push(b)
    } else {
        front.filter(pred)
    }) by {
        reveal(Seq::filter);
    }
    if id == b.id {
        back.lemma_all_neg_filter_empty(pred);
        assert(back.filter(pred) == Seq::<Blog>::empty());
        assert(front.filter(pred).push(b) + back.filter(pred) == (front.filter(pred)
            + back.filter(pred)).push(b));
    }
}

/// Adding `b` at the end of `s` adds it at the end of the articles that
/// share its identifier.
proof fn lemma_push_per_id(s: Seq<Blog>, b: Blog, id: i32)
    ensures
        with_id(s.push(b), id) == if id == b.id {
            with_id(s, id).push(b)
        } else {
            with_id(s, id)
        },
{
    reveal(Seq::filter);
    assert(s.push(b).drop_last() == s);
}

/// Sorts `blogs` by rising place in `listing`. Articles that share an
/// identifier keep their order.
pub fn sort_listing(blogs: Vec<Blog>, listing: Listing) -> (sorted: Vec<Blog>)
    ensures
        same_per_id(blogs@, sorted@),
        listed(sorted@, listing),
{
    let ghost input = blogs@;
    let mut sorted: Vec<Blog> = Vec::new();
    proof {
        assert(input.take(0) == Seq::<Blog>::empty());
    }
    for blog in it: blogs
        invariant
            it.seq() == input,
            sorted@.len() == it.index(),
            forall|id: i32| #[trigger]
                with_id(sorted@, id) == with_id(input.take(it.index() as int), id),
            listed(sorted@, listing),
    {
        let ghost done = input.take(it.index() as int);
        let ghost before = sorted@;
        let place: i64 = listing.place_of(blog.id);
        let mut at: usize = 0;
        while at < sorted.len() && listing.place_of(sorted[at].id) <= place
            invariant
                at <= sorted.len(),
                sorted@ == before,
                place == listing.place(blog.id),
                forall|k: int| 0 <= k < at ==> listing.place(before[k].id) <= place,
            decreases sorted.len() - at,
        {
            at += 1;
        }
        proof {
            assert forall|k: int| at <= k < before.len() implies before[k].id != blog.id by {
                assert(listing.place(before[at as int].id) <= listing.place(before[k].id));
            }
            before.insert_ensures(at as int, blog);
            let after = before.insert(at as int, blog);
            assert(input.take(it.index() as int + 1) == done.push(blog));
            assert forall|id: i32| #[trigger]
                with_id(after, id) == with_id(done.push(blog), id) by {
                lemma_insert_per_id(before, at as int, blog, id);
                lemma_push_per_id(done, blog, id);
                assert(with_id(before, id) == with_id(done, id));
            }
            assert forall|i: int, j: int| 0 <= i < j < after.len() implies listing.place(
                after[i].id,
            ) <= listing.place(after[j].id) by {
                if j < at {
                    assert(after[i] == before[i] && after[j] == before[j]);
                } else if j == at {
                    assert(after[i] == before[i]);
                } else if i < at {
                    assert(after[i] == before[i] && after[j] == before[j - 1]);
                } else if i == at {
                    assert(after[j] == before[j - 1]);
                    assert(listing.place(before[at as int].id) <= listing.place(
                        before[j - 1].id,
                    ));
                } else {
                    assert(after[i] == before[i - 1] && after[j] == before[j - 1]);
                }
            }
        }
        sorted.insert(at, blog);
    }
    proof {
        assert(input.take(input.len() as int) == input);
    }
    sorted
}

/// No two identifiers share a place in a listing.
pub proof fn lemma_places_differ(listing: Listing, a: i32, b: i32)
    requires
        listing.place(a) == listing.place(b),
    ensures
        a == b,
{
}

/// The first article of a list is the first of those that carry its
/// identifier; without it, the list holds the same articles but this one.
proof fn lemma_head_per_id(r: Seq<Blog>, id: i32)
    requires
        r.len() > 0,
    ensures
        with_id(r, id) == if id == r[0].id {
            seq![r[0]] + with_id(r.skip(1), id)
        } else {
            with_id(r.skip(1), id)
        },
{
    let pred = |x: Blog| x.id == id;
    let head = seq![r[0]];
    assert(r == head + r.skip(1));
    Seq::filter_distributes_over_add(head, r.skip(1), pred);
    assert(head.filter(pred) == if id == r[0].id {
        head
    } else {
        Seq::<Blog>::empty()
    }) by {
        reveal_with_fuel(Seq::filter, 2);
        assert(head.drop_last() == Seq::<Blog>::empty());
    }
}

/// An identifier that `b` starts with is carried by some article of `a`,
/// where the two hold the same articles.
proof fn lemma_head_is_shared(a: Seq<Blog>, b: Seq<Blog>) -> (i: int)
    requires
        b.len() > 0,
        forall|id: i32| #[trigger] with_id(b, id) == with_id(a, id),
    ensures
        0 <= i < a.len(),
        a[i].id == b[0].id,
{
    let id = b[0].id;
    let pred = |x: Blog| x.id == id;
    lemma_head_per_id(b, id);
    assert(with_id(b, id).len() > 0);
    assert(with_id(a, id) == with_id(b, id));
    let x = a.filter(pred)[0];
    a.lemma_filter_pred(pred, 0);
    assert(a.filter(pred).contains(x));
    a.lemma_filter_contains_rev(pred, x);
    let i = choose|i: int| 0 <= i < a.len() && a[i] == x;
    i
}

/// A listing leaves no choice: two lists that hold the articles of `s`,
/// keep the order of those that share an identifier, and stand by rising
/// place, are one and the same list.
pub proof fn lemma_listing_is_unique(s: Seq<Blog>, a: Seq<Blog>, b: Seq<Blog>, listing: Listing)
    requires
        same_per_id(s, a),
        same_per_id(s, b),
        listed(a, listing),
        listed(b, listing),
    ensures
        a == b,
    decreases a.len(),
{
    assert forall|id: i32| #[trigger] with_id(b, id) == with_id(a, id) by {
        assert(with_id(b, id) == with_id(s, id));
        assert(with_id(a, id) == with_id(s, id));
    }
    if a.len() > 0 {
        let i = lemma_head_is_shared(a, b);
        assert forall|id: i32| #[trigger] with_id(a, id) == with_id(b, id) by {
            assert(with_id(b, id) == with_id(a, id));
        }
        let j = lemma_head_is_shared(b, a);
        assert(listing.place(a[0].id) <= listing.place(a[i].id));
        assert(listing.place(b[0].id) <= listing.place(b[j].id));
        lemma_places_differ(listing, a[0].id, b[0].id);
        let k = a[0].id;
        lemma_head_per_id(a, k);
        lemma_head_per_id(b, k);
        assert(with_id(b, k) == with_id(a, k));
        assert(a[0] == with_id(a, k)[0]);
        assert(b[0] == with_id(b, k)[0]);
        let rest_a = a.skip(1);
        let rest_b = b.skip(1);
        assert forall|id: i32| #[trigger] with_id(rest_b, id) == with_id(rest_a, id) by {
            lemma_head_per_id(a, id);
            lemma_head_per_id(b, id);
            assert(with_id(b, id) == with_id(a, id));
            if id == k {
                assert(with_id(rest_a, id) == with_id(a, id).skip(1));
                assert(with_id(rest_b, id) == with_id(b, id).skip(1));
            }
        }
        assert(same_per_id(rest_a, rest_a));
        assert(listed(rest_a, listing)) by {
            assert forall|x: int, y: int| 0 <= x < y < rest_a.len() implies listing.place(
                rest_a[x].id,
            ) <= listing.place(rest_a[y].id) by {
                assert(listing.place(a[x + 1].id) <= listing.place(a[y + 1].id));
            }
        }
        assert(listed(rest_b, listing)) by {
            assert forall|x: int, y: int| 0 <= x < y < rest_b.len() implies listing.place(
                rest_b[x].id,
            ) <= listing.place(rest_b[y].id) by {
                assert(listing.place(b[x + 1].id) <= listing.place(b[y + 1].id));
            }
        }
        lemma_listing_is_unique(rest_a, rest_a, rest_b, listing);
        assert(a == seq![a[0]] + rest_a);
        assert(b == seq![b[0]] + rest_b);
    }
}

/// The largest identifier is at least every identifier, and some article
/// carries it.
pub proof fn lemma_max_id(s: Seq<Blog>)
    requires
        s.len() > 0,
    ensures
        forall|i: int| 0 <= i < s.len() ==> s[i].id <= max_id(s),
        exists|i: int| 0 <= i < s.len() && s[i].id == max_id(s),
    decreases s.len(),
{
    if s.len() > 1 {
        let rest = s.drop_last();
        lemma_max_id(rest);
        let w = choose|i: int| 0 <= i < rest.len() && rest[i].id == max_id(rest);
        assert(s[w] == rest[w]);
        assert forall|i: int| 0 <= i < s.len() implies s[i].id <= max_id(s) by {
            if i < rest.len() {
                assert(s[i] == rest[i]);
            }
        }
        if s.last().id > max_id(rest) {
            assert(s[s.len() - 1].id == max_id(s));
        } else {
            assert(s[w].id == max_id(s));
        }
    } else {
        assert(s[0].id == max_id(s));
    }
}

/// The largest identifier among `blogs`, which is not empty.
pub fn largest_id(blogs: &Vec<Blog>) -> (largest: i32)
    requires
        blogs@.len() > 0,
    ensures
        largest == max_id(blogs@),
        forall|i: int| 0 <= i < blogs@.len() ==> blogs@[i].id <= largest,
        exists|i: int| 0 <= i < blogs@.len() && blogs@[i].id == largest,
{
    proof {
        lemma_max_id(blogs@);
    }
    let mut largest: i32 = blogs[0].id;
    let mut i: usize = 1;
    proof {
        assert(blogs@.take(1).len() == 1);
    }
    while i < blogs.len()
        invariant
            1 <= i <= blogs.len(),
            largest == max_id(blogs@.take(i as int)),
        decreases blogs.len() - i,
    {
        proof {
            let next = blogs@.take(i as int + 1);
            assert(next.drop_last() == blogs@.take(i as int));
            assert(next.last() == blogs@[i as int]);
        }
        if blogs[i].id > largest {
            largest = blogs[i].id;
        }
        i += 1;
    }
    proof {
        assert(blogs@.take(blogs.len() as int) == blogs@);
    }
    largest
}

impl Blog {
    /// Orders search results: largest identifier first, articles that share
    /// an identifier in the order they came in.
    pub fn sort_newest_first(blogs: Vec<Blog>) -> (sorted: Vec<Blog>)
        ensures
            same_per_id(blogs@, sorted@),
            newest_first(sorted@),
    {
        let sorted = sort_listing(blogs, Listing::NewestFirst);
        proof {
            assert forall|i: int, j: int| 0 <= i < j < sorted@.len() implies sorted@[i].id
                >= sorted@[j].id by {
                assert(Listing::NewestFirst.place(sorted@[i].id) <= Listing::NewestFirst.place(
                    sorted@[j].id,
                ));
            }
        }
        sorted
    }

    /// Orders the index. The articles whose identifier has the parity of
    /// the largest identifier come first (even ones, where that identifier
    /// is not above zero), then the others; each group has its largest
    /// identifier first, and articles that share an identifier keep the
    /// order they came in.
    pub fn reorder_blogs(blogs: Vec<Blog>) -> (reordered: Vec<Blog>)
        ensures
            same_per_id(blogs@, reordered@),
            parity_led(reordered@, odds_lead(blogs@)),
            newest_first_per_parity(reordered@),
    {
        if blogs.len() == 0 {
            proof {
                assert(same_per_id(blogs@, blogs@));
            }
            return blogs;
        }
        let largest: i32 = largest_id(&blogs);
        let listing = if largest % 2 == 1 {
            Listing::OddsLead
        } else {
            Listing::EvensLead
        };
        let ghost odd_first = odds_lead(blogs@);
        assert(odd_first == (listing == Listing::OddsLead));
        let reordered = sort_listing(blogs, listing);
        proof {
            let r = reordered@;
            assert forall|i: int, j: int| 0 <= i < j < r.len() implies (is_odd(r[i].id as int)
                == odd_first || is_odd(r[j].id as int) != odd_first) by {
                assert(listing.place(r[i].id) <= listing.place(r[j].id));
            }
            assert forall|i: int, j: int|
                0 <= i < j < r.len() && is_odd(r[i].id as int) == is_odd(
                    r[j].id as int,
                ) implies r[i].id >= r[j].id by {
                assert(listing.place(r[i].id) <= listing.place(r[j].id));
            }
        }
        reordered
    }
}

} // verus!
