use vstd::prelude::*;

verus! {

/// A bounded history after recording `d`: when it already holds `max` items or
/// more (and is not empty), the oldest is dropped first.
pub open spec fn history_push<A>(h: Seq<A>, max: nat, d: A) -> Seq<A> {
    if h.len() >= max && h.len() > 0 {
        h.drop_first().push(d)
    } else {
        h.push(d)
    }
}

/// How many of `h` a request for `count` items gets.
pub open spec fn take_count<A>(h: Seq<A>, count: nat) -> int {
    if count <= h.len() { count as int } else { h.len() as int }
}

/// Up to `count` items of `h`, newest first.
pub open spec fn newest_first<A>(h: Seq<A>, count: nat) -> Seq<A> {
    h.reverse().take(take_count(h, count))
}

/// The most items a history bounded by `max` holds: `max`, but at least one.
pub open spec fn history_capacity(max: nat) -> nat {
    if max == 0 { 1 } else { max }
}

/// A bounded history never exceeds its capacity.
pub proof fn law_history_bounded<A>(h: Seq<A>, max: nat, d: A)
    requires
        h.len() <= history_capacity(max),
    ensures
        history_push(h, max, d).len() <= history_capacity(max),
{
}

/// Recording an item makes it the newest, and the newest-first view starts with it.
pub proof fn law_history_newest_first<A>(h: Seq<A>, max: nat, d: A, count: nat)
    requires
        count >= 1,
    ensures
        history_push(h, max, d).last() == d,
        newest_first(history_push(h, max, d), count)[0] == d,
{
}

/// Once a history has filled up to `max` items, it keeps exactly the latest
/// `max` items recorded: it is the last `max` items of everything recorded.
pub proof fn law_history_keeps_latest<A>(h: Seq<A>, max: nat, d: A)
    requires
        max >= 1,
        h.len() <= max,
    ensures
        history_push(h, max, d) == (h.push(d)).skip(h.push(d).len() - history_push(h, max, d).len()),
        history_push(h, max, d).len() == if h.len() == max { max } else { h.len() + 1 },
{
    let r = history_push(h, max, d);
    if h.len() >= max && h.len() > 0 {
        assert(r =~= h.push(d).skip(1));
    } else {
        assert(r =~= h.push(d).skip(0));
    }
}

} // verus!
