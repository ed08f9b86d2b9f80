//! Lists that keep their newest entries.
use std::collections::VecDeque;
use vstd::prelude::*;

verus! {

/// `s` with `x` put in front, cut to the `cap` newest entries.
pub open spec fn remembered<T>(s: Seq<T>, x: T, cap: nat) -> Seq<T> {
    let longer = seq![x] + s;
    if longer.len() > cap {
        longer.take(cap as int)
    } else {
        longer
    }
}

/// The first `count` entries of `s`, or all of them where there are fewer.
pub open spec fn newest<T>(s: Seq<T>, count: nat) -> Seq<T> {
    if s.len() > count {
        s.take(count as int)
    } else {
        s
    }
}

/// Puts an entry in front and lets the oldest go beyond `cap` entries.
pub(crate) fn remember<T>(list: &mut VecDeque<T>, x: T, cap: usize)
    ensures
        final(list)@ == remembered(old(list)@, x, cap as nat),
{
    list.push_front(x);
    let ghost longer = list@;
    while list.len() > cap
        invariant
            list@.len() <= longer.len(),
            list@ == longer.take(list@.len() as int),
            longer.len() > cap ==> list@.len() >= cap,
            longer.len() <= cap ==> list@.len() == longer.len(),
        decreases list@.len(),
    {
        list.pop_back();
        assert(list@ =~= longer.take(list@.len() as int));
    }
}

/// The newest entry stands first, and behind it stand the older ones for which
/// there is room.
pub proof fn law_newest_first<T>(s: Seq<T>, x: T, cap: nat)
    requires
        cap >= 1,
    ensures
        remembered(s, x, cap) == seq![x] + newest(s, (cap - 1) as nat),
        remembered(s, x, cap).len() <= cap,
{
    assert(remembered(s, x, cap) =~= seq![x] + newest(s, (cap - 1) as nat));
}

/// What is remembered is the new entry and behind it the old ones in their
/// order, up to the cap.
pub proof fn law_remembered<T>(s: Seq<T>, x: T, cap: nat)
    requires
        cap >= 1,
    ensures
        remembered(s, x, cap).len() == if s.len() + 1 <= cap {
            s.len() + 1
        } else {
            cap
        },
        remembered(s, x, cap)[0] == x,
        forall|i: int|
            1 <= i < remembered(s, x, cap).len() ==> #[trigger] remembered(s, x, cap)[i] == s[i - 1],
{
}

/// The newest entries are those in front, in their order, as many as there
/// are up to the count.
pub proof fn law_newest<T>(s: Seq<T>, count: nat)
    ensures
        newest(s, count).len() == if s.len() <= count {
            s.len()
        } else {
            count
        },
        forall|i: int| 0 <= i < newest(s, count).len() ==> #[trigger] newest(s, count)[i] == s[i],
{
}

} // verus!
