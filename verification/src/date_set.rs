//! A finite set of dates, kept in ascending order.

use crate::date::Date;
use vstd::prelude::*;

verus! {

/// Whether the day numbers of `s` strictly ascend, which leaves no room for a repeat.
pub open spec fn ascending(s: Seq<Date>) -> bool {
    forall|i: int, j: int| 0 <= i < j < s.len() ==> s[i]@ < s[j]@
}

/// The day numbers that occur in `s`.
pub open spec fn members(s: Seq<Date>) -> Set<int> {
    Set::new(|d: int| exists|i: int| 0 <= i < s.len() && #[trigger] s[i]@ == d)
}

/// Whether `d` is the greatest member of `s` that does not exceed `limit`.
pub open spec fn is_latest_on_or_before(s: Set<int>, limit: int, d: int) -> bool {
    &&& s.contains(d)
    &&& d <= limit
    &&& forall|x: int| s.contains(x) && x <= limit ==> x <= d
}

/// Whether `s` has a member that does not exceed `limit`.
pub open spec fn has_on_or_before(s: Set<int>, limit: int) -> bool {
    exists|x: int| s.contains(x) && x <= limit
}

/// The greatest member of `s` that does not exceed `limit`; meaningful only
/// where `s` is bounded below `limit` by some member.
pub open spec fn latest_on_or_before(s: Set<int>, limit: int) -> int {
    choose|d: int| is_latest_on_or_before(s, limit, d)
}

/// There is at most one latest member on or before a limit.
pub proof fn lemma_latest_unique(s: Set<int>, limit: int, d: int)
    requires
        is_latest_on_or_before(s, limit, d),
    ensures
        has_on_or_before(s, limit),
        latest_on_or_before(s, limit) == d,
{
    let c = latest_on_or_before(s, limit);
    assert(is_latest_on_or_before(s, limit, c));
}

/// A set with a member on or before a limit has a latest such member.
pub proof fn lemma_latest_exists(s: Set<int>, limit: int)
    requires
        has_on_or_before(s, limit),
    ensures
        is_latest_on_or_before(s, limit, latest_on_or_before(s, limit)),
{
    let x = choose|x: int| s.contains(x) && x <= limit;
    lemma_latest_from(s, limit, x);
}

/// From a member on or before a limit, a latest such member is reached by
/// going on to a later one as long as there is one.
proof fn lemma_latest_from(s: Set<int>, limit: int, x: int)
    requires
        s.contains(x),
        x <= limit,
    ensures
        exists|d: int| is_latest_on_or_before(s, limit, d),
    decreases limit - x,
{
    if forall|y: int| s.contains(y) && y <= limit ==> y <= x {
        assert(is_latest_on_or_before(s, limit, x));
    } else {
        let y = choose|y: int| s.contains(y) && y <= limit && !(y <= x);
        lemma_latest_from(s, limit, y);
    }
}

/// A set of dates. Its view is the set of the day numbers of its members.
pub struct DateSet {
    dates: Vec<Date>,
}

impl View for DateSet {
    type V = Set<int>;

    closed spec fn view(&self) -> Set<int> {
        members(self.dates@)
    }
}

impl DateSet {
    #[verifier::type_invariant]
    spec fn well_ordered(self) -> bool {
        ascending(self.dates@)
    }

    /// The empty set.
    pub fn new() -> (r: DateSet)
        ensures
            r@ == Set::<int>::empty(),
    {
        let r = DateSet { dates: Vec::new() };
        assert(r@ =~= Set::<int>::empty());
        r
    }

    /// How many stored dates do not come after `date`. The dates before that
    /// position are on or before `date`, the others after it.
    fn rank(&self, date: Date) -> (n: usize)
        ensures
            n <= self.dates@.len(),
            forall|i: int| 0 <= i < n ==> self.dates@[i]@ <= date@,
            forall|i: int| n <= i < self.dates@.len() ==> self.dates@[i]@ > date@,
    {
        proof {
            use_type_invariant(self);
        }
        let mut lo: usize = 0;
        let mut hi: usize = self.dates.len();
        while lo < hi
            invariant
                lo <= hi <= self.dates@.len(),
                ascending(self.dates@),
                forall|i: int| 0 <= i < lo ==> self.dates@[i]@ <= date@,
                forall|i: int| hi <= i < self.dates@.len() ==> self.dates@[i]@ > date@,
            decreases hi - lo,
        {
            let mid = lo + (hi - lo) / 2;
            if self.dates[mid].days() <= date.days() {
                lo = mid + 1;
            } else {
                hi = mid;
            }
        }
        lo
    }

    /// Whether `date` is a member.
    pub fn contains(&self, date: Date) -> (r: bool)
        ensures
            r == self@.contains(date@),
    {
        proof {
            use_type_invariant(self);
        }
        let n = self.rank(date);
        let r = n > 0 && self.dates[n - 1].days() == date.days();
        proof {
            if self@.contains(date@) {
                let i = choose|i: int| 0 <= i < self.dates@.len() && #[trigger] self.dates@[i]@ == date@;
                if i < n - 1 {
                    assert(self.dates@[i]@ < self.dates@[n - 1]@);
                }
            }
        }
        r
    }

    /// The latest member that is not after `date`, if there is one.
    pub fn latest_on_or_before(&self, date: Date) -> (r: Option<Date>)
        ensures
            match r {
                Some(d) => is_latest_on_or_before(self@, date@, d@),
                None => !has_on_or_before(self@, date@),
            },
    {
        proof {
            use_type_invariant(self);
        }
        let n = self.rank(date);
        if n > 0 {
            Some(self.dates[n - 1])
        } else {
            None
        }
    }

    /// Adds `date` to the set. Returns whether it was absent before.
    pub fn insert(&mut self, date: Date) -> (added: bool)
        ensures
            final(self)@ == old(self)@.insert(date@),
            added == !old(self)@.contains(date@),
    {
        proof {
            use_type_invariant(&*self);
        }
        let n = self.rank(date);
        if n > 0 && self.dates[n - 1].days() == date.days() {
            assert(self@ =~= self@.insert(date@));
            false
        } else {
            let ghost before = self.dates@;
            proof {
                let after = before.insert(n as int, date);
                assert forall|i: int, j: int| 0 <= i < j < after.len() implies after[i]@
                    < after[j]@ by {
                    if i < n && j == n && n > 0 {
                        assert(before[i]@ <= before[n - 1]@);
                    }
                }
                assert forall|d: int| members(after).contains(d) <==> members(before).insert(
                    date@,
                ).contains(d) by {
                    if members(after).contains(d) {
                        let i = choose|i: int| 0 <= i < after.len() && #[trigger] after[i]@ == d;
                        if i < n {
                            assert(before[i]@ == d);
                        } else if i > n {
                            assert(before[i - 1]@ == d);
                        }
                    }
                    if members(before).contains(d) {
                        let i = choose|i: int| 0 <= i < before.len() && #[trigger] before[i]@ == d;
                        if i < n {
                            assert(after[i]@ == d);
                        } else {
                            assert(after[i + 1]@ == d);
                        }
                    }
                    if d == date@ {
                        assert(after[n as int]@ == d);
                    }
                }
                assert(members(after) =~= members(before).insert(date@));
            }
            let mut dates: Vec<Date> = Vec::new();
            core::mem::swap(&mut self.dates, &mut dates);
            dates.insert(n, date);
            self.dates = dates;
            true
        }
    }

    /// Takes `date` out of the set. Returns whether it was a member.
    pub fn remove(&mut self, date: Date) -> (removed: bool)
        ensures
            final(self)@ == old(self)@.remove(date@),
            removed == old(self)@.contains(date@),
    {
        proof {
            use_type_invariant(&*self);
        }
        let n = self.rank(date);
        if n > 0 && self.dates[n - 1].days() == date.days() {
            let ghost before = self.dates@;
            proof {
                let after = before.remove(n - 1);
                assert forall|i: int, j: int| 0 <= i < j < after.len() implies after[i]@
                    < after[j]@ by {
                    let ii = if i < n - 1 { i } else { i + 1 };
                    let jj = if j < n - 1 { j } else { j + 1 };
                    assert(before[ii]@ < before[jj]@);
                }
                assert forall|d: int| members(after).contains(d) <==> members(before).remove(
                    date@,
                ).contains(d) by {
                    if members(after).contains(d) {
                        let i = choose|i: int| 0 <= i < after.len() && #[trigger] after[i]@ == d;
                        let ii = if i < n - 1 { i } else { i + 1 };
                        assert(before[ii]@ == d);
                        if ii < n - 1 {
                            assert(before[ii]@ < before[n - 1]@);
                        } else {
                            assert(before[n - 1]@ < before[ii]@);
                        }
                    }
                    if members(before).contains(d) && d != date@ {
                        let i = choose|i: int| 0 <= i < before.len() && #[trigger] before[i]@ == d;
                        if i < n - 1 {
                            assert(after[i]@ == d);
                        } else {
                            assert(after[i - 1]@ == d);
                        }
                    }
                }
                assert(members(after) =~= members(before).remove(date@));
            }
            let mut dates: Vec<Date> = Vec::new();
            core::mem::swap(&mut self.dates, &mut dates);
            dates.remove(n - 1);
            self.dates = dates;
            true
        } else {
            assert(self@ =~= self@.remove(date@));
            false
        }
    }

    /// The number of members.
    pub fn len(&self) -> (r: usize)
        ensures
            r == self@.len(),
            self@.finite(),
    {
        proof {
            use_type_invariant(self);
            lemma_members_len(self.dates@);
        }
        self.dates.len()
    }

    /// The members in ascending order.
    pub fn to_vec(&self) -> (r: Vec<Date>)
        ensures
            ascending(r@),
            members(r@) == self@,
    {
        proof {
            use_type_invariant(self);
        }
        let r = self.dates.clone();
        assert(r@ =~= self.dates@);
        r
    }
}

impl Clone for DateSet {
    fn clone(&self) -> (r: DateSet)
        ensures
            r@ == self@,
    {
        proof {
            use_type_invariant(self);
        }
        let dates = self.dates.clone();
        assert(dates@ =~= self.dates@);
        DateSet { dates }
    }
}

/// A strictly ascending sequence has as many members as it has items.
pub proof fn lemma_members_len(s: Seq<Date>)
    requires
        ascending(s),
    ensures
        members(s).finite(),
        members(s).len() == s.len(),
    decreases s.len(),
{
    if s.len() == 0 {
        assert(members(s) =~= Set::<int>::empty());
    } else {
        let front = s.drop_last();
        let last = s.last();
        lemma_members_len(front);
        assert forall|d: int| members(s).contains(d) <==> members(front).insert(last@).contains(
            d,
        ) by {
            if members(s).contains(d) {
                let i = choose|i: int| 0 <= i < s.len() && #[trigger] s[i]@ == d;
                if i < s.len() - 1 {
                    assert(front[i]@ == d);
                }
            }
            if members(front).contains(d) {
                let i = choose|i: int| 0 <= i < front.len() && #[trigger] front[i]@ == d;
                assert(s[i]@ == d);
            }
            if d == last@ {
                assert(s[s.len() - 1]@ == d);
            }
        }
        assert(members(s) =~= members(front).insert(last@));
        if members(front).contains(last@) {
            let i = choose|i: int| 0 <= i < front.len() && #[trigger] front[i]@ == last@;
            assert(s[i]@ < s[s.len() - 1]@);
        }
    }
}

/// Two ascending sequences of dates with the same members are the same
/// sequence: the order in which a set hands out its dates is settled by the set.
pub proof fn lemma_ascending_dates_unique(s: Seq<Date>, t: Seq<Date>)
    requires
        ascending(s),
        ascending(t),
        members(s) == members(t),
    ensures
        s == t,
    decreases s.len(),
{
    if s.len() == 0 {
        if t.len() > 0 {
            assert(members(t).contains(t[0]@));
        }
        assert(s =~= t);
    } else {
        let top = s.last();
        assert(s[s.len() - 1]@ == top@);
        assert(members(s).contains(top@));
        let k = choose|k: int| 0 <= k < t.len() && #[trigger] t[k]@ == top@;
        assert(members(t).contains(t[t.len() - 1]@));
        let m = choose|m: int| 0 <= m < s.len() && #[trigger] s[m]@ == t[t.len() - 1]@;
        if k < t.len() - 1 {
            assert(t[k]@ < t[t.len() - 1]@);
            if m < s.len() - 1 {
                assert(s[m]@ < s[s.len() - 1]@);
            }
        }
        Date::lemma_same_day_same_date(t.last(), top);
        let s0 = s.drop_last();
        let t0 = t.drop_last();
        assert forall|d: int| members(s0).contains(d) <==> members(t0).contains(d) by {
            if members(s0).contains(d) {
                let i = choose|i: int| 0 <= i < s0.len() && #[trigger] s0[i]@ == d;
                assert(s[i]@ < s[s.len() - 1]@);
                assert(members(s).contains(d));
                let j = choose|j: int| 0 <= j < t.len() && #[trigger] t[j]@ == d;
                assert(t0[j]@ == d);
            }
            if members(t0).contains(d) {
                let i = choose|i: int| 0 <= i < t0.len() && #[trigger] t0[i]@ == d;
                assert(t[i]@ < t[t.len() - 1]@);
                assert(members(t).contains(d));
                let j = choose|j: int| 0 <= j < s.len() && #[trigger] s[j]@ == d;
                assert(s0[j]@ == d);
            }
        }
        assert(members(s0) =~= members(t0));
        lemma_ascending_dates_unique(s0, t0);
        assert(s =~= s0.push(top));
        assert(t =~= t0.push(top));
    }
}

} // verus!
