//! The floor puzzle: a string of parentheses moves Santa one floor up for
//! each `(` and one floor down for each `)`; other characters do nothing.
//! One function computes the final floor, the other the first step at
//! which the basement (floor -1) is reached.

use vstd::prelude::*;

verus! {

/// How one character moves the floor.
pub open spec fn floor_of(c: char) -> int {
    if c == '(' {
        1int
    } else if c == ')' {
        -1int
    } else {
        0int
    }
}

/// The floor after following all the directions.
pub open spec fn floor_sum(s: Seq<char>) -> int
    decreases s.len(),
{
    if s.len() == 0 {
        0int
    } else {
        floor_sum(s.drop_last()) + floor_of(s.last())
    }
}

/// The floor can move at most one step per direction.
pub proof fn lemma_floor_sum_bounds(s: Seq<char>)
    ensures
        -s.len() <= floor_sum(s) <= s.len(),
    decreases s.len(),
{
    if s.len() > 0 {
        lemma_floor_sum_bounds(s.drop_last());
    }
}

/// How one character moves the floor.
pub fn santa_onechar(x: char) -> (r: isize)
    ensures
        r as int == floor_of(x),
{
    if x == '(' {
        1
    } else if x == ')' {
        -1
    } else {
        0
    }
}

/// The floor Santa ends on after following the directions.
pub fn santa(dirs: &str) -> (r: isize)
    requires
        dirs@.len() <= isize::MAX,
    ensures
        r as int == floor_sum(dirs@),
{
    let buf = crate::text::chars_of(dirs);
    let n = buf.len();
    let mut count: isize = 0;
    let mut i: usize = 0;
    proof {
        assert(buf@.take(0) =~= Seq::<char>::empty());
    }
    while i < n
        invariant
            i <= n,
            n == dirs@.len() <= isize::MAX,
            buf@ == dirs@,
            count as int == floor_sum(buf@.take(i as int)),
            -(i as int) <= count as int <= i as int,
        decreases n - i,
    {
        proof {
            assert(buf@.take(i + 1).drop_last() =~= buf@.take(i as int));
            assert(buf@.take(i + 1).last() == buf@[i as int]);
        }
        let c = buf[i];
        if c == '(' {
            count = count + 1;
        } else if c == ')' {
            count = count - 1;
        }
        i = i + 1;
    }
    proof {
        assert(buf@.take(i as int) =~= dirs@);
    }
    count
}

/// The first step (counting from one) at which the floor goes below zero,
/// if it ever does.
pub open spec fn first_basement(s: Seq<char>) -> Option<int>
    decreases s.len(),
{
    if s.len() == 0 {
        None
    } else {
        match first_basement(s.drop_last()) {
            Some(k) => Some(k),
            None => if floor_sum(s) < 0 {
                Some(s.len() as int)
            } else {
                None
            },
        }
    }
}

/// Once the basement is reached, later directions do not change the step.
pub proof fn lemma_first_basement_extends(s: Seq<char>, i: int, k: int)
    requires
        0 <= i <= s.len(),
        first_basement(s.take(i)) == Some(k),
    ensures
        first_basement(s) == Some(k),
    decreases s.len() - i,
{
    if i < s.len() {
        assert(s.take(i + 1).drop_last() =~= s.take(i));
        lemma_first_basement_extends(s, i + 1, k);
    } else {
        assert(s.take(i) =~= s);
    }
}

/// The step at which Santa first enters the basement, if he ever does.
pub fn underground_santa(dirs: &str) -> (r: Option<usize>)
    requires
        dirs@.len() <= isize::MAX,
    ensures
        match r {
            Some(u) => first_basement(dirs@) == Some(u as int),
            None => first_basement(dirs@) is None,
        },
{
    let buf = crate::text::chars_of(dirs);
    let n = buf.len();
    let mut sum: isize = 0;
    let mut i: usize = 0;
    proof {
        assert(buf@.take(0) =~= Seq::<char>::empty());
    }
    while i < n
        invariant
            i <= n,
            n == dirs@.len() <= isize::MAX,
            buf@ == dirs@,
            sum as int == floor_sum(buf@.take(i as int)),
            -(i as int) <= sum as int <= i as int,
            first_basement(buf@.take(i as int)) is None,
        decreases n - i,
    {
        proof {
            assert(buf@.take(i + 1).drop_last() =~= buf@.take(i as int));
            assert(buf@.take(i + 1).last() == buf@[i as int]);
        }
        let c = buf[i];
        if c == '(' {
            sum = sum + 1;
        } else if c == ')' {
            sum = sum - 1;
        }
        i = i + 1;
        if sum < 0 {
            proof {
                assert(first_basement(buf@.take(i as int)) == Some(i as int));
                lemma_first_basement_extends(buf@, i as int, i as int);
            }
            return Some(i);
        }
    }
    proof {
        assert(buf@.take(i as int) =~= dirs@);
    }
    None
}

} // verus!
