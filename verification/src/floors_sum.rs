//! The floor puzzle solved by counting: the final floor is the number of
//! `(` minus the number of `)`, and the basement step is found the same
//! way as in [`crate::floors`]. These functions state their results over
//! occurrence counts and are proved to agree with the step-by-step sum.

use vstd::prelude::*;

use crate::floors::{first_basement, floor_of, floor_sum};

verus! {

/// How often `c` occurs in `s`.
pub open spec fn count_of(s: Seq<char>, c: char) -> int
    decreases s.len(),
{
    if s.len() == 0 {
        0int
    } else {
        count_of(s.drop_last(), c) + (if s.last() == c {
            1int
        } else {
            0int
        })
    }
}

/// Law: the floor a direction string ends on is the number of ups minus
/// the number of downs.
pub proof fn lemma_floor_sum_is_count_difference(s: Seq<char>)
    ensures
        floor_sum(s) == count_of(s, '(') - count_of(s, ')'),
    decreases s.len(),
{
    if s.len() > 0 {
        lemma_floor_sum_is_count_difference(s.drop_last());
    }
}

proof fn lemma_count_bounds(s: Seq<char>, c: char)
    ensures
        0 <= count_of(s, c) <= s.len(),
    decreases s.len(),
{
    if s.len() > 0 {
        lemma_count_bounds(s.drop_last(), c);
    }
}

/// How one character moves the floor.
pub fn santa_char(char: char) -> (r: isize)
    ensures
        r as int == floor_of(char),
{
    match char {
        '(' => 1,
        ')' => -1,
        _ => 0,
    }
}

/// The floor Santa ends on: the per-character moves summed up.
pub fn santa(dirs: &str) -> (r: isize)
    requires
        dirs@.len() <= isize::MAX,
    ensures
        r as int == floor_sum(dirs@),
{
    let buf = crate::text::chars_of(dirs);
    let n = buf.len();
    let mut sum: isize = 0;
    let mut i: usize = 0;
    proof {
        assert(buf@.take(0) =~= Seq::<char>::empty());
    }
    while i < n
        invariant
            i <= n,
            n == dirs@.len() <= isize::MAX,
            buf@ == dirs@,
            sum as int == floor_sum(buf@.take(i as int)),
            -(i as int) <= sum as int <= i as int,
        decreases n - i,
    {
        proof {
            assert(buf@.take(i + 1).drop_last() =~= buf@.take(i as int));
            assert(buf@.take(i + 1).last() == buf@[i as int]);
        }
        let step = santa_char(buf[i]);
        sum = sum + step;
        i = i + 1;
    }
    proof {
        assert(buf@.take(i as int) =~= dirs@);
    }
    sum
}

/// The final floor, computed from the occurrence counts alone. Inputs
/// whose count difference leaves the machine's integer range are excluded
/// up front; on them the step-by-step functions cannot run either.
pub fn santa_spec(dirs: &str) -> (r: isize)
    requires
        isize::MIN <= count_of(dirs@, '(') - count_of(dirs@, ')') <= isize::MAX,
    ensures
        r as int == count_of(dirs@, '(') - count_of(dirs@, ')'),
        r as int == floor_sum(dirs@),
{
    let buf = crate::text::chars_of(dirs);
    let n = buf.len();
    let mut ups: usize = 0;
    let mut downs: usize = 0;
    let mut i: usize = 0;
    proof {
        assert(buf@.take(0) =~= Seq::<char>::empty());
    }
    while i < n
        invariant
            i <= n,
            n == dirs@.len(),
            buf@ == dirs@,
            ups as int == count_of(buf@.take(i as int), '('),
            downs as int == count_of(buf@.take(i as int), ')'),
            ups <= i && downs <= i,
        decreases n - i,
    {
        proof {
            assert(buf@.take(i + 1).drop_last() =~= buf@.take(i as int));
            assert(buf@.take(i + 1).last() == buf@[i as int]);
        }
        let c = buf[i];
        if c == '(' {
            ups = ups + 1;
        } else if c == ')' {
            downs = downs + 1;
        }
        i = i + 1;
    }
    proof {
        assert(buf@.take(i as int) =~= dirs@);
        lemma_floor_sum_is_count_difference(dirs@);
    }
    assert(ups as int == count_of(dirs@, '(') && downs as int == count_of(dirs@, ')'));
    if ups >= downs {
        let d = ups - downs;
        assert(d as int <= isize::MAX);
        d as isize
    } else {
        let d = downs - ups;
        assert(d as int - 1 <= isize::MAX);
        let dm1 = d - 1;
        -(dm1 as isize) - 1
    }
}

/// The step at which Santa first enters the basement, if he ever does.
pub fn underground_santa(dirs: &str) -> (r: Option<usize>)
    requires
        dirs@.len() <= isize::MAX,
    ensures
        match r {
            Some(u) => first_basement(dirs@) == Some(u as int),
            None => first_basement(dirs@) is None,
        },
{
    crate::floors::underground_santa(dirs)
}

/// The basement step, found by checking the floor of every prefix in
/// turn: the first prefix whose floor is negative ends at the sought step.
pub fn underground_santa_spec(dirs: &str) -> (r: Option<usize>)
    requires
        dirs@.len() <= isize::MAX,
    ensures
        match r {
            Some(u) => first_basement(dirs@) == Some(u as int),
            None => first_basement(dirs@) is None,
        },
{
    let buf = crate::text::chars_of(dirs);
    let n = buf.len();
    let mut sum: isize = 0;
    let mut i: usize = 0;
    proof {
        assert(buf@.take(0) =~= Seq::<char>::empty());
    }
    while i < n
        invariant
            i <= n,
            n == dirs@.len() <= isize::MAX,
            buf@ == dirs@,
            sum as int == floor_sum(buf@.take(i as int)),
            -(i as int) <= sum as int <= i as int,
            first_basement(buf@.take(i as int)) is None,
        decreases n - i,
    {
        proof {
            assert(buf@.take(i + 1).drop_last() =~= buf@.take(i as int));
            assert(buf@.take(i + 1).last() == buf@[i as int]);
        }
        let step = santa_char(buf[i]);
        sum = sum + step;
        i = i + 1;
        if sum < 0 {
            proof {
                assert(first_basement(buf@.take(i as int)) == Some(i as int));
                crate::floors::lemma_first_basement_extends(buf@, i as int, i as int);
            }
            return Some(i);
        }
    }
    proof {
        assert(buf@.take(i as int) =~= dirs@);
    }
    None
}

} // verus!
