//! General-purpose helpers: chainable appending, byte-to-text decoding,
//! and prefixed diagnostic lines.

use vstd::prelude::*;

use crate::text::{chars_of, string_of, sub_chars};

verus! {

/// Chainable appending: `append` takes its receiver by value and hands it
/// back extended, where `push`-style methods would force a mutation.
pub trait Append: Sized {
    /// The characters the value holds.
    spec fn chars(&self) -> Seq<char>;

    /// The value with `s` appended.
    fn append(self, s: &str) -> (r: Self)
        ensures
            r.chars() == self.chars() + s@,
    ;
}

impl Append for String {
    open spec fn chars(&self) -> Seq<char> {
        self@
    }

    /// Concatenates `s` to the end of `self`.
    fn append(self, s: &str) -> (r: String) {
        let mut v = chars_of(self.as_str());
        let mut w = chars_of(s);
        v.append(&mut w);
        let r = string_of(&v);
        assert(r@ =~= self@ + s@);
        r
    }
}

/// Decodes bytes as the single-byte encoding whose code points are the
/// byte values themselves: each byte becomes the character with its value.
pub fn from_latin1(s: &[u8]) -> (r: String)
    ensures
        r@.len() == s@.len(),
        forall|i: int| 0 <= i < s@.len() ==> r@[i] as u32 == s@[i] as u32,
{
    let mut out: Vec<char> = Vec::new();
    let mut i: usize = 0;
    let n = s.len();
    while i < n
        invariant
            i <= n,
            n == s@.len(),
            out@.len() == i,
            forall|q: int| 0 <= q < i ==> out@[q] as u32 == s@[q] as u32,
        decreases n - i,
    {
        let b = s[i];
        out.push(b as char);
        i = i + 1;
    }
    string_of(&out)
}

/// Each line with the prefix put in front of it, in order: the shape in
/// which captured tool output is reported.
pub open spec fn prefixed_of(prefix: Seq<char>, lines: Seq<Seq<char>>) -> Seq<Seq<char>> {
    lines.map_values(|l: Seq<char>| prefix + l)
}

/// Puts the prefix in front of every line.
pub fn info_lines(prefix: &str, lines: &Vec<String>) -> (r: Vec<String>)
    ensures
        r.deep_view() == prefixed_of(prefix@, lines.deep_view()),
{
    let ghost all = lines.deep_view();
    let ghost goal = prefixed_of(prefix@, all);
    let pc = chars_of(prefix);
    let mut r: Vec<String> = Vec::new();
    let mut j: usize = 0;
    proof {
        assert(r.deep_view() =~= goal.take(0));
    }
    while j < lines.len()
        invariant
            j <= lines@.len(),
            all == lines.deep_view(),
            all.len() == lines@.len(),
            pc@ == prefix@,
            goal == prefixed_of(prefix@, all),
            goal.len() == all.len(),
            r.deep_view() == goal.take(j as int),
        decreases lines@.len() - j,
    {
        let mut v = sub_chars(&pc, 0, pc.len());
        let mut lc = chars_of(lines[j].as_str());
        assert(v@ =~= prefix@ && lc@ == all[j as int]);
        v.append(&mut lc);
        let ghost old_r = r.deep_view();
        r.push(string_of(&v));
        proof {
            assert(r.deep_view() =~~= old_r.push(prefix@ + all[j as int]));
            assert(old_r.push(goal[j as int]) =~= goal.take(j + 1));
        }
        j = j + 1;
    }
    proof {
        assert(goal.take(j as int) =~= goal);
    }
    r
}

} // verus!
