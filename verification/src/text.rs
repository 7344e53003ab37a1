//! Verified text primitives: substring search, prefix and suffix tests,
//! splitting, trimming, and decimal conversion.
//!
//! The classifiers and parsers in this crate are line-oriented scanners
//! over tool output; everything they need from strings is built here, on
//! `Vec<char>` buffers, with exact contracts over `Seq<char>` views.

use vstd::prelude::*;

verus! {

/// `sub` occurs in `s` at position `i`.
pub open spec fn matches_at(s: Seq<char>, i: int, sub: Seq<char>) -> bool {
    0 <= i && i + sub.len() <= s.len() && s.subrange(i, i + sub.len() as int) == sub
}

/// `sub` occurs somewhere in `s`.
pub open spec fn has_sub(s: Seq<char>, sub: Seq<char>) -> bool {
    exists|i: int| matches_at(s, i, sub)
}

/// `p` is a prefix of `s`.
pub open spec fn has_prefix(s: Seq<char>, p: Seq<char>) -> bool {
    p.len() <= s.len() && s.subrange(0, p.len() as int) == p
}

/// `p` is a suffix of `s`.
pub open spec fn has_suffix(s: Seq<char>, p: Seq<char>) -> bool {
    p.len() <= s.len() && s.subrange(s.len() - p.len(), s.len() as int) == p
}

/// The characters of `s`, as an indexable buffer.
pub fn chars_of(s: &str) -> (r: Vec<char>)
    ensures
        r@ == s@,
{
    let n = s.unicode_len();
    let mut r: Vec<char> = Vec::new();
    let mut i: usize = 0;
    while i < n
        invariant
            i <= n,
            n == s@.len(),
            r@ == s@.subrange(0, i as int),
        decreases n - i,
    {
        r.push(s.get_char(i));
        i = i + 1;
        assert(r@ =~= s@.subrange(0, i as int));
    }
    assert(r@ =~= s@);
    r
}

/// Relies on String::push: appends one character to the string.
#[verifier::external_body]
fn push_char(s: &mut String, c: char)
    ensures
        final(s)@ == old(s)@.push(c),
{
    s.push(c)
}

/// The string holding exactly the characters of `v`.
pub fn string_of(v: &Vec<char>) -> (r: String)
    ensures
        r@ == v@,
{
    let mut r = String::new();
    let mut i: usize = 0;
    while i < v.len()
        invariant
            i <= v@.len(),
            r@ == v@.subrange(0, i as int),
        decreases v@.len() - i,
    {
        push_char(&mut r, v[i]);
        i = i + 1;
        assert(r@ =~= v@.subrange(0, i as int));
    }
    assert(r@ =~= v@);
    r
}

/// The characters of `v` from `from` (inclusive) to `to` (exclusive).
pub fn sub_chars(v: &Vec<char>, from: usize, to: usize) -> (r: Vec<char>)
    requires
        from <= to <= v@.len(),
    ensures
        r@ == v@.subrange(from as int, to as int),
{
    let mut r: Vec<char> = Vec::new();
    let mut i: usize = from;
    while i < to
        invariant
            from <= i <= to <= v@.len(),
            r@ == v@.subrange(from as int, i as int),
        decreases to - i,
    {
        r.push(v[i]);
        i = i + 1;
        assert(r@ =~= v@.subrange(from as int, i as int));
    }
    r
}

/// Whether `needle` occurs in `hay` at exactly position `i`.
pub fn match_at(hay: &Vec<char>, i: usize, needle: &Vec<char>) -> (r: bool)
    ensures
        r == matches_at(hay@, i as int, needle@),
{
    if i > hay.len() || hay.len() - i < needle.len() {
        return false;
    }
    let hn = hay.len();
    let mut j: usize = 0;
    while j < needle.len()
        invariant
            j <= needle@.len(),
            hn == hay@.len(),
            i + needle@.len() <= hn,
            forall|k: int| 0 <= k < j ==> hay@[i + k] == needle@[k],
        decreases needle@.len() - j,
    {
        if hay[i + j] != needle[j] {
            assert(!matches_at(hay@, i as int, needle@)) by {
                if matches_at(hay@, i as int, needle@) {
                    assert(hay@.subrange(i as int, i + needle@.len() as int)[j as int]
                        == needle@[j as int]);
                }
            }
            return false;
        }
        j = j + 1;
    }
    assert(hay@.subrange(i as int, i + needle@.len() as int) =~= needle@);
    true
}

/// The first position at or after `from` where `needle` occurs in `hay`.
pub fn find_from(hay: &Vec<char>, from: usize, needle: &Vec<char>) -> (r: Option<usize>)
    ensures
        match r {
            Some(i) => from <= i && matches_at(hay@, i as int, needle@) && forall|k: int|
                from <= k < i ==> !matches_at(hay@, k, needle@),
            None => forall|k: int| from <= k ==> !matches_at(hay@, k, needle@),
        },
{
    if from > hay.len() {
        assert(forall|k: int| k > hay@.len() ==> !matches_at(hay@, k, needle@));
        return None;
    }
    let mut i: usize = from;
    while i < hay.len()
        invariant
            from <= i <= hay@.len(),
            forall|k: int| from <= k < i ==> !matches_at(hay@, k, needle@),
        decreases hay@.len() - i,
    {
        if match_at(hay, i, needle) {
            return Some(i);
        }
        i = i + 1;
    }
    if match_at(hay, i, needle) {
        return Some(i);
    }
    assert(forall|k: int| k > hay@.len() ==> !matches_at(hay@, k, needle@));
    None
}

/// Whether `needle` occurs anywhere in `hay`.
pub fn contains_sub(hay: &Vec<char>, needle: &Vec<char>) -> (r: bool)
    ensures
        r == has_sub(hay@, needle@),
{
    match find_from(hay, 0, needle) {
        Some(_) => true,
        None => false,
    }
}

/// Whether `p` is a prefix of `hay`.
pub fn starts_with(hay: &Vec<char>, p: &Vec<char>) -> (r: bool)
    ensures
        r == has_prefix(hay@, p@),
{
    match_at(hay, 0, p)
}

/// Whether `p` is a suffix of `hay`.
pub fn ends_with(hay: &Vec<char>, p: &Vec<char>) -> (r: bool)
    ensures
        r == has_suffix(hay@, p@),
{
    if p.len() > hay.len() {
        return false;
    }
    match_at(hay, hay.len() - p.len(), p)
}

/// Whether the two buffers hold the same characters.
pub fn eq_chars(a: &Vec<char>, b: &Vec<char>) -> (r: bool)
    ensures
        r == (a@ == b@),
{
    if a.len() != b.len() {
        return false;
    }
    let r = match_at(a, 0, b);
    assert(a@.subrange(0, a@.len() as int) =~= a@);
    r
}

/// The position of the first `sep` in `s`, or `s.len()` if there is none.
pub open spec fn first_sep(s: Seq<char>, sep: char) -> int
    decreases s.len(),
{
    if s.len() == 0 {
        0
    } else if s[0] == sep {
        0
    } else {
        1 + first_sep(s.drop_first(), sep)
    }
}

pub proof fn lemma_first_sep(s: Seq<char>, sep: char)
    ensures
        0 <= first_sep(s, sep) <= s.len(),
        forall|k: int| 0 <= k < first_sep(s, sep) ==> s[k] != sep,
        first_sep(s, sep) < s.len() ==> s[first_sep(s, sep)] == sep,
    decreases s.len(),
{
    if s.len() > 0 && s[0] != sep {
        lemma_first_sep(s.drop_first(), sep);
        assert forall|k: int| 0 <= k < first_sep(s, sep) implies s[k] != sep by {
            if k >= 1 {
                assert(s.drop_first()[k - 1] == s[k]);
            }
        }
    }
}

/// The pieces of `s` between occurrences of `sep`: always at least one
/// piece, and one more piece than there are separators.
pub open spec fn split_by(s: Seq<char>, sep: char) -> Seq<Seq<char>>
    decreases s.len(),
    via split_by_decreases
{
    let i = first_sep(s, sep);
    if i >= s.len() {
        seq![s]
    } else {
        seq![s.subrange(0, i)] + split_by(s.subrange(i + 1, s.len() as int), sep)
    }
}

#[via_fn]
proof fn split_by_decreases(s: Seq<char>, sep: char) {
    lemma_first_sep(s, sep);
}

/// The first piece of a split never vanishes.
pub proof fn lemma_split_nonempty(s: Seq<char>, sep: char)
    ensures
        split_by(s, sep).len() >= 1,
{
    lemma_first_sep(s, sep);
}

/// Prepends `c` to the first piece of `ps`.
pub open spec fn attach(c: Seq<char>, ps: Seq<Seq<char>>) -> Seq<Seq<char>> {
    seq![c + ps[0]] + ps.drop_first()
}

proof fn lemma_attach_empty(ps: Seq<Seq<char>>)
    requires
        ps.len() >= 1,
    ensures
        attach(Seq::<char>::empty(), ps) == ps,
{
    assert(Seq::<char>::empty() + ps[0] =~= ps[0]);
    assert(attach(Seq::<char>::empty(), ps) =~= ps);
}

proof fn lemma_attach_push(c: Seq<char>, x: char, ps: Seq<Seq<char>>)
    requires
        ps.len() >= 1,
    ensures
        attach(c, attach(seq![x], ps)) == attach(c.push(x), ps),
{
    assert(c + (seq![x] + ps[0]) =~= c.push(x) + ps[0]);
    assert((seq![seq![x] + ps[0]] + ps.drop_first()).drop_first() =~= ps.drop_first());
    assert(attach(c, attach(seq![x], ps)) =~= attach(c.push(x), ps));
}

/// Splitting a buffer whose head is not the separator grows the first piece.
proof fn lemma_split_step(s: Seq<char>, sep: char)
    requires
        s.len() > 0,
        s[0] != sep,
    ensures
        split_by(s, sep) == attach(seq![s[0]], split_by(s.drop_first(), sep)),
{
    let t = s.drop_first();
    lemma_first_sep(t, sep);
    let j = first_sep(t, sep);
    assert(first_sep(s, sep) == 1 + j);
    if j >= t.len() {
        assert(seq![s[0]] + t =~= s);
        assert(split_by(s, sep) =~= attach(seq![s[0]], split_by(t, sep)));
    } else {
        assert(s.subrange(0, 1 + j) =~= seq![s[0]] + t.subrange(0, j));
        assert(s.subrange(1 + j + 1, s.len() as int) =~= t.subrange(j + 1, t.len() as int));
        assert(split_by(s, sep) =~= attach(seq![s[0]], split_by(t, sep)));
    }
}

/// Splitting a buffer whose head is the separator emits an empty piece.
proof fn lemma_split_sep(s: Seq<char>, sep: char)
    requires
        s.len() > 0,
        s[0] == sep,
    ensures
        split_by(s, sep) == seq![Seq::<char>::empty()] + split_by(s.drop_first(), sep),
{
    assert(s.subrange(0, 0) =~= Seq::<char>::empty());
    assert(s.subrange(1, s.len() as int) =~= s.drop_first());
}

/// Splits `s` at every occurrence of `sep`.
pub fn split_chars(s: &Vec<char>, sep: char) -> (r: Vec<Vec<char>>)
    ensures
        r.deep_view() == split_by(s@, sep),
        r@.len() >= 1,
{
    let mut r: Vec<Vec<char>> = Vec::new();
    let mut cur: Vec<char> = Vec::new();
    let mut i: usize = 0;
    proof {
        let rest0 = s@.subrange(0, s@.len() as int);
        assert(rest0 =~= s@);
        lemma_split_nonempty(s@, sep);
        lemma_attach_empty(split_by(s@, sep));
        assert(r.deep_view() =~= Seq::<Seq<char>>::empty());
        assert(r.deep_view() + attach(cur@, split_by(rest0, sep)) =~= attach(
            cur@,
            split_by(rest0, sep),
        ));
    }
    while i < s.len()
        invariant
            i <= s@.len(),
            split_by(s@, sep) == r.deep_view() + attach(
                cur@,
                split_by(s@.subrange(i as int, s@.len() as int), sep),
            ),
        decreases s@.len() - i,
    {
        let ghost rest = s@.subrange(i as int, s@.len() as int);
        let ghost rest1 = s@.subrange(i + 1, s@.len() as int);
        proof {
            assert(rest.drop_first() =~= rest1);
            lemma_split_nonempty(rest1, sep);
        }
        let c = s[i];
        assert(rest.len() > 0 && rest[0] == c);
        if c == sep {
            let ghost old_r = r.deep_view();
            let ghost old_cur = cur@;
            let done = cur;
            cur = Vec::new();
            r.push(done);
            proof {
                lemma_split_sep(rest, sep);
                lemma_attach_empty(split_by(rest1, sep));
                assert(r.deep_view() =~~= old_r.push(old_cur));
                assert(old_cur + (seq![Seq::<char>::empty()] + split_by(rest1, sep))[0]
                    =~= old_cur);
                assert((seq![Seq::<char>::empty()] + split_by(rest1, sep)).drop_first()
                    =~= split_by(rest1, sep));
                assert(attach(old_cur, split_by(rest, sep)) =~= seq![old_cur] + split_by(
                    rest1,
                    sep,
                ));
                assert(old_r.push(old_cur) + attach(cur@, split_by(rest1, sep)) =~= old_r + attach(
                    old_cur,
                    split_by(rest, sep),
                ));
            }
        } else {
            let ghost old_cur = cur@;
            cur.push(c);
            proof {
                lemma_split_step(rest, sep);
                lemma_attach_push(old_cur, c, split_by(rest1, sep));
            }
        }
        i = i + 1;
    }
    let ghost old_r = r.deep_view();
    let ghost old_cur = cur@;
    r.push(cur);
    proof {
        let rest = s@.subrange(i as int, s@.len() as int);
        assert(rest =~= Seq::<char>::empty());
        assert(split_by(rest, sep) =~= seq![Seq::<char>::empty()]);
        assert(old_cur + Seq::<char>::empty() =~= old_cur);
        assert(attach(old_cur, seq![Seq::<char>::empty()]) =~= seq![old_cur]);
        assert(r.deep_view() =~~= old_r.push(old_cur));
        assert(old_r.push(old_cur) =~= old_r + seq![old_cur]);
    }
    r
}

/// `p` without one trailing carriage return, if it has one.
pub open spec fn strip_cr(p: Seq<char>) -> Seq<char> {
    if p.len() > 0 && p.last() == '\r' {
        p.drop_last()
    } else {
        p
    }
}

/// The lines of `s`: pieces between newlines, with a carriage return
/// before each newline stripped, and no final empty line when `s` ends
/// with a line ending.
pub open spec fn lines_of(s: Seq<char>) -> Seq<Seq<char>> {
    let ps = split_by(s, '\n');
    let head = ps.take(ps.len() - 1).map_values(|p: Seq<char>| strip_cr(p));
    if ps.last().len() == 0 {
        head
    } else {
        head + seq![ps.last()]
    }
}

/// Whether `p` is a prefix of the buffer `l`.
pub fn lit_prefix(l: &Vec<char>, p: &str) -> (r: bool)
    ensures
        r == has_prefix(l@, p@),
{
    let pc = chars_of(p);
    starts_with(l, &pc)
}

/// Whether `p` is a suffix of the buffer `l`.
pub fn lit_suffix(l: &Vec<char>, p: &str) -> (r: bool)
    ensures
        r == has_suffix(l@, p@),
{
    let pc = chars_of(p);
    ends_with(l, &pc)
}

/// Whether `p` occurs in the buffer `l`.
pub fn lit_has(l: &Vec<char>, p: &str) -> (r: bool)
    ensures
        r == has_sub(l@, p@),
{
    let pc = chars_of(p);
    contains_sub(l, &pc)
}

/// Whether the buffer `l` holds exactly `p`.
pub fn lit_eq(l: &Vec<char>, p: &str) -> (r: bool)
    ensures
        r == (l@ == p@),
{
    let pc = chars_of(p);
    eq_chars(l, &pc)
}

/// The position of the last `c` in `s`, or `-1` if there is none.
pub open spec fn last_pos(s: Seq<char>, c: char) -> int
    decreases s.len(),
{
    if s.len() == 0 {
        -1
    } else if s.last() == c {
        s.len() - 1
    } else {
        last_pos(s.drop_last(), c)
    }
}

/// Finds the last occurrence of `c` in `v`.
pub fn find_last(v: &Vec<char>, c: char) -> (r: Option<usize>)
    ensures
        match r {
            Some(i) => i < v@.len() && i == last_pos(v@, c),
            None => last_pos(v@, c) == -1,
        },
{
    let mut m: usize = v.len();
    proof {
        assert(v@.take(v@.len() as int) =~= v@);
    }
    while m > 0
        invariant
            m <= v@.len(),
            last_pos(v@, c) == last_pos(v@.take(m as int), c),
        decreases m,
    {
        proof {
            assert(v@.take(m as int).last() == v@[m - 1]);
            assert(v@.take(m as int).drop_last() =~= v@.take(m - 1));
        }
        if v[m - 1] == c {
            return Some(m - 1);
        }
        m = m - 1;
    }
    None
}

/// The whitespace characters recognised by the trimming and pattern
/// functions of this crate: the blank, tab, and the line-break controls.
pub open spec fn is_space(c: char) -> bool {
    c == ' ' || c == '\t' || c == '\r' || c == '\n' || c == '\u{b}' || c == '\u{c}'
}

/// Whether `c` is whitespace.
pub fn is_space_char(c: char) -> (r: bool)
    ensures
        r == is_space(c),
{
    c == ' ' || c == '\t' || c == '\r' || c == '\n' || c == '\u{b}' || c == '\u{c}'
}

/// `s` without leading whitespace.
pub open spec fn trim_front(s: Seq<char>) -> Seq<char>
    decreases s.len(),
{
    if s.len() > 0 && is_space(s[0]) {
        trim_front(s.drop_first())
    } else {
        s
    }
}

/// `s` without trailing whitespace.
pub open spec fn trim_back(s: Seq<char>) -> Seq<char>
    decreases s.len(),
{
    if s.len() > 0 && is_space(s.last()) {
        trim_back(s.drop_last())
    } else {
        s
    }
}

/// `s` without leading and trailing whitespace.
pub open spec fn trimmed(s: Seq<char>) -> Seq<char> {
    trim_back(trim_front(s))
}

/// Removes leading and trailing whitespace.
pub fn trim_chars(v: &Vec<char>) -> (r: Vec<char>)
    ensures
        r@ == trimmed(v@),
{
    let mut a: usize = 0;
    proof {
        assert(v@.subrange(0, v@.len() as int) =~= v@);
    }
    while a < v.len() && is_space_char(v[a])
        invariant
            a <= v@.len(),
            trim_front(v@) == trim_front(v@.subrange(a as int, v@.len() as int)),
        decreases v@.len() - a,
    {
        proof {
            let rest = v@.subrange(a as int, v@.len() as int);
            assert(rest.drop_first() =~= v@.subrange(a + 1, v@.len() as int));
        }
        a = a + 1;
    }
    proof {
        let rest = v@.subrange(a as int, v@.len() as int);
        assert(trim_front(rest) == rest);
        assert(trim_front(v@) == v@.subrange(a as int, v@.len() as int));
    }
    let mut b: usize = v.len();
    while b > a && is_space_char(v[b - 1])
        invariant
            a <= b <= v@.len(),
            trim_front(v@) == v@.subrange(a as int, v@.len() as int),
            trim_back(v@.subrange(a as int, v@.len() as int)) == trim_back(
                v@.subrange(a as int, b as int),
            ),
        decreases b,
    {
        proof {
            let cur = v@.subrange(a as int, b as int);
            assert(cur.drop_last() =~= v@.subrange(a as int, b - 1));
        }
        b = b - 1;
    }
    proof {
        let cur = v@.subrange(a as int, b as int);
        assert(trim_back(cur) == cur);
    }
    sub_chars(v, a, b)
}

/// Whether `c` is a decimal digit.
pub open spec fn is_digit(c: char) -> bool {
    48 <= c as int && c as int <= 57
}

/// The value of the digit `c`.
pub open spec fn digit_val(c: char) -> int {
    c as int - 48
}

/// `s` is a non-empty run of decimal digits.
pub open spec fn all_digits(s: Seq<char>) -> bool {
    s.len() > 0 && forall|i: int| 0 <= i < s.len() ==> is_digit(s[i])
}

/// The number a run of decimal digits denotes.
pub open spec fn digits_val(s: Seq<char>) -> int
    decreases s.len(),
{
    if s.len() == 0 {
        0
    } else {
        digits_val(s.drop_last()) * 10 + digit_val(s.last())
    }
}

/// Whether `c` is a decimal digit.
pub fn is_digit_char(c: char) -> (r: bool)
    ensures
        r == is_digit(c),
{
    let u = c as u32;
    48 <= u && u <= 57
}

proof fn lemma_digits_val_nonneg(s: Seq<char>)
    requires
        forall|i: int| 0 <= i < s.len() ==> is_digit(s[i]),
    ensures
        digits_val(s) >= 0,
    decreases s.len(),
{
    if s.len() > 0 {
        lemma_digits_val_nonneg(s.drop_last());
    }
}

/// Reads the digits of `v` between `from` and `to` as a `usize`:
/// `None` when the range is empty, holds a non-digit, or overflows.
pub fn parse_usize_digits(v: &Vec<char>, from: usize, to: usize) -> (r: Option<usize>)
    requires
        from <= to <= v@.len(),
    ensures
        match r {
            Some(n) => all_digits(v@.subrange(from as int, to as int)) && n == digits_val(
                v@.subrange(from as int, to as int),
            ),
            None => !all_digits(v@.subrange(from as int, to as int)) || digits_val(
                v@.subrange(from as int, to as int),
            ) > usize::MAX,
        },
{
    if from == to {
        return None;
    }
    let mut acc: Option<usize> = Some(0);
    let mut i: usize = from;
    proof {
        assert(v@.subrange(from as int, from as int) =~= Seq::<char>::empty());
    }
    while i < to
        invariant
            from <= i <= to <= v@.len(),
            forall|k: int| from <= k < i ==> is_digit(v@[k]),
            match acc {
                Some(a) => a == digits_val(v@.subrange(from as int, i as int)),
                None => digits_val(v@.subrange(from as int, i as int)) > usize::MAX,
            },
        decreases to - i,
    {
        let c = v[i];
        let ghost pre = v@.subrange(from as int, i as int);
        let ghost post = v@.subrange(from as int, i + 1);
        proof {
            assert(post.drop_last() =~= pre);
            assert(post.last() == v@[i as int]);
            lemma_digits_val_nonneg(pre);
        }
        if !is_digit_char(c) {
            assert(!all_digits(v@.subrange(from as int, to as int))) by {
                assert(v@.subrange(from as int, to as int)[i - from] == v@[i as int]);
            }
            return None;
        }
        let d = (c as u32) as usize - 48;
        assert(d == digit_val(v@[i as int]));
        acc = match acc {
            Some(a) => {
                if a <= (usize::MAX - d) / 10 {
                    assert(a * 10 + d <= usize::MAX) by (nonlinear_arith)
                        requires
                            a <= (usize::MAX - d) / 10,
                            d <= 9,
                    ;
                    Some(a * 10 + d)
                } else {
                    assert(a * 10 + d > usize::MAX) by (nonlinear_arith)
                        requires
                            a > (usize::MAX - d) / 10,
                            0 <= d <= 9,
                            a >= 0,
                    ;
                    None
                }
            },
            None => {
                assert(digits_val(post) > usize::MAX) by {
                    assert(digits_val(pre) * 10 >= digits_val(pre));
                }
                None
            },
        };
        i = i + 1;
    }
    proof {
        assert(v@.subrange(from as int, i as int) == v@.subrange(from as int, to as int));
    }
    match acc {
        Some(a) => Some(a),
        None => None,
    }
}

/// The decimal digit character for `d`.
pub open spec fn dec_digit(d: int) -> char {
    if d == 0 {
        '0'
    } else if d == 1 {
        '1'
    } else if d == 2 {
        '2'
    } else if d == 3 {
        '3'
    } else if d == 4 {
        '4'
    } else if d == 5 {
        '5'
    } else if d == 6 {
        '6'
    } else if d == 7 {
        '7'
    } else if d == 8 {
        '8'
    } else {
        '9'
    }
}

/// The decimal representation of `n`, most significant digit first.
pub open spec fn dec_rep(n: nat) -> Seq<char>
    decreases n,
{
    if n < 10 {
        seq![dec_digit(n as int)]
    } else {
        dec_rep(n / 10).push(dec_digit((n % 10) as int))
    }
}

fn dec_digit_char(d: usize) -> (r: char)
    requires
        d < 10,
    ensures
        r == dec_digit(d as int),
{
    match d {
        0 => '0',
        1 => '1',
        2 => '2',
        3 => '3',
        4 => '4',
        5 => '5',
        6 => '6',
        7 => '7',
        8 => '8',
        _ => '9',
    }
}

/// The decimal digits of `n`.
pub fn dec_of(n: usize) -> (r: Vec<char>)
    ensures
        r@ == dec_rep(n as nat),
    decreases n,
{
    if n < 10 {
        let mut v: Vec<char> = Vec::new();
        v.push(dec_digit_char(n));
        assert(v@ =~= dec_rep(n as nat));
        v
    } else {
        let mut v = dec_of(n / 10);
        v.push(dec_digit_char(n % 10));
        v
    }
}

/// The decimal rendering of `n`.
pub fn dec_string(n: usize) -> (r: String)
    ensures
        r@ == dec_rep(n as nat),
{
    let v = dec_of(n);
    string_of(&v)
}

/// The pieces of `ps` glued together with `sep` between them.
pub open spec fn join_by(ps: Seq<Seq<char>>, sep: Seq<char>) -> Seq<char>
    decreases ps.len(),
{
    if ps.len() == 0 {
        Seq::<char>::empty()
    } else if ps.len() == 1 {
        ps[0]
    } else {
        join_by(ps.drop_last(), sep) + sep + ps.last()
    }
}

/// Glues the parts together with `sep` between them.
pub fn join_strs(parts: &Vec<String>, sep: &str) -> (r: String)
    ensures
        r@ == join_by(parts.deep_view(), sep@),
{
    let ghost ps = parts.deep_view();
    let sc = chars_of(sep);
    let mut out: Vec<char> = Vec::new();
    let mut j: usize = 0;
    proof {
        assert(ps.take(0) =~= Seq::<Seq<char>>::empty());
    }
    while j < parts.len()
        invariant
            j <= parts@.len(),
            ps == parts.deep_view(),
            ps.len() == parts@.len(),
            sc@ == sep@,
            out@ == join_by(ps.take(j as int), sep@),
        decreases parts@.len() - j,
    {
        proof {
            assert(ps.take(j + 1).drop_last() =~= ps.take(j as int));
            assert(ps.take(j + 1).last() == ps[j as int]);
        }
        let mut piece = chars_of(parts[j].as_str());
        assert(piece@ == ps[j as int]);
        if j == 0 {
            out = piece;
        } else {
            let mut s2 = sub_chars(&sc, 0, sc.len());
            assert(s2@ =~= sep@);
            out.append(&mut s2);
            out.append(&mut piece);
        }
        j = j + 1;
    }
    proof {
        assert(ps.take(j as int) =~= ps);
    }
    string_of(&out)
}

/// Splits `s` into its lines.
pub fn split_lines(s: &str) -> (r: Vec<String>)
    ensures
        r.deep_view() == lines_of(s@),
{
    let buf = chars_of(s);
    let pieces = split_chars(&buf, '\n');
    let ghost ps = split_by(s@, '\n');
    let mut r: Vec<String> = Vec::new();
    let mut j: usize = 0;
    let last = pieces.len() - 1;
    while j < last
        invariant
            j <= last,
            last == pieces@.len() - 1,
            pieces.deep_view() == ps,
            r.deep_view() =~= ps.take(j as int).map_values(|p: Seq<char>| strip_cr(p)),
        decreases last - j,
    {
        let piece = &pieces[j];
        assert(piece@ == ps[j as int]);
        let line = if piece.len() > 0 && piece[piece.len() - 1] == '\r' {
            sub_chars(piece, 0, piece.len() - 1)
        } else {
            sub_chars(piece, 0, piece.len())
        };
        assert(piece@.subrange(0, piece@.len() as int) =~= piece@);
        assert(piece@.len() > 0 && piece@.last() == '\r' ==> piece@.subrange(
            0,
            piece@.len() - 1,
        ) =~= piece@.drop_last());
        assert(line@ == strip_cr(ps[j as int]));
        r.push(string_of(&line));
        j = j + 1;
        assert(ps.take(j as int).map_values(|p: Seq<char>| strip_cr(p)) =~= ps.take(
            j - 1,
        ).map_values(|p: Seq<char>| strip_cr(p)).push(strip_cr(ps[j - 1])));
    }
    let tail = &pieces[last];
    assert(tail@ == ps.last());
    assert(ps.take(last as int) =~= ps.take(ps.len() - 1));
    if tail.len() > 0 {
        r.push(string_of(&sub_chars(tail, 0, tail.len())));
        assert(tail@.subrange(0, tail@.len() as int) =~= tail@);
        assert(r.deep_view() =~= lines_of(s@));
    } else {
        assert(r.deep_view() =~= lines_of(s@));
    }
    r
}

} // verus!
