//! The entry resolver: reads the build tool's test listing, narrows it by
//! the requested filters, qualifies test names with the package name, and
//! strips that qualification again for display.

use vstd::prelude::*;

use crate::errors::CvError;
use crate::text::{
    chars_of, contains_sub, has_prefix, has_sub, is_space, is_space_char, string_of, sub_chars,
    trim_back,
};

verus! {

/// The start of the run of whitespace that ends just before `i`.
pub open spec fn skip_ws_back(s: Seq<char>, i: int) -> int
    decreases i,
{
    if i > 0 && is_space(s[i - 1]) {
        skip_ws_back(s, i - 1)
    } else {
        i
    }
}

/// The start of the run of non-whitespace that ends just before `i`.
pub open spec fn skip_nonws_back(s: Seq<char>, i: int) -> int
    decreases i,
{
    if i > 0 && i <= s.len() && !is_space(s[i - 1]) {
        skip_nonws_back(s, i - 1)
    } else {
        i
    }
}

/// The test name a listing line announces, if any: the line reads, up to
/// trailing whitespace, as a non-blank name, a colon, whitespace, and the
/// word `test`.
pub open spec fn test_name_of(l: Seq<char>) -> Option<Seq<char>> {
    let t = trim_back(l);
    if t.len() >= 4 && t.subrange(t.len() - 4, t.len() as int) == "test"@ {
        let p = t.len() - 4;
        let w = skip_ws_back(t, p);
        if w < p && w > 0 && t[w - 1] == ':' {
            let c = skip_nonws_back(t, w - 1);
            if c < w - 1 {
                Some(t.subrange(c, w - 1))
            } else {
                None
            }
        } else {
            None
        }
    } else {
        None
    }
}

/// The test names announced by the listing's lines, in order.
pub open spec fn tests_of(lines: Seq<Seq<char>>) -> Seq<Seq<char>>
    decreases lines.len(),
{
    if lines.len() == 0 {
        Seq::<Seq<char>>::empty()
    } else {
        let rest = tests_of(lines.drop_last());
        match test_name_of(lines.last()) {
            Some(t) => rest.push(t),
            None => rest,
        }
    }
}

proof fn lemma_skip_ws_back_bounds(s: Seq<char>, i: int)
    requires
        0 <= i,
    ensures
        0 <= skip_ws_back(s, i) <= i,
    decreases i,
{
    if i > 0 && is_space(s[i - 1]) {
        lemma_skip_ws_back_bounds(s, i - 1);
    }
}

proof fn lemma_skip_nonws_back_bounds(s: Seq<char>, i: int)
    requires
        0 <= i,
    ensures
        0 <= skip_nonws_back(s, i) <= i,
    decreases i,
{
    if i > 0 && i <= s.len() && !is_space(s[i - 1]) {
        lemma_skip_nonws_back_bounds(s, i - 1);
    }
}

/// Reads one listing line as a test announcement.
pub fn parse_test_line(l: &Vec<char>) -> (r: Option<String>)
    ensures
        r.deep_view() == test_name_of(l@),
{
    let t = trim_chars_back(l);
    if t.len() < 4 {
        return None;
    }
    let word = sub_chars(&t, t.len() - 4, t.len());
    let test_lit = chars_of("test");
    if !crate::text::eq_chars(&word, &test_lit) {
        return None;
    }
    let p = t.len() - 4;
    let mut w: usize = p;
    while w > 0 && is_space_char(t[w - 1])
        invariant
            w <= p <= t@.len(),
            skip_ws_back(t@, p as int) == skip_ws_back(t@, w as int),
        decreases w,
    {
        w = w - 1;
    }
    assert(w as int == skip_ws_back(t@, p as int));
    if !(w < p && w > 0 && t[w - 1] == ':') {
        return None;
    }
    let mut c: usize = w - 1;
    while c > 0 && !is_space_char(t[c - 1])
        invariant
            c <= w - 1 < t@.len(),
            skip_nonws_back(t@, (w - 1) as int) == skip_nonws_back(t@, c as int),
        decreases c,
    {
        c = c - 1;
    }
    assert(c as int == skip_nonws_back(t@, (w - 1) as int));
    if c < w - 1 {
        Some(string_of(&sub_chars(&t, c, w - 1)))
    } else {
        None
    }
}

fn trim_chars_back(v: &Vec<char>) -> (r: Vec<char>)
    ensures
        r@ == trim_back(v@),
{
    let mut b: usize = v.len();
    proof {
        assert(v@.subrange(0, v@.len() as int) =~= v@);
    }
    while b > 0 && is_space_char(v[b - 1])
        invariant
            b <= v@.len(),
            trim_back(v@) == trim_back(v@.subrange(0, b as int)),
        decreases b,
    {
        proof {
            let cur = v@.subrange(0, b as int);
            assert(cur.drop_last() =~= v@.subrange(0, b - 1));
        }
        b = b - 1;
    }
    proof {
        let cur = v@.subrange(0, b as int);
        assert(trim_back(cur) == cur);
    }
    sub_chars(v, 0, b)
}

/// Extracts the announced test names from the listing's lines.
pub fn list_test_names(lines: &Vec<String>) -> (r: Vec<String>)
    ensures
        r.deep_view() == tests_of(lines.deep_view()),
{
    let ghost all = lines.deep_view();
    let mut r: Vec<String> = Vec::new();
    let mut j: usize = 0;
    proof {
        assert(all.take(0) =~= Seq::<Seq<char>>::empty());
        assert(r.deep_view() =~= tests_of(all.take(0)));
    }
    while j < lines.len()
        invariant
            j <= lines@.len(),
            all == lines.deep_view(),
            all.len() == lines@.len(),
            r.deep_view() == tests_of(all.take(j as int)),
        decreases lines@.len() - j,
    {
        proof {
            assert(all.take(j + 1).drop_last() =~= all.take(j as int));
            assert(all.take(j + 1).last() == all[j as int]);
        }
        let buf = chars_of(lines[j].as_str());
        assert(buf@ == all[j as int]);
        match parse_test_line(&buf) {
            Some(t) => {
                let ghost old_r = r.deep_view();
                r.push(t);
                assert(r.deep_view() =~~= old_r.push(test_name_of(all[j as int]).unwrap()));
            },
            None => {},
        }
        j = j + 1;
    }
    proof {
        assert(all.take(j as int) =~= all);
    }
    r
}

/// Whether `t` holds any of the requested substrings.
pub open spec fn matches_any(t: Seq<char>, filters: Seq<Seq<char>>) -> bool {
    exists|i: int| 0 <= i < filters.len() && has_sub(t, filters[i])
}

/// The tests that survive the filters.
pub open spec fn filtered_of(tests: Seq<Seq<char>>, filters: Seq<Seq<char>>) -> Seq<Seq<char>>
    decreases tests.len(),
{
    if tests.len() == 0 {
        Seq::<Seq<char>>::empty()
    } else {
        let rest = filtered_of(tests.drop_last(), filters);
        if matches_any(tests.last(), filters) {
            rest.push(tests.last())
        } else {
            rest
        }
    }
}

/// The tests a run selects: all of them with no filter given, otherwise
/// those holding one of the filters.
pub open spec fn selected_of(tests: Seq<Seq<char>>, filters: Seq<Seq<char>>) -> Seq<Seq<char>> {
    if filters.len() == 0 {
        tests
    } else {
        filtered_of(tests, filters)
    }
}

fn matches_any_filter(t: &Vec<char>, filters: &Vec<String>) -> (r: bool)
    ensures
        r == matches_any(t@, filters.deep_view()),
{
    let ghost fs = filters.deep_view();
    let mut i: usize = 0;
    while i < filters.len()
        invariant
            i <= filters@.len(),
            fs == filters.deep_view(),
            fs.len() == filters@.len(),
            forall|q: int| 0 <= q < i ==> !has_sub(t@, fs[q]),
        decreases filters@.len() - i,
    {
        let fc = chars_of(filters[i].as_str());
        assert(fc@ == fs[i as int]);
        if contains_sub(t, &fc) {
            assert(matches_any(t@, fs)) by {
                assert(0 <= (i as int) < fs.len() && has_sub(t@, fs[i as int]));
            }
            return true;
        }
        i = i + 1;
    }
    false
}

/// Narrows the announced tests by the requested filters; an empty
/// selection is a fatal error, never a silent no-op.
pub fn select_tests(tests: Vec<String>, filters: &Vec<String>) -> (r: Result<Vec<String>, CvError>)
    ensures
        match r {
            Ok(sel) => sel.deep_view() == selected_of(tests.deep_view(), filters.deep_view())
                && sel@.len() > 0,
            Err(e) => e is NoTestsFound && selected_of(
                tests.deep_view(),
                filters.deep_view(),
            ).len() == 0,
        },
{
    let ghost ts = tests.deep_view();
    let ghost fs = filters.deep_view();
    let selected: Vec<String> = if filters.len() > 0 {
        let mut keep: Vec<String> = Vec::new();
        let mut j: usize = 0;
        proof {
            assert(ts.take(0) =~= Seq::<Seq<char>>::empty());
            assert(keep.deep_view() =~= filtered_of(ts.take(0), fs));
        }
        while j < tests.len()
            invariant
                j <= tests@.len(),
                ts == tests.deep_view(),
                fs == filters.deep_view(),
                ts.len() == tests@.len(),
                keep.deep_view() == filtered_of(ts.take(j as int), fs),
            decreases tests@.len() - j,
        {
            proof {
                assert(ts.take(j + 1).drop_last() =~= ts.take(j as int));
                assert(ts.take(j + 1).last() == ts[j as int]);
            }
            let buf = chars_of(tests[j].as_str());
            assert(buf@ == ts[j as int]);
            if matches_any_filter(&buf, filters) {
                let ghost old_k = keep.deep_view();
                keep.push(tests[j].clone());
                assert(keep.deep_view() =~~= old_k.push(ts[j as int]));
            }
            j = j + 1;
        }
        proof {
            assert(ts.take(j as int) =~= ts);
        }
        keep
    } else {
        tests
    };
    if selected.len() == 0 {
        Err(CvError::NoTestsFound)
    } else {
        Ok(selected)
    }
}

/// Each test name qualified with the package: `<package>::<test>`.
pub open spec fn qualified_of(package: Seq<char>, tests: Seq<Seq<char>>) -> Seq<Seq<char>> {
    tests.map_values(|t: Seq<char>| package + "::"@ + t)
}

/// Qualifies each test name with the package name.
pub fn qualify_tests(package: &str, tests: &Vec<String>) -> (r: Vec<String>)
    ensures
        r.deep_view() == qualified_of(package@, tests.deep_view()),
{
    let ghost ts = tests.deep_view();
    let ghost goal = qualified_of(package@, ts);
    let sep = chars_of("::");
    let pc = chars_of(package);
    let mut r: Vec<String> = Vec::new();
    let mut j: usize = 0;
    proof {
        assert(r.deep_view() =~= goal.take(0));
    }
    while j < tests.len()
        invariant
            j <= tests@.len(),
            ts == tests.deep_view(),
            ts.len() == tests@.len(),
            goal == qualified_of(package@, ts),
            goal.len() == ts.len(),
            pc@ == package@,
            sep@ == "::"@,
            r.deep_view() == goal.take(j as int),
        decreases tests@.len() - j,
    {
        let mut name = sub_chars(&pc, 0, pc.len());
        let mut mid = sub_chars(&sep, 0, sep.len());
        let mut tc = chars_of(tests[j].as_str());
        assert(name@ =~= package@ && mid@ =~= "::"@ && tc@ == ts[j as int]);
        name.append(&mut mid);
        name.append(&mut tc);
        let ghost old_r = r.deep_view();
        r.push(string_of(&name));
        proof {
            assert(r.deep_view() =~~= old_r.push(package@ + "::"@ + ts[j as int]));
            assert(old_r.push(goal[j as int]) =~= goal.take(j + 1));
        }
        j = j + 1;
    }
    proof {
        assert(goal.take(j as int) =~= goal);
    }
    r
}

/// An entry pair with the package qualification stripped from the display
/// name, where it carries one.
pub open spec fn stripped_name(package: Seq<char>, name: Seq<char>) -> Seq<char> {
    if has_prefix(name, package + "::"@) {
        name.subrange((package + "::"@).len() as int, name.len() as int)
    } else {
        name
    }
}

/// Strips the package qualification from each entry's display name.
pub fn strip_package_prefix(package: &str, entries: Vec<(String, String)>) -> (r: Vec<
    (String, String),
>)
    ensures
        r@.len() == entries@.len(),
        forall|j: int|
            0 <= j < r@.len() ==> r@[j].0@ == stripped_name(package@, entries@[j].0@) && r@[j].1@
                == entries@[j].1@,
{
    let pc = chars_of(package);
    let mut sep = chars_of("::");
    let mut pfx = sub_chars(&pc, 0, pc.len());
    pfx.append(&mut sep);
    assert(pfx@ =~= package@ + "::"@);
    let mut r: Vec<(String, String)> = Vec::new();
    let mut j: usize = 0;
    while j < entries.len()
        invariant
            j <= entries@.len(),
            pfx@ == package@ + "::"@,
            r@.len() == j,
            forall|q: int|
                0 <= q < j ==> r@[q].0@ == stripped_name(package@, entries@[q].0@) && r@[q].1@
                    == entries@[q].1@,
        decreases entries@.len() - j,
    {
        let entry = &entries[j];
        let nc = chars_of(entry.0.as_str());
        let name = if crate::text::starts_with(&nc, &pfx) {
            string_of(&sub_chars(&nc, pfx.len(), nc.len()))
        } else {
            entry.0.clone()
        };
        r.push((name, entry.1.clone()));
        j = j + 1;
    }
    r
}

/// Keeps the unique resolved entry: none found or more than one found is
/// a fatal error, never silently resolved.
pub fn select_single_main(mut mains: Vec<(String, String)>) -> (r: Result<
    (String, String),
    CvError,
>)
    ensures
        match r {
            Ok(m) => mains@.len() == 1 && m == mains@[0],
            Err(e) => (e is MainNotFound && mains@.len() == 0) || (e is MultipleMains
                && mains@.len() > 1),
        },
{
    if mains.len() == 0 {
        Err(CvError::MainNotFound)
    } else if mains.len() > 1 {
        Err(CvError::MultipleMains)
    } else {
        let m = mains.remove(0);
        Ok(m)
    }
}

} // verus!
