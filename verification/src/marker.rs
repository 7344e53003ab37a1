//! The in-band expectation protocol.
//!
//! A program under verification may declare that it is expected to fail by
//! printing a marker line: `VERIFIER_EXPECT: should_panic` declares that any
//! panic satisfies the run, and
//! `VERIFIER_EXPECT: should_panic(expected = "<substring>")` declares that
//! only a panic whose message contains the substring does. The classifier
//! scans every line, the last marker wins, and a later panic report line is
//! matched against the declared expectation.

use vstd::prelude::*;

use crate::text::{
    chars_of, contains_sub, ends_with, eq_chars, find_from, has_prefix, has_sub, has_suffix,
    matches_at, string_of, sub_chars, starts_with,
};

verus! {

/// The marker line that declares "any panic is expected".
pub open spec fn bare_marker() -> Seq<char> {
    "VERIFIER_EXPECT: should_panic"@
}

/// The opening of the marker line that carries a required substring.
pub open spec fn marker_prefix() -> Seq<char> {
    "VERIFIER_EXPECT: should_panic(expected = \""@
}

/// The closing of the marker line that carries a required substring.
pub open spec fn marker_suffix() -> Seq<char> {
    "\")"@
}

/// What one line contributes to the expectation: `None` when it is no
/// marker, and otherwise the required substring (empty for the bare form).
pub open spec fn marker_of_line(l: Seq<char>) -> Option<Seq<char>> {
    if l == bare_marker() {
        Some(Seq::<char>::empty())
    } else if has_prefix(l, marker_prefix()) && l.len() >= marker_prefix().len()
        + marker_suffix().len() && has_suffix(l, marker_suffix()) {
        Some(l.subrange(marker_prefix().len() as int, l.len() - marker_suffix().len()))
    } else {
        None
    }
}

/// The expectation registered by a sequence of lines: that of the last
/// marker line, or `None` when no line is a marker.
pub open spec fn expectation_of(lines: Seq<Seq<char>>) -> Option<Seq<char>>
    decreases lines.len(),
{
    if lines.len() == 0 {
        None
    } else {
        match marker_of_line(lines.last()) {
            Some(e) => Some(e),
            None => expectation_of(lines.drop_last()),
        }
    }
}

/// Reads one line as an expectation marker.
pub fn line_marker(l: &str) -> (r: Option<String>)
    ensures
        r.deep_view() == marker_of_line(l@),
{
    let buf = chars_of(l);
    let bare = chars_of("VERIFIER_EXPECT: should_panic");
    if eq_chars(&buf, &bare) {
        let empty = String::new();
        return Some(empty);
    }
    let pfx = chars_of("VERIFIER_EXPECT: should_panic(expected = \"");
    let sfx = chars_of("\")");
    if starts_with(&buf, &pfx) && buf.len() - pfx.len() >= sfx.len() && ends_with(&buf, &sfx) {
        let mid = sub_chars(&buf, pfx.len(), buf.len() - sfx.len());
        Some(string_of(&mid))
    } else {
        None
    }
}

/// Scans all lines for expectation markers; the last marker wins.
pub fn scan_expectation(lines: &Vec<String>) -> (r: Option<String>)
    ensures
        r.deep_view() == expectation_of(lines.deep_view()),
{
    let mut r: Option<String> = None;
    let mut j: usize = 0;
    proof {
        assert(lines.deep_view().take(0) =~= Seq::<Seq<char>>::empty());
    }
    while j < lines.len()
        invariant
            j <= lines@.len(),
            lines.deep_view().len() == lines@.len(),
            r.deep_view() == expectation_of(lines.deep_view().take(j as int)),
        decreases lines@.len() - j,
    {
        proof {
            assert(lines.deep_view()[j as int] == lines@[j as int]@);
            assert(lines.deep_view().take(j + 1).drop_last() =~= lines.deep_view().take(j as int));
            assert(lines.deep_view().take(j + 1).last() == lines.deep_view()[j as int]);
        }
        match line_marker(lines[j].as_str()) {
            Some(e) => {
                r = Some(e);
            },
            None => {},
        }
        j = j + 1;
    }
    proof {
        assert(lines.deep_view().take(j as int) =~= lines.deep_view());
    }
    r
}

/// The text that introduces a panic report line.
pub open spec fn panic_marker() -> Seq<char> {
    " panicked at '"@
}

/// A panic message occupies `l[i..j]`: the panic marker stands right
/// before it, a closing quote and a comma right after it, and it holds no
/// quote itself.
pub open spec fn panic_message_at(l: Seq<char>, i: int, j: int) -> bool {
    &&& matches_at(l, i - panic_marker().len(), panic_marker())
    &&& i <= j
    &&& j + 2 <= l.len()
    &&& l[j] == '\''
    &&& l[j + 1] == ','
    &&& forall|k: int| i <= k < j ==> l[k] != '\''
}

/// `l` reports a panic that satisfies the expectation: an expectation is
/// registered, and some panic message in `l` contains its substring. With
/// no expectation registered, no line counts as an expected panic.
pub open spec fn is_expected_panic_spec(l: Seq<char>, expect: Option<Seq<char>>) -> bool {
    match expect {
        None => false,
        Some(e) => exists|i: int, j: int|
            panic_message_at(l, i, j) && has_sub(l.subrange(i, j), e),
    }
}

/// Whether `l` reports a panic that satisfies the expectation `expect`.
pub fn is_expected_panic(l: &Vec<char>, expect: &Option<String>) -> (r: bool)
    ensures
        r == is_expected_panic_spec(l@, expect.deep_view()),
{
    let e: &String = match expect {
        Some(e) => e,
        None => {
            return false;
        },
    };
    let needle = chars_of(e.as_str());
    let marker = chars_of(" panicked at '");
    let quote = chars_of("'");
    proof {
        reveal_strlit(" panicked at '");
    }
    let mlen = marker.len();
    let ln = l.len();
    let mut p: usize = 0;
    loop
        invariant_except_break
            expect.deep_view() == Some(needle@),
            marker@ == panic_marker(),
            quote@ == "'"@,
            mlen == marker@.len(),
            ln == l@.len(),
            forall|i: int, j: int|
                #[trigger] panic_message_at(l@, i, j) && has_sub(l@.subrange(i, j), needle@)
                    ==> i - mlen >= p,
        ensures
            !is_expected_panic_spec(l@, expect.deep_view()),
        decreases l@.len() + 2 - p,
    {
        let mp = match find_from(l, p, &marker) {
            Some(mp) => mp,
            None => {
                proof {
                    if is_expected_panic_spec(l@, expect.deep_view()) {
                        let (i, j) = choose|i: int, j: int|
                            panic_message_at(l@, i, j) && has_sub(l@.subrange(i, j), needle@);
                        assert(matches_at(l@, i - mlen, panic_marker()));
                        assert(i - mlen >= p);
                    }
                }
                break;
            },
        };
        proof {
            reveal_strlit(" panicked at '");
            reveal_strlit("'");
        }
        assert(mp + mlen <= ln && mlen >= 1);
        let start = mp + mlen;
        match find_from(l, start, &quote) {
            Some(q) => {
                assert(q < ln);
                assert(l@[q as int] == '\'') by {
                    assert(l@.subrange(q as int, q + 1)[0] == '\'');
                }
                let ok = if q + 1 < l.len() && l[q + 1] == ',' {
                    let msg = sub_chars(l, start, q);
                    assert(panic_message_at(l@, start as int, q as int)) by {
                        assert forall|k: int| start <= k < q implies l@[k] != '\'' by {
                            if l@[k] == '\'' {
                                assert(matches_at(l@, k, "'"@)) by {
                                    assert(l@.subrange(k, k + 1) =~= "'"@);
                                }
                            }
                        }
                    }
                    contains_sub(&msg, &needle)
                } else {
                    false
                };
                if ok {
                    return true;
                }
                proof {
                    assert forall|i: int, j: int|
                        #[trigger] panic_message_at(l@, i, j) && has_sub(
                            l@.subrange(i, j),
                            needle@,
                        ) implies i - mlen >= mp + 1 by {
                        if i - mlen == mp {
                            assert(i == start);
                            assert(j == q) by {
                                if j < q {
                                    assert(l@[j] == '\'');
                                    assert(matches_at(l@, j, "'"@)) by {
                                        assert(l@.subrange(j, j + 1) =~= "'"@);
                                    }
                                } else if j > q {
                                    assert(l@[q as int] != '\'');
                                }
                            }
                        }
                    }
                }
                p = mp + 1;
            },
            None => {
                proof {
                    assert forall|i: int, j: int|
                        #[trigger] panic_message_at(l@, i, j) && has_sub(
                            l@.subrange(i, j),
                            needle@,
                        ) implies i - mlen >= mp + 1 by {
                        if i - mlen == mp {
                            assert(l@[j] == '\'');
                            assert(matches_at(l@, j, "'"@)) by {
                                assert(l@.subrange(j, j + 1) =~= "'"@);
                            }
                        }
                    }
                }
                p = mp + 1;
            },
        }
    }
    false
}

} // verus!
