//! Symbol-table reading: counting entry symbols in a listing of defined
//! symbols, and mapping requested display names to their mangled symbol
//! names by demangling every defined text symbol.
//!
//! A listing line has three blank-separated fields: an address, a symbol
//! kind letter, and the symbol itself. On some platforms the mangled name
//! carries one extra leading underscore, which is stripped before
//! demangling.

use vstd::prelude::*;

use crate::errors::CvError;
use crate::text::{
    chars_of, eq_chars, has_prefix, lit_eq, lit_prefix, split_by, split_chars, string_of,
    sub_chars,
};

verus! {

/// Names the demangled form of a mangled symbol, rendered without the
/// trailing disambiguation hash. It depends on the symbol's characters
/// alone.
pub uninterp spec fn demangled_of(sym: Seq<char>) -> Seq<char>;

/// Relies on rustc_demangle::demangle: the demangling of a symbol is a
/// function of the symbol's characters alone, and the alternate rendering
/// omits the trailing hash.
#[verifier::external_body]
fn demangle_no_hash(sym: &str) -> (r: String)
    ensures
        r@ == demangled_of(sym@),
{
    format!("{:#}", rustc_demangle::demangle(sym))
}

/// Whether a listing line defines a text symbol named by one of `names`:
/// three fields, the kind exactly `T`, the symbol among the names.
pub open spec fn is_named_entry(l: Seq<char>, names: Seq<Seq<char>>) -> bool {
    let fields = split_by(l, ' ');
    fields.len() == 3 && fields[1] == "T"@ && (exists|i: int|
        0 <= i < names.len() && names[i] == fields[2])
}

/// How many listing lines define a text symbol named by one of `names`.
pub open spec fn symbol_count_of(lines: Seq<Seq<char>>, names: Seq<Seq<char>>) -> int
    decreases lines.len(),
{
    if lines.len() == 0 {
        0int
    } else {
        symbol_count_of(lines.drop_last(), names) + (if is_named_entry(lines.last(), names) {
            1int
        } else {
            0int
        })
    }
}

fn name_matches(sym: &Vec<char>, names: &Vec<String>) -> (r: bool)
    ensures
        r == (exists|i: int| 0 <= i < names.deep_view().len() && names.deep_view()[i] == sym@),
{
    let ghost ns = names.deep_view();
    let mut i: usize = 0;
    while i < names.len()
        invariant
            i <= names@.len(),
            ns == names.deep_view(),
            ns.len() == names@.len(),
            forall|q: int| 0 <= q < i ==> ns[q] != sym@,
        decreases names@.len() - i,
    {
        let nc = chars_of(names[i].as_str());
        assert(nc@ == ns[i as int]);
        if eq_chars(&nc, sym) {
            assert(0 <= (i as int) < ns.len() && ns[i as int] == sym@);
            return true;
        }
        i = i + 1;
    }
    false
}

/// Counts the listing lines that define a text symbol named by `names`.
pub fn count_symbols(lines: &Vec<String>, names: &Vec<String>) -> (r: usize)
    ensures
        r as int == symbol_count_of(lines.deep_view(), names.deep_view()),
{
    let ghost all = lines.deep_view();
    let ghost ns = names.deep_view();
    let mut count: usize = 0;
    let mut j: usize = 0;
    proof {
        assert(all.take(0) =~= Seq::<Seq<char>>::empty());
    }
    while j < lines.len()
        invariant
            j <= lines@.len(),
            all == lines.deep_view(),
            ns == names.deep_view(),
            all.len() == lines@.len(),
            count <= j,
            count as int == symbol_count_of(all.take(j as int), ns),
        decreases lines@.len() - j,
    {
        proof {
            assert(all.take(j + 1).drop_last() =~= all.take(j as int));
            assert(all.take(j + 1).last() == all[j as int]);
        }
        let buf = chars_of(lines[j].as_str());
        assert(buf@ == all[j as int]);
        let fields = split_chars(&buf, ' ');
        let hit = if fields.len() == 3 {
            let kind_is_t = lit_eq(&fields[1], "T");
            if kind_is_t {
                name_matches(&fields[2], names)
            } else {
                false
            }
        } else {
            false
        };
        proof {
            assert(fields.deep_view() == split_by(buf@, ' '));
            if fields@.len() == 3 {
                assert(fields[1]@ == split_by(buf@, ' ')[1]);
                assert(fields[2]@ == split_by(buf@, ' ')[2]);
            }
        }
        assert(hit == is_named_entry(all[j as int], ns));
        if hit {
            count = count + 1;
        }
        j = j + 1;
    }
    proof {
        assert(all.take(j as int) =~= all);
    }
    count
}

/// The mangled symbol a listing line defines, if its three fields show a
/// text symbol (kind `t` or `T`) with a compiler-mangled name; the extra
/// leading underscore some platforms add is stripped.
pub open spec fn mangled_of_line(l: Seq<char>) -> Option<Seq<char>> {
    let fields = split_by(l, ' ');
    if fields.len() == 3 && (fields[1] == "t"@ || fields[1] == "T"@) {
        if has_prefix(fields[2], "__ZN"@) {
            Some(fields[2].subrange(1, fields[2].len() as int))
        } else if has_prefix(fields[2], "_ZN"@) {
            Some(fields[2])
        } else {
            None
        }
    } else {
        None
    }
}

/// The (display name, mangled symbol) pairs of the listing lines whose
/// demangled name is among `names`, in listing order.
pub open spec fn entries_of(lines: Seq<Seq<char>>, names: Seq<Seq<char>>) -> Seq<
    (Seq<char>, Seq<char>),
>
    decreases lines.len(),
{
    if lines.len() == 0 {
        Seq::<(Seq<char>, Seq<char>)>::empty()
    } else {
        let rest = entries_of(lines.drop_last(), names);
        match mangled_of_line(lines.last()) {
            Some(m) => if exists|i: int| 0 <= i < names.len() && names[i] == demangled_of(m) {
                rest.push((demangled_of(m), m))
            } else {
                rest
            },
            None => rest,
        }
    }
}

/// Whether some found entry's display name is `n`.
pub open spec fn found_has(entries: Seq<(Seq<char>, Seq<char>)>, n: Seq<char>) -> bool {
    exists|j: int| 0 <= j < entries.len() && entries[j].0 == n
}

/// How many requested names no found entry answers to.
pub open spec fn missing_count_of(names: Seq<Seq<char>>, entries: Seq<(Seq<char>, Seq<char>)>)
    -> int
    decreases names.len(),
{
    if names.len() == 0 {
        0int
    } else {
        missing_count_of(names.drop_last(), entries) + (if found_has(entries, names.last()) {
            0int
        } else {
            1int
        })
    }
}

fn line_entry(l: &Vec<char>) -> (r: Option<String>)
    ensures
        r.deep_view() == mangled_of_line(l@),
{
    let fields = split_chars(l, ' ');
    proof {
        assert(fields.deep_view() == split_by(l@, ' '));
        if fields@.len() == 3 {
            assert(fields[1]@ == split_by(l@, ' ')[1]);
            assert(fields[2]@ == split_by(l@, ' ')[2]);
        }
    }
    if fields.len() != 3 {
        return None;
    }
    let kind_ok = lit_eq(&fields[1], "t") || lit_eq(&fields[1], "T");
    if !kind_ok {
        return None;
    }
    let sym = &fields[2];
    if lit_prefix(sym, "__ZN") {
        proof {
            reveal_strlit("__ZN");
        }
        Some(string_of(&sub_chars(sym, 1, sym.len())))
    } else if lit_prefix(sym, "_ZN") {
        Some(string_of(&sub_chars(sym, 0, sym.len())))
    } else {
        None
    }
}

/// Maps the requested display names to their mangled symbols by
/// demangling every defined text symbol in the listing. A requested name
/// that no symbol demangles to is a fatal error naming how many names are
/// missing, not which.
pub fn mangle_functions(lines: &Vec<String>, names: &Vec<String>) -> (r: Result<
    Vec<(String, String)>,
    CvError,
>)
    ensures
        ({
            let found = entries_of(lines.deep_view(), names.deep_view());
            let missing = missing_count_of(names.deep_view(), found);
            match r {
                Ok(v) => missing == 0 && v@.len() == found.len() && (forall|j: int|
                    0 <= j < found.len() ==> v@[j].0@ == found[j].0 && v@[j].1@ == found[j].1),
                Err(e) => missing > 0 && e == (CvError::MissingEntries { count: missing as usize }),
            }
        }),
{
    let ghost all = lines.deep_view();
    let ghost ns = names.deep_view();
    let ghost found = entries_of(all, ns);
    let mut out: Vec<(String, String)> = Vec::new();
    let mut j: usize = 0;
    proof {
        assert(all.take(0) =~= Seq::<Seq<char>>::empty());
    }
    while j < lines.len()
        invariant
            j <= lines@.len(),
            all == lines.deep_view(),
            ns == names.deep_view(),
            all.len() == lines@.len(),
            out@.len() == entries_of(all.take(j as int), ns).len(),
            forall|q: int|
                0 <= q < out@.len() ==> out@[q].0@ == entries_of(all.take(j as int), ns)[q].0
                    && out@[q].1@ == entries_of(all.take(j as int), ns)[q].1,
        decreases lines@.len() - j,
    {
        proof {
            assert(all.take(j + 1).drop_last() =~= all.take(j as int));
            assert(all.take(j + 1).last() == all[j as int]);
        }
        let buf = chars_of(lines[j].as_str());
        assert(buf@ == all[j as int]);
        match line_entry(&buf) {
            Some(mangled) => {
                let dname = demangle_no_hash(mangled.as_str());
                let dc = chars_of(dname.as_str());
                if name_matches(&dc, names) {
                    out.push((dname, mangled));
                }
            },
            None => {},
        }
        j = j + 1;
    }
    proof {
        assert(all.take(j as int) =~= all);
    }
    // Count the requested names that no entry answers to.
    let mut missing: usize = 0;
    let mut i: usize = 0;
    proof {
        assert(ns.take(0) =~= Seq::<Seq<char>>::empty());
    }
    while i < names.len()
        invariant
            i <= names@.len(),
            ns == names.deep_view(),
            ns.len() == names@.len(),
            missing <= i,
            out@.len() == found.len(),
            forall|q: int|
                0 <= q < out@.len() ==> out@[q].0@ == found[q].0 && out@[q].1@ == found[q].1,
            found == entries_of(all, ns),
            missing as int == missing_count_of(ns.take(i as int), found),
        decreases names@.len() - i,
    {
        proof {
            assert(ns.take(i + 1).drop_last() =~= ns.take(i as int));
            assert(ns.take(i + 1).last() == ns[i as int]);
        }
        let nc = chars_of(names[i].as_str());
        assert(nc@ == ns[i as int]);
        let mut hit = false;
        let mut q: usize = 0;
        while q < out.len()
            invariant
                q <= out@.len(),
                nc@ == ns[i as int],
                out@.len() == found.len(),
                forall|p: int|
                    0 <= p < out@.len() ==> out@[p].0@ == found[p].0 && out@[p].1@ == found[p].1,
                hit ==> found_has(found, ns[i as int]),
                !hit ==> forall|p: int| 0 <= p < q ==> found[p].0 != ns[i as int],
            decreases out@.len() - q,
        {
            if !hit {
                let ec = chars_of(out[q].0.as_str());
                assert(ec@ == found[q as int].0);
                if eq_chars(&ec, &nc) {
                    hit = true;
                    assert(found_has(found, ns[i as int])) by {
                        assert(0 <= (q as int) < found.len() && found[q as int].0
                            == ns[i as int]);
                    }
                }
            }
            q = q + 1;
        }
        assert(hit == found_has(found, ns[i as int]));
        if !hit {
            missing = missing + 1;
        }
        i = i + 1;
    }
    proof {
        assert(ns.take(i as int) =~= ns);
    }
    if missing > 0 {
        Err(CvError::MissingEntries { count: missing })
    } else {
        Ok(out)
    }
}

} // verus!
