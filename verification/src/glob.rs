//! Case-name filters: `*` wildcard patterns, and lists of them.
//!
//! In a pattern, `*` matches any run of characters, the empty run included,
//! and every other character matches itself. A text matches a pattern when it
//! can be cut into pieces that match the pattern's characters in order.

use vstd::prelude::*;

verus! {

broadcast use vstd::string::axiom_spec_iter;

/// Whether `text` matches the wildcard pattern `pat`: `*` matches any run of
/// characters (possibly empty), any other character matches itself.
pub open spec fn glob_matches(pat: Seq<char>, text: Seq<char>) -> bool
    decreases pat.len() + text.len(),
{
    if pat.len() == 0 {
        text.len() == 0
    } else if pat[0] == '*' {
        glob_matches(pat.drop_first(), text) || (text.len() > 0 && glob_matches(pat, text.drop_first()))
    } else {
        text.len() > 0 && text[0] == pat[0] && glob_matches(pat.drop_first(), text.drop_first())
    }
}

/// One step of `glob_matches` on suffixes: matching `pat[i..]` against
/// `text[j..]` unfolds to matches of shorter suffixes.
proof fn lemma_glob_step(pat: Seq<char>, text: Seq<char>, i: int, j: int)
    requires
        0 <= i < pat.len(),
        0 <= j <= text.len(),
    ensures
        glob_matches(pat.skip(i), text.skip(j)) == if pat[i] == '*' {
            glob_matches(pat.skip(i + 1), text.skip(j)) || (j < text.len() && glob_matches(
                pat.skip(i),
                text.skip(j + 1),
            ))
        } else {
            j < text.len() && text[j] == pat[i] && glob_matches(pat.skip(i + 1), text.skip(j + 1))
        },
{
    assert(pat.skip(i).drop_first() =~= pat.skip(i + 1));
    assert(pat.skip(i)[0] == pat[i]);
    if j < text.len() {
        assert(text.skip(j).drop_first() =~= text.skip(j + 1));
        assert(text.skip(j)[0] == text[j]);
    }
}

/// The characters of `s`.
fn chars_of(s: &str) -> (v: Vec<char>)
    ensures
        v@ == s@,
{
    let mut v: Vec<char> = Vec::new();
    for c in it: s.chars()
        invariant
            it.seq() == s@,
            v@ == it.seq().take(it.index() as int),
    {
        proof {
            assert(it.seq().take(it.index() + 1) =~= it.seq().take(it.index() as int).push(c));
        }
        v.push(c);
    }
    proof {
        assert(v@ =~= s@);
    }
    v
}

/// Returns whether `text` matches the wildcard `pattern`, where `*` matches
/// any run of characters.
///
/// Works on pattern suffixes from the end: for each suffix it records, for
/// every text suffix, whether the two match.
pub fn matches_glob(pattern: &str, text: &str) -> (b: bool)
    ensures
        b == glob_matches(pattern@, text@),
{
    let pat = chars_of(pattern);
    let txt = chars_of(text);
    let np = pat.len();
    let nt = txt.len();
    let ghost p = pat@;
    let ghost t = txt@;
    // For the pattern suffix from `i`: `next[j]` says whether it matches the
    // text suffix from `j < nt`, and `next_end` whether it matches the empty
    // text suffix.
    let mut next: Vec<bool> = Vec::new();
    let mut next_end = true;
    let mut j: usize = 0;
    proof {
        assert(p.skip(np as int).len() == 0);
        assert(t.skip(nt as int).len() == 0);
    }
    while j < nt
        invariant
            j <= nt,
            nt == t.len(),
            np == p.len(),
            next@.len() == j,
            p.skip(np as int).len() == 0,
            forall|k: int| 0 <= k < j ==> next@[k] == glob_matches(p.skip(np as int), t.skip(k)),
        decreases nt - j,
    {
        next.push(false);
        j = j + 1;
    }
    let mut i: usize = np;
    while i > 0
        invariant
            i <= np,
            np == p.len(),
            nt == t.len(),
            pat@ == p,
            txt@ == t,
            next@.len() == nt,
            next_end == glob_matches(p.skip(i as int), t.skip(nt as int)),
            forall|k: int| 0 <= k < nt ==> next@[k] == glob_matches(p.skip(i as int), t.skip(k)),
        decreases i,
    {
        let pi = i - 1;
        let c = pat[pi];
        proof {
            lemma_glob_step(p, t, pi as int, nt as int);
        }
        let cur_end = if c == '*' {
            next_end
        } else {
            false
        };
        let mut cur: Vec<bool> = Vec::new();
        let mut k: usize = 0;
        while k < nt
            invariant
                k <= nt,
                cur@.len() == k,
            decreases nt - k,
        {
            cur.push(false);
            k = k + 1;
        }
        let mut jj: usize = nt;
        while jj > 0
            invariant
                jj <= nt,
                pi < np,
                np == p.len(),
                nt == t.len(),
                pat@ == p,
                txt@ == t,
                c == p[pi as int],
                cur@.len() == nt,
                next@.len() == nt,
                next_end == glob_matches(p.skip(pi + 1), t.skip(nt as int)),
                cur_end == glob_matches(p.skip(pi as int), t.skip(nt as int)),
                forall|k: int| 0 <= k < nt ==> next@[k] == glob_matches(p.skip(pi + 1), t.skip(k)),
                forall|k: int| jj <= k < nt ==> cur@[k] == glob_matches(p.skip(pi as int), t.skip(k)),
            decreases jj,
        {
            let j = jj - 1;
            proof {
                lemma_glob_step(p, t, pi as int, j as int);
            }
            let after_cur = if j + 1 < nt {
                cur[j + 1]
            } else {
                cur_end
            };
            let after_next = if j + 1 < nt {
                next[j + 1]
            } else {
                next_end
            };
            let v = if c == '*' {
                next[j] || after_cur
            } else {
                txt[j] == c && after_next
            };
            cur.set(j, v);
            jj = j;
        }
        next = cur;
        next_end = cur_end;
        i = pi;
    }
    proof {
        assert(p.skip(0) =~= p);
        assert(t.skip(0) =~= t);
    }
    if nt == 0 {
        next_end
    } else {
        next[0]
    }
}

/// Whether `c` has the Unicode `White_Space` property: tab, line feed,
/// vertical tab, form feed, carriage return, space, next line, no-break
/// space, ogham space mark, the spaces U+2000 to U+200A, line separator,
/// paragraph separator, narrow no-break space, medium mathematical space and
/// ideographic space.
pub open spec fn unicode_white_space(c: char) -> bool {
    let u = c as u32;
    (0x9 <= u && u <= 0xd) || u == 0x20 || u == 0x85 || u == 0xa0 || u == 0x1680 || (0x2000 <= u
        && u <= 0x200a) || u == 0x2028 || u == 0x2029 || u == 0x202f || u == 0x205f || u == 0x3000
}

/// Whether `c` is whitespace: whether it has the Unicode `White_Space`
/// property, as `char::is_whitespace` decides it.
fn is_whitespace(c: char) -> (r: bool)
    ensures
        r == unicode_white_space(c),
{
    let u = c as u32;
    (0x9 <= u && u <= 0xd) || u == 0x20 || u == 0x85 || u == 0xa0 || u == 0x1680 || (0x2000 <= u
        && u <= 0x200a) || u == 0x2028 || u == 0x2029 || u == 0x202f || u == 0x205f || u == 0x3000
}

/// Whether `c` separates case filters: a comma or whitespace.
pub open spec fn is_filter_separator(c: char) -> bool {
    c == ',' || unicode_white_space(c)
}

/// The filters in `s`, given the partial filter `cur` read just before it:
/// the maximal non-empty runs of non-separator characters, in order.
pub open spec fn filter_tokens(s: Seq<char>, cur: Seq<char>) -> Seq<Seq<char>>
    decreases s.len(),
{
    let done: Seq<Seq<char>> = if cur.len() > 0 {
        seq![cur]
    } else {
        Seq::empty()
    };
    if s.len() == 0 {
        done
    } else if is_filter_separator(s[0]) {
        done + filter_tokens(s.drop_first(), Seq::empty())
    } else {
        filter_tokens(s.drop_first(), cur.push(s[0]))
    }
}

/// The case filters listed in `raw`, separated by commas or whitespace, with
/// empty pieces dropped.
pub open spec fn case_filter_list(raw: Seq<char>) -> Seq<Seq<char>> {
    filter_tokens(raw, Seq::empty())
}

/// The characters of each string.
pub open spec fn string_views(v: Seq<String>) -> Seq<Seq<char>> {
    v.map_values(|s: String| s@)
}

/// Splits `raw` into case filters at commas and whitespace, dropping empty
/// pieces. Returns `None` when no filter remains.
pub fn parse_case_filters(raw: &str) -> (filters: Option<Vec<String>>)
    ensures
        match filters {
            None => case_filter_list(raw@).len() == 0,
            Some(v) => v@.len() > 0 && string_views(v@) == case_filter_list(raw@),
        },
{
    let chars = chars_of(raw);
    let n = chars.len();
    let mut out: Vec<String> = Vec::new();
    let mut start: usize = 0;
    let mut i: usize = 0;
    proof {
        assert(raw@.skip(0) =~= raw@);
        assert(raw@.subrange(0, 0) =~= Seq::<char>::empty());
        assert(string_views(out@) =~= Seq::<Seq<char>>::empty());
    }
    while i < n
        invariant
            start <= i <= n,
            n == raw@.len(),
            chars@ == raw@,
            string_views(out@) + filter_tokens(raw@.skip(i as int), raw@.subrange(start as int, i as int))
                == case_filter_list(raw@),
        decreases n - i,
    {
        let c = chars[i];
        let ghost rest = raw@.skip(i as int);
        let ghost cur = raw@.subrange(start as int, i as int);
        proof {
            assert(rest[0] == c);
            assert(rest.drop_first() =~= raw@.skip(i + 1));
        }
        if c == ',' || is_whitespace(c) {
            let ghost before = out@;
            if start < i {
                let piece = String::from_str(raw.substring_char(start, i));
                out.push(piece);
                proof {
                    assert(string_views(out@) =~= string_views(before) + seq![cur]);
                }
            } else {
                proof {
                    assert(cur =~= Seq::<char>::empty());
                }
            }
            proof {
                assert(raw@.subrange(i + 1, i + 1) =~= Seq::<char>::empty());
                assert(string_views(before) + (seq![cur] + filter_tokens(raw@.skip(i + 1), Seq::empty()))
                    =~= string_views(before) + seq![cur] + filter_tokens(raw@.skip(i + 1), Seq::empty()));
                assert(string_views(before) + (Seq::<Seq<char>>::empty() + filter_tokens(raw@.skip(i + 1), Seq::empty()))
                    =~= string_views(before) + filter_tokens(raw@.skip(i + 1), Seq::empty()));
            }
            start = i + 1;
        } else {
            proof {
                assert(cur.push(c) =~= raw@.subrange(start as int, i + 1));
            }
        }
        i = i + 1;
    }
    let ghost before = out@;
    let ghost cur = raw@.subrange(start as int, n as int);
    if start < n {
        let piece = String::from_str(raw.substring_char(start, n));
        out.push(piece);
        proof {
            assert(string_views(out@) =~= string_views(before) + seq![cur]);
        }
    } else {
        proof {
            assert(cur =~= Seq::<char>::empty());
            assert(string_views(before) + Seq::<Seq<char>>::empty() =~= string_views(before));
        }
    }
    if out.len() == 0 {
        None
    } else {
        proof {
            assert(string_views(out@).len() == out@.len());
        }
        Some(out)
    }
}

/// Returns whether any of `filters` matches `name`.
pub fn any_filter_matches(filters: &[String], name: &str) -> (b: bool)
    ensures
        b == exists|i: int| 0 <= i < filters@.len() && glob_matches(#[trigger] filters@[i]@, name@),
{
    let mut i: usize = 0;
    while i < filters.len()
        invariant
            i <= filters@.len(),
            forall|k: int| 0 <= k < i ==> !glob_matches(#[trigger] filters@[k]@, name@),
        decreases filters@.len() - i,
    {
        if matches_glob(filters[i].as_str(), name) {
            return true;
        }
        i = i + 1;
    }
    false
}

} // verus!
