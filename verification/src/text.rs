//! Character-sequence utilities shared by the parsers: searching, substring
//! containment, line splitting, whitespace tokenization, joining and suffix
//! stripping, each specified over `Seq<char>`.

use vstd::prelude::*;
use vstd::string::StrSliceExecFns;
use vstd::string::StringExecFns;

verus! {

/// First index `>= start` at which `c` occurs in `s`, if any.
pub open spec fn find_from(s: Seq<char>, c: char, start: int) -> Option<int>
    decreases s.len() - start when 0 <= start <= s.len()
{
    if start >= s.len() {
        None
    } else if s[start] == c {
        Some(start)
    } else {
        find_from(s, c, start + 1)
    }
}

/// What `find_from` returns: the first occurrence at or after `start`.
pub proof fn lemma_find_from(s: Seq<char>, c: char, start: int)
    requires
        0 <= start <= s.len(),
    ensures
        match find_from(s, c, start) {
            Some(i) => start <= i < s.len() && s[i] == c
                && forall|j: int| start <= j < i ==> s[j] != c,
            None => forall|j: int| start <= j < s.len() ==> s[j] != c,
        },
    decreases s.len() - start,
{
    if start < s.len() && s[start] != c {
        lemma_find_from(s, c, start + 1);
    }
}

/// An occurrence with no earlier occurrence is the one `find_from` returns.
pub proof fn lemma_find_from_is(s: Seq<char>, c: char, start: int, i: int)
    requires
        0 <= start <= i < s.len(),
        s[i] == c,
        forall|j: int| start <= j < i ==> s[j] != c,
    ensures
        find_from(s, c, start) == Some(i),
    decreases i - start,
{
    if start < i {
        lemma_find_from_is(s, c, start + 1, i);
    }
}

/// Finds the first occurrence of `c` in `s` at or after `start`.
pub fn find_char_from(s: &str, c: char, start: usize) -> (r: Option<usize>)
    requires
        start <= s@.len(),
    ensures
        match r {
            Some(i) => find_from(s@, c, start as int) == Some(i as int),
            None => find_from(s@, c, start as int) is None,
        },
{
    let n = s.unicode_len();
    let mut i = start;
    while i < n
        invariant
            start <= i <= n,
            n == s@.len(),
            forall|j: int| start <= j < i ==> s@[j] != c,
        decreases n - i,
    {
        if s.get_char(i) == c {
            proof {
                lemma_find_from_is(s@, c, start as int, i as int);
            }
            return Some(i);
        }
        i = i + 1;
    }
    proof {
        lemma_find_from(s@, c, start as int);
    }
    None
}

/// The characters treated as whitespace by the tokenizer: the ASCII blank
/// characters that console output uses.
pub open spec fn is_space(c: char) -> bool {
    c == ' ' || c == '\t' || c == '\r' || c == '\n'
}

/// Runtime test matching `is_space`.
pub fn is_space_char(c: char) -> (r: bool)
    ensures
        r == is_space(c),
{
    c == ' ' || c == '\t' || c == '\r' || c == '\n'
}

/// First index `>= start` holding a whitespace character, or the length.
pub open spec fn space_end(s: Seq<char>, start: int) -> int
    decreases s.len() - start when 0 <= start <= s.len()
{
    if start >= s.len() {
        start
    } else if is_space(s[start]) {
        start
    } else {
        space_end(s, start + 1)
    }
}

/// `space_end` points at the first whitespace at or after `start`.
pub proof fn lemma_space_end(s: Seq<char>, start: int)
    requires
        0 <= start <= s.len(),
    ensures
        start <= space_end(s, start) <= s.len(),
        space_end(s, start) < s.len() ==> is_space(s[space_end(s, start)]),
        forall|j: int| start <= j < space_end(s, start) ==> !is_space(s[j]),
    decreases s.len() - start,
{
    if start < s.len() && !is_space(s[start]) {
        lemma_space_end(s, start + 1);
    }
}

/// A boundary with only non-whitespace before it is `space_end`.
pub proof fn lemma_space_end_is(s: Seq<char>, start: int, e: int)
    requires
        0 <= start <= e <= s.len(),
        e < s.len() ==> is_space(s[e]),
        forall|j: int| start <= j < e ==> !is_space(s[j]),
    ensures
        space_end(s, start) == e,
    decreases e - start,
{
    if start < e {
        lemma_space_end_is(s, start + 1, e);
    }
}

/// Finds the end of the whitespace-free run that begins at `start`.
pub fn find_space_end(s: &str, start: usize) -> (r: usize)
    requires
        start <= s@.len(),
    ensures
        r == space_end(s@, start as int),
        start <= r <= s@.len(),
{
    let n = s.unicode_len();
    let mut i = start;
    while i < n
        invariant
            start <= i <= n,
            n == s@.len(),
            forall|j: int| start <= j < i ==> !is_space(s@[j]),
        decreases n - i,
    {
        if is_space_char(s.get_char(i)) {
            proof {
                lemma_space_end_is(s@, start as int, i as int);
            }
            return i;
        }
        i = i + 1;
    }
    proof {
        lemma_space_end_is(s@, start as int, n as int);
    }
    n
}

/// First index `>= start` holding a non-whitespace character, or the length:
/// where the text that `str::trim_start` leaves would begin.
pub open spec fn skip_spaces(s: Seq<char>, start: int) -> int
    decreases s.len() - start when 0 <= start <= s.len()
{
    if start >= s.len() {
        start
    } else if is_space(s[start]) {
        skip_spaces(s, start + 1)
    } else {
        start
    }
}

/// A boundary with only whitespace before it is `skip_spaces`.
pub proof fn lemma_skip_spaces_is(s: Seq<char>, start: int, e: int)
    requires
        0 <= start <= e <= s.len(),
        e < s.len() ==> !is_space(s[e]),
        forall|j: int| start <= j < e ==> is_space(s[j]),
    ensures
        skip_spaces(s, start) == e,
    decreases e - start,
{
    if start < e {
        lemma_skip_spaces_is(s, start + 1, e);
    }
}

/// Finds the end of the whitespace run that begins at `start`.
pub fn find_non_space_from(s: &str, start: usize) -> (r: usize)
    requires
        start <= s@.len(),
    ensures
        r == skip_spaces(s@, start as int),
        start <= r <= s@.len(),
{
    let n = s.unicode_len();
    let mut i = start;
    while i < n
        invariant
            start <= i <= n,
            n == s@.len(),
            forall|j: int| start <= j < i ==> is_space(s@[j]),
        decreases n - i,
    {
        if !is_space_char(s.get_char(i)) {
            proof {
                lemma_skip_spaces_is(s@, start as int, i as int);
            }
            return i;
        }
        i = i + 1;
    }
    proof {
        lemma_skip_spaces_is(s@, start as int, n as int);
    }
    n
}

/// `needle` occurs in `hay` starting at index `i`.
pub open spec fn contains_at(hay: Seq<char>, i: int, needle: Seq<char>) -> bool {
    0 <= i && i + needle.len() <= hay.len() && hay.subrange(i, i + needle.len()) == needle
}

/// `needle` occurs somewhere in `hay` as a contiguous run.
pub open spec fn contains_sub(hay: Seq<char>, needle: Seq<char>) -> bool {
    exists|i: int| contains_at(hay, i, needle)
}

/// Compares two string slices character for character.
pub fn str_eq(a: &str, b: &str) -> (r: bool)
    ensures
        r == (a@ == b@),
{
    let na = a.unicode_len();
    let nb = b.unicode_len();
    if na != nb {
        assert(a@ != b@);
        return false;
    }
    let mut i: usize = 0;
    while i < na
        invariant
            0 <= i <= na,
            na == a@.len(),
            na == b@.len(),
            forall|j: int| 0 <= j < i ==> a@[j] == b@[j],
        decreases na - i,
    {
        if a.get_char(i) != b.get_char(i) {
            assert(a@ != b@);
            return false;
        }
        i = i + 1;
    }
    proof {
        assert(a@ =~= b@);
    }
    true
}

/// Tests whether `needle` occurs at position `i` of `hay`.
fn matches_at(hay: &str, i: usize, needle: &str) -> (r: bool)
    requires
        i + needle@.len() <= hay@.len(),
    ensures
        r == contains_at(hay@, i as int, needle@),
{
    let n = hay.unicode_len();
    let m = needle.unicode_len();
    let mut k: usize = 0;
    while k < m
        invariant
            0 <= k <= m,
            n == hay@.len(),
            m == needle@.len(),
            i + m <= hay@.len(),
            forall|j: int| 0 <= j < k ==> hay@[i + j] == needle@[j],
        decreases m - k,
    {
        if hay.get_char(i + k) != needle.get_char(k) {
            assert(hay@.subrange(i as int, i + needle@.len())[k as int] != needle@[k as int]);
            return false;
        }
        k = k + 1;
    }
    proof {
        assert(hay@.subrange(i as int, i + needle@.len()) =~= needle@);
    }
    true
}

/// Tests whether `needle` occurs anywhere in `hay` as a contiguous run,
/// the same containment that `str::contains` decides.
pub fn str_contains(hay: &str, needle: &str) -> (r: bool)
    ensures
        r == contains_sub(hay@, needle@),
{
    let n = hay.unicode_len();
    let m = needle.unicode_len();
    if m > n {
        assert(forall|i: int| !contains_at(hay@, i, needle@));
        return false;
    }
    if m == 0 {
        proof {
            assert(hay@.subrange(0, 0) =~= needle@);
            assert(contains_at(hay@, 0, needle@));
        }
        return true;
    }
    let mut i: usize = 0;
    while i <= n - m
        invariant
            0 <= i <= n - m + 1,
            1 <= m <= n,
            n == hay@.len(),
            m == needle@.len(),
            forall|j: int| 0 <= j < i ==> !contains_at(hay@, j, needle@),
        decreases n - m + 1 - i,
    {
        if matches_at(hay, i, needle) {
            assert(contains_sub(hay@, needle@));
            return true;
        }
        i = i + 1;
    }
    assert(forall|j: int| j > n - m ==> !contains_at(hay@, j, needle@));
    false
}

/// A line's trailing carriage return, if any, removed.
pub open spec fn strip_cr(l: Seq<char>) -> Seq<char> {
    if l.len() > 0 && l[l.len() - 1] == '\r' {
        l.drop_last()
    } else {
        l
    }
}

/// The lines of the suffix of `s` that begins at `pos`: split on newline,
/// each line's trailing carriage return removed, no line after a trailing
/// newline.
pub open spec fn split_lines_from(s: Seq<char>, pos: int) -> Seq<Seq<char>>
    decreases s.len() - pos when 0 <= pos <= s.len()
    via split_lines_from_decreases
{
    if pos >= s.len() {
        Seq::empty()
    } else {
        match find_from(s, '\n', pos) {
            Some(i) => seq![strip_cr(s.subrange(pos, i))] + split_lines_from(s, i + 1),
            None => seq![strip_cr(s.subrange(pos, s.len() as int))],
        }
    }
}

#[via_fn]
proof fn split_lines_from_decreases(s: Seq<char>, pos: int) {
    if 0 <= pos < s.len() {
        lemma_find_from(s, '\n', pos);
    }
}

/// The lines of `s`, as `str::lines` yields them.
pub open spec fn split_lines(s: Seq<char>) -> Seq<Seq<char>> {
    split_lines_from(s, 0)
}

/// Splits `s` into its lines.
pub fn lines_of(s: &str) -> (r: Vec<String>)
    ensures
        r.deep_view() == split_lines(s@),
{
    let n = s.unicode_len();
    let mut out: Vec<String> = Vec::new();
    let mut pos: usize = 0;
    proof {
        assert(out.deep_view() =~= Seq::<Seq<char>>::empty());
    }
    while pos < n
        invariant
            0 <= pos <= n,
            n == s@.len(),
            split_lines(s@) =~= out.deep_view() + split_lines_from(s@, pos as int),
        decreases n - pos,
    {
        let ghost prev = out.deep_view();
        let end = match find_char_from(s, '\n', pos) {
            Some(i) => i,
            None => n,
        };
        proof {
            lemma_find_from(s@, '\n', pos as int);
        }
        // drop a trailing carriage return from the line
        let line_end = if end > pos && s.get_char(end - 1) == '\r' {
            end - 1
        } else {
            end
        };
        let line = s.substring_char(pos, line_end).to_owned();
        proof {
            assert(line@ =~= strip_cr(s@.subrange(pos as int, end as int)));
        }
        out.push(line);
        proof {
            assert(out.deep_view() =~= prev.push(line@));
        }
        let old_pos = pos;
        if end < n {
            pos = end + 1;
        } else {
            pos = n;
        }
        proof {
            if end < n {
                assert(split_lines_from(s@, old_pos as int) =~= seq![strip_cr(
                    s@.subrange(old_pos as int, end as int),
                )] + split_lines_from(s@, end + 1));
            } else {
                assert(split_lines_from(s@, old_pos as int) =~= seq![strip_cr(
                    s@.subrange(old_pos as int, n as int),
                )]);
                assert(split_lines_from(s@, n as int) =~= Seq::<Seq<char>>::empty());
            }
            assert(split_lines(s@) =~= out.deep_view() + split_lines_from(s@, pos as int));
        }
    }
    proof {
        assert(split_lines_from(s@, n as int) =~= Seq::<Seq<char>>::empty());
        assert(split_lines(s@) =~= out.deep_view());
    }
    out
}

/// The whitespace-separated tokens of the suffix of `s` that begins at `pos`.
pub open spec fn tokens_from(s: Seq<char>, pos: int) -> Seq<Seq<char>>
    decreases s.len() - pos when 0 <= pos <= s.len()
    via tokens_from_decreases
{
    if pos >= s.len() {
        Seq::empty()
    } else if is_space(s[pos]) {
        tokens_from(s, pos + 1)
    } else {
        seq![s.subrange(pos, space_end(s, pos))] + tokens_from(s, space_end(s, pos))
    }
}

#[via_fn]
proof fn tokens_from_decreases(s: Seq<char>, pos: int) {
    if 0 <= pos < s.len() && !is_space(s[pos]) {
        lemma_space_end(s, pos);
        assert(space_end(s, pos) > pos);
    }
}

/// The whitespace-separated tokens of `s`.
pub open spec fn tokens_of(s: Seq<char>) -> Seq<Seq<char>> {
    tokens_from(s, 0)
}

/// Splits `s` into whitespace-separated tokens.
pub fn split_tokens(s: &str) -> (r: Vec<String>)
    ensures
        r.deep_view() == tokens_of(s@),
{
    let n = s.unicode_len();
    let mut out: Vec<String> = Vec::new();
    let mut pos: usize = 0;
    proof {
        assert(out.deep_view() =~= Seq::<Seq<char>>::empty());
    }
    while pos < n
        invariant
            0 <= pos <= n,
            n == s@.len(),
            tokens_of(s@) =~= out.deep_view() + tokens_from(s@, pos as int),
        decreases n - pos,
    {
        if is_space_char(s.get_char(pos)) {
            proof {
                assert(tokens_from(s@, pos as int) =~= tokens_from(s@, pos + 1));
            }
            pos = pos + 1;
        } else {
            let ghost prev = out.deep_view();
            let end = find_space_end(s, pos);
            proof {
                lemma_space_end(s@, pos as int);
                assert(end > pos);
            }
            let tok = s.substring_char(pos, end).to_owned();
            out.push(tok);
            proof {
                assert(out.deep_view() =~= prev.push(tok@));
                assert(tokens_from(s@, pos as int) =~= seq![s@.subrange(
                    pos as int,
                    end as int,
                )] + tokens_from(s@, end as int));
            }
            pos = end;
        }
        assert(tokens_of(s@) =~= out.deep_view() + tokens_from(s@, pos as int));
    }
    proof {
        assert(tokens_from(s@, n as int) =~= Seq::<Seq<char>>::empty());
        assert(tokens_of(s@) =~= out.deep_view());
    }
    out
}

/// The elements of `parts` from `from` on, joined with single spaces.
pub open spec fn join_spaces_from(parts: Seq<Seq<char>>, from: int) -> Seq<char>
    decreases parts.len() - from when 0 <= from <= parts.len()
{
    if from >= parts.len() {
        Seq::empty()
    } else if from == parts.len() - 1 {
        parts[from]
    } else {
        parts[from] + seq![' '] + join_spaces_from(parts, from + 1)
    }
}

/// Joins the elements of `parts` from index `from` on with single spaces.
pub fn join_with_spaces(parts: &Vec<String>, from: usize) -> (r: String)
    requires
        from <= parts@.len(),
    ensures
        r@ == join_spaces_from(parts.deep_view(), from as int),
{
    let n = parts.len();
    let mut out = String::new();
    if from >= n {
        proof {
            assert(out@ =~= join_spaces_from(parts.deep_view(), from as int));
        }
        return out;
    }
    let ghost dv = parts.deep_view();
    let mut i = from;
    while i < n
        invariant
            from <= i <= n,
            n == parts@.len(),
            dv == parts.deep_view(),
            i == from ==> out@ =~= Seq::<char>::empty(),
            from < i < n ==> join_spaces_from(dv, from as int) =~= out@ + seq![' ']
                + join_spaces_from(dv, i as int),
            i == n ==> out@ =~= join_spaces_from(dv, from as int),
        decreases n - i,
    {
        if i > from {
            out.append(" ");
        }
        out.append(parts[i].as_str());
        proof {
            reveal_strlit(" ");
            assert(" "@ =~= seq![' ']);
            assert(dv[i as int] == parts@[i as int]@);
            if i == from {
                if i + 1 < n {
                    assert(join_spaces_from(dv, from as int) =~= out@ + seq![' ']
                        + join_spaces_from(dv, i + 1));
                } else {
                    assert(out@ =~= join_spaces_from(dv, from as int));
                }
            } else {
                if i + 1 < n {
                    assert(join_spaces_from(dv, i as int) =~= dv[i as int] + seq![' ']
                        + join_spaces_from(dv, i + 1));
                    assert(join_spaces_from(dv, from as int) =~= out@ + seq![' ']
                        + join_spaces_from(dv, i + 1));
                } else {
                    assert(join_spaces_from(dv, i as int) =~= dv[i as int]);
                    assert(out@ =~= join_spaces_from(dv, from as int));
                }
            }
        }
        i = i + 1;
    }
    out
}

/// `suffix` ends `s`.
pub open spec fn ends_with(s: Seq<char>, suffix: Seq<char>) -> bool {
    s.len() >= suffix.len() && s.subrange(s.len() - suffix.len(), s.len() as int) == suffix
}

/// Every trailing copy of `suffix` removed, as `str::trim_end_matches` does.
pub open spec fn strip_suffix_all(s: Seq<char>, suffix: Seq<char>) -> Seq<char>
    decreases s.len() when suffix.len() > 0
{
    if suffix.len() > 0 && ends_with(s, suffix) {
        strip_suffix_all(s.subrange(0, s.len() - suffix.len()), suffix)
    } else {
        s
    }
}

/// Tests whether `suffix` ends the prefix `s[..end]`.
fn prefix_ends_with(s: &str, end: usize, suffix: &str) -> (r: bool)
    requires
        end <= s@.len(),
    ensures
        r == ends_with(s@.subrange(0, end as int), suffix@),
{
    let m = suffix.unicode_len();
    if m > end {
        return false;
    }
    let base = end - m;
    let mut k: usize = 0;
    while k < m
        invariant
            0 <= k <= m,
            m == suffix@.len(),
            m <= end <= s@.len(),
            base == end - m,
            forall|j: int| 0 <= j < k ==> s@[base + j] == suffix@[j],
        decreases m - k,
    {
        if s.get_char(base + k) != suffix.get_char(k) {
            proof {
                let p = s@.subrange(0, end as int);
                assert(p.subrange(p.len() - suffix@.len(), p.len() as int)[k as int]
                    == s@[base + k]);
            }
            return false;
        }
        k = k + 1;
    }
    proof {
        let p = s@.subrange(0, end as int);
        assert(p.subrange(p.len() - suffix@.len(), p.len() as int) =~= suffix@);
    }
    true
}

/// Removes every trailing copy of `suffix` from `s`.
pub fn strip_suffix_repeated(s: &str, suffix: &str) -> (r: String)
    requires
        suffix@.len() > 0,
    ensures
        r@ == strip_suffix_all(s@, suffix@),
{
    let m = suffix.unicode_len();
    let mut end = s.unicode_len();
    proof {
        assert(s@.subrange(0, s@.len() as int) =~= s@);
    }
    while prefix_ends_with(s, end, suffix)
        invariant
            0 <= end <= s@.len(),
            m == suffix@.len(),
            m > 0,
            strip_suffix_all(s@, suffix@) == strip_suffix_all(
                s@.subrange(0, end as int),
                suffix@,
            ),
        decreases end,
    {
        proof {
            let p = s@.subrange(0, end as int);
            assert(p.subrange(0, p.len() - suffix@.len()) =~= s@.subrange(
                0,
                end - suffix@.len(),
            ));
        }
        end = end - m;
    }
    let r = s.substring_char(0, end).to_owned();
    proof {
        assert(strip_suffix_all(s@.subrange(0, end as int), suffix@) == s@.subrange(
            0,
            end as int,
        ));
    }
    r
}

} // verus!
