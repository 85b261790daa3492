use crate::config::Config;
use vstd::prelude::*;

verus! {

/// The index of the first newline at or after `pos` in `s`, or `s.len()` if
/// there is none.
pub open spec fn next_newline(s: Seq<char>, pos: int) -> int
    recommends
        0 <= pos <= s.len(),
    decreases s.len() - pos,
{
    if pos < 0 || pos >= s.len() {
        s.len() as int
    } else if s[pos] == '\n' {
        pos
    } else {
        next_newline(s, pos + 1)
    }
}

/// `next_newline` points at the first newline at or after `pos`.
pub proof fn lemma_next_newline(s: Seq<char>, pos: int)
    requires
        0 <= pos <= s.len(),
    ensures
        pos <= next_newline(s, pos) <= s.len(),
        next_newline(s, pos) < s.len() ==> s[next_newline(s, pos)] == '\n',
        forall|t: int| pos <= t < next_newline(s, pos) ==> s[t] != '\n',
    decreases s.len() - pos,
{
    if pos < s.len() && s[pos] != '\n' {
        lemma_next_newline(s, pos + 1);
    }
}

/// `next_newline` is pinned down by its characterisation: if no newline
/// stands in `s[pos..k]` and `k` is a newline or the end, then `k` is it.
pub proof fn lemma_next_newline_is(s: Seq<char>, pos: int, k: int)
    requires
        0 <= pos <= k <= s.len(),
        forall|t: int| pos <= t < k ==> s[t] != '\n',
        k < s.len() ==> s[k] == '\n',
    ensures
        next_newline(s, pos) == k,
    decreases k - pos,
{
    if pos < k {
        lemma_next_newline_is(s, pos + 1, k);
    }
}

/// Where the line that starts at `pos` ends: just before its terminating
/// newline, with one carriage return stripped off a newline-terminated line.
pub open spec fn line_end(s: Seq<char>, pos: int) -> int {
    let k = next_newline(s, pos);
    if pos < k && k < s.len() && s[k - 1] == '\r' {
        k - 1
    } else {
        k
    }
}

/// The lines of `s` from position `pos` on: pieces separated by a newline or
/// by a carriage return followed by a newline, the separators dropped, and no
/// empty final piece after a terminating newline.
pub open spec fn spec_lines_from(s: Seq<char>, pos: int) -> Seq<Seq<char>>
    decreases s.len() - pos,
        when 0 <= pos <= s.len()
        via spec_lines_from_decreases
{
    if pos >= s.len() {
        Seq::empty()
    } else {
        let k = next_newline(s, pos);
        let line = s.subrange(pos, line_end(s, pos));
        if k >= s.len() {
            seq![line]
        } else {
            seq![line] + spec_lines_from(s, k + 1)
        }
    }
}

#[via_fn]
proof fn spec_lines_from_decreases(s: Seq<char>, pos: int) {
    if pos < s.len() {
        lemma_next_newline(s, pos);
    }
}

/// The lines of `s`, as `str::lines` hands them out.
pub open spec fn spec_lines(s: Seq<char>) -> Seq<Seq<char>> {
    spec_lines_from(s, 0)
}

/// `needle` stands in `hay` at position `i`.
pub open spec fn contains_at(hay: Seq<char>, needle: Seq<char>, i: int) -> bool {
    &&& 0 <= i
    &&& i + needle.len() <= hay.len()
    &&& hay.subrange(i, i + needle.len()) == needle
}

/// `needle` stands somewhere in `hay`; an empty needle stands in any hay.
pub open spec fn contains_seq(hay: Seq<char>, needle: Seq<char>) -> bool {
    exists|i: int| contains_at(hay, needle, i)
}

/// The lowercase form of a string, as `str::to_lowercase` computes it.
pub uninterp spec fn lowered(s: Seq<char>) -> Seq<char>;

/// Relies on `str::to_lowercase`: its result is a function of the input's
/// characters alone.
#[verifier::external_body]
fn to_lowercase_str(s: &str) -> (result: String)
    ensures
        result@ == lowered(s@),
{
    s.to_lowercase()
}

/// Of the given lines, those that contain `query`, in order.
pub open spec fn matching(lines: Seq<Seq<char>>, query: Seq<char>) -> Seq<Seq<char>>
    decreases lines.len(),
{
    if lines.len() == 0 {
        Seq::empty()
    } else if contains_seq(lines[0], query) {
        seq![lines[0]] + matching(lines.skip(1), query)
    } else {
        matching(lines.skip(1), query)
    }
}

/// Of the given lines, those whose lowercase form contains the lowercase
/// form of `query`, in order; the lines themselves are kept as they stand.
pub open spec fn matching_lowered(lines: Seq<Seq<char>>, query: Seq<char>) -> Seq<Seq<char>>
    decreases lines.len(),
{
    if lines.len() == 0 {
        Seq::empty()
    } else if contains_seq(lowered(lines[0]), lowered(query)) {
        seq![lines[0]] + matching_lowered(lines.skip(1), query)
    } else {
        matching_lowered(lines.skip(1), query)
    }
}

/// The views of a sequence of string slices.
pub open spec fn view_of_lines(lines: Seq<&str>) -> Seq<Seq<char>> {
    lines.map_values(|line: &str| line@)
}

/// The lines of `contents` that contain `query`.
pub open spec fn spec_search(query: Seq<char>, contents: Seq<char>) -> Seq<Seq<char>> {
    matching(spec_lines(contents), query)
}

/// The lines of `contents` that contain `query` when both are folded to
/// lowercase.
pub open spec fn spec_search_case_insensitive(query: Seq<char>, contents: Seq<char>) -> Seq<
    Seq<char>,
> {
    matching_lowered(spec_lines(contents), query)
}

/// Whether `needle` stands in `hay` starting at character position `i`.
fn matches_at(hay: &str, needle: &str, i: usize) -> (found: bool)
    requires
        i + needle@.len() <= hay@.len(),
    ensures
        found == contains_at(hay@, needle@, i as int),
{
    let n = hay.unicode_len();
    let m = needle.unicode_len();
    let mut j: usize = 0;
    while j < m
        invariant
            n == hay@.len(),
            m == needle@.len(),
            i + m <= n,
            0 <= j <= m,
            forall|t: int| 0 <= t < j ==> hay@[i + t] == needle@[t],
        decreases m - j,
    {
        if hay.get_char(i + j) != needle.get_char(j) {
            proof {
                if contains_at(hay@, needle@, i as int) {
                    assert(hay@.subrange(i as int, i + m)[j as int] == needle@[j as int]);
                }
            }
            return false;
        }
        j += 1;
    }
    proof {
        assert(hay@.subrange(i as int, i + m) =~= needle@);
    }
    true
}

/// Whether `needle` stands somewhere in `hay`, as `str::contains` decides it.
pub fn contains_str(hay: &str, needle: &str) -> (found: bool)
    ensures
        found == contains_seq(hay@, needle@),
{
    let n = hay.unicode_len();
    let m = needle.unicode_len();
    if m > n {
        return false;
    }
    if m == 0 {
        proof {
            assert(hay@.subrange(0, 0) =~= needle@);
            assert(contains_at(hay@, needle@, 0));
        }
        return true;
    }
    let mut i: usize = 0;
    while i <= n - m
        invariant
            n == hay@.len(),
            m == needle@.len(),
            1 <= m <= n,
            0 <= i <= n - m + 1,
            forall|k: int| 0 <= k < i ==> !contains_at(hay@, needle@, k),
        decreases n - m + 1 - i,
    {
        if matches_at(hay, needle, i) {
            return true;
        }
        i += 1;
    }
    false
}

/// Splits `contents` into its lines, as `str::lines` does.
pub fn split_lines<'a>(contents: &'a str) -> (lines: Vec<&'a str>)
    ensures
        view_of_lines(lines@) == spec_lines(contents@),
{
    let ghost s = contents@;
    let n = contents.unicode_len();
    let mut lines: Vec<&'a str> = Vec::new();
    let mut pos: usize = 0;
    proof {
        assert(view_of_lines(lines@) =~= Seq::<Seq<char>>::empty());
    }
    while pos < n
        invariant
            s == contents@,
            n == s.len(),
            0 <= pos <= n,
            spec_lines(s) == view_of_lines(lines@) + spec_lines_from(s, pos as int),
        decreases n - pos,
    {
        let ghost lines_before = lines@;
        let mut k: usize = pos;
        while k < n && contents.get_char(k) != '\n'
            invariant
                s == contents@,
                n == s.len(),
                pos <= k <= n,
                forall|t: int| pos <= t < k ==> s[t] != '\n',
            decreases n - k,
        {
            k += 1;
        }
        proof {
            lemma_next_newline_is(s, pos as int, k as int);
        }
        let end = if k < n && k > pos && contents.get_char(k - 1) == '\r' {
            k - 1
        } else {
            k
        };
        let line = contents.substring_char(pos, end);
        lines.push(line);
        proof {
            assert(view_of_lines(lines@) =~= view_of_lines(lines_before).push(line@));
            assert(spec_lines_from(s, pos as int) == seq![line@] + if k < n {
                spec_lines_from(s, k as int + 1)
            } else {
                Seq::<Seq<char>>::empty()
            });
            assert(view_of_lines(lines_before).push(line@) + if k < n {
                spec_lines_from(s, k as int + 1)
            } else {
                Seq::<Seq<char>>::empty()
            } =~= view_of_lines(lines_before) + spec_lines_from(s, pos as int));
        }
        if k < n {
            pos = k + 1;
        } else {
            pos = n;
            proof {
                assert(view_of_lines(lines@) + spec_lines_from(s, pos as int) =~= view_of_lines(
                    lines@,
                ));
            }
        }
    }
    proof {
        assert(view_of_lines(lines@) + spec_lines_from(s, pos as int) =~= view_of_lines(lines@));
    }
    lines
}

/// The lines of `contents` that contain `query` as a substring.
pub fn search<'a>(query: &str, contents: &'a str) -> (results: Vec<&'a str>)
    ensures
        view_of_lines(results@) == spec_search(query@, contents@),
{
    let lines = split_lines(contents);
    let mut results: Vec<&'a str> = Vec::new();
    let mut idx: usize = 0;
    let ghost all = spec_lines(contents@);
    proof {
        assert(view_of_lines(results@) =~= Seq::<Seq<char>>::empty());
        assert(all.skip(0) =~= all);
        assert(view_of_lines(results@) + matching(all, query@) =~= matching(all, query@));
    }
    while idx < lines.len()
        invariant
            view_of_lines(lines@) == all,
            idx <= lines.len(),
            matching(all, query@) == view_of_lines(results@) + matching(
                all.skip(idx as int),
                query@,
            ),
        decreases lines.len() - idx,
    {
        let ghost results_before = results@;
        let line = lines[idx];
        proof {
            assert(all.skip(idx as int)[0] == line@);
            assert(all.skip(idx as int).skip(1) =~= all.skip(idx as int + 1));
        }
        if contains_str(line, query) {
            results.push(line);
            proof {
                assert(view_of_lines(results@) =~= view_of_lines(results_before).push(line@));
                assert(view_of_lines(results_before).push(line@) + matching(
                    all.skip(idx as int + 1),
                    query@,
                ) =~= view_of_lines(results_before) + matching(all.skip(idx as int), query@));
            }
        }
        idx += 1;
    }
    proof {
        assert(all.skip(lines@.len() as int) =~= Seq::<Seq<char>>::empty());
        assert(view_of_lines(results@) + Seq::<Seq<char>>::empty() =~= view_of_lines(results@));
    }
    results
}

/// The lines of `contents` that contain `query` when both are folded to
/// lowercase; the matching lines are returned as they stand in `contents`.
pub fn search_case_insensitive<'a>(query: &str, contents: &'a str) -> (results: Vec<&'a str>)
    ensures
        view_of_lines(results@) == spec_search_case_insensitive(query@, contents@),
{
    let query_lowered = to_lowercase_str(query);
    let lines = split_lines(contents);
    let mut results: Vec<&'a str> = Vec::new();
    let mut idx: usize = 0;
    let ghost all = spec_lines(contents@);
    proof {
        assert(view_of_lines(results@) =~= Seq::<Seq<char>>::empty());
        assert(all.skip(0) =~= all);
        assert(view_of_lines(results@) + matching_lowered(all, query@) =~= matching_lowered(
            all,
            query@,
        ));
    }
    while idx < lines.len()
        invariant
            view_of_lines(lines@) == all,
            idx <= lines.len(),
            query_lowered@ == lowered(query@),
            matching_lowered(all, query@) == view_of_lines(results@) + matching_lowered(
                all.skip(idx as int),
                query@,
            ),
        decreases lines.len() - idx,
    {
        let ghost results_before = results@;
        let line = lines[idx];
        proof {
            assert(all.skip(idx as int)[0] == line@);
            assert(all.skip(idx as int).skip(1) =~= all.skip(idx as int + 1));
        }
        let line_lowered = to_lowercase_str(line);
        if contains_str(line_lowered.as_str(), query_lowered.as_str()) {
            results.push(line);
            proof {
                assert(view_of_lines(results@) =~= view_of_lines(results_before).push(line@));
                assert(view_of_lines(results_before).push(line@) + matching_lowered(
                    all.skip(idx as int + 1),
                    query@,
                ) =~= view_of_lines(results_before) + matching_lowered(
                    all.skip(idx as int),
                    query@,
                ));
            }
        }
        idx += 1;
    }
    proof {
        assert(all.skip(lines@.len() as int) =~= Seq::<Seq<char>>::empty());
        assert(view_of_lines(results@) + Seq::<Seq<char>>::empty() =~= view_of_lines(results@));
    }
    results
}

/// The lines of `contents` that the configuration asks for: matched with or
/// without regard to case, as its flag says.
pub fn matching_lines<'a>(config: &Config, contents: &'a str) -> (results: Vec<&'a str>)
    ensures
        config.should_use_case_insensitive ==> view_of_lines(results@)
            == spec_search_case_insensitive(config.query@, contents@),
        !config.should_use_case_insensitive ==> view_of_lines(results@) == spec_search(
            config.query@,
            contents@,
        ),
{
    if config.should_use_case_insensitive {
        search_case_insensitive(config.query.as_str(), contents)
    } else {
        search(config.query.as_str(), contents)
    }
}

} // verus!
