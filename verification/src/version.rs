//! The version line of a script's `main.luau`.
//!
//! Saving or building a project writes the package version into the script's
//! entry file. The first line of the form
//! `local version = "1.0.0"` (optionally `_version`, optionally annotated
//! `: string`, with any of the quotes `"`, `'` or `` ` ``) receives the new
//! version between its quotes. After a line that reads `--?ScriptVersion`
//! (surrounding whitespace ignored) any local assignment of a string literal
//! qualifies, whatever the variable's name. Every other line is kept as it is.

use vstd::prelude::*;
use crate::text::{all_ws, chars_of, is_whitespace, is_ws, same_text, trim, trim_end, trim_start, trim_str};

verus! {

/// The quote characters that may delimit the version literal.
pub open spec fn is_quote(c: char) -> bool {
    c == '"' || c == '\'' || c == '`'
}

/// The first index at or after `i` that holds no whitespace (`s.len()` if none).
pub open spec fn skip_ws(s: Seq<char>, i: int) -> int
    decreases s.len() - i,
{
    if 0 <= i < s.len() && is_ws(s[i]) {
        skip_ws(s, i + 1)
    } else {
        i
    }
}

/// The first index at or after `i` that holds `:` or `=` (`s.len()` if none).
pub open spec fn first_colon_or_equals(s: Seq<char>, i: int) -> int
    decreases s.len() - i,
{
    if 0 <= i < s.len() && s[i] != ':' && s[i] != '=' {
        first_colon_or_equals(s, i + 1)
    } else {
        i
    }
}

/// The first index at or after `i` that holds a quote (`s.len()` if none).
pub open spec fn first_quote(s: Seq<char>, i: int) -> int
    decreases s.len() - i,
{
    if 0 <= i < s.len() && !is_quote(s[i]) {
        first_quote(s, i + 1)
    } else {
        i
    }
}

/// Whether the word `w` stands in `s` at index `i`.
pub open spec fn word_at(s: Seq<char>, i: int, w: Seq<char>) -> bool {
    0 <= i && i + w.len() <= s.len() && s.subrange(i, i + w.len()) == w
}

/// The keyword that opens a version line.
pub open spec fn local_kw() -> Seq<char> {
    "local"@
}

/// The variable name of a version line (after an optional `_`).
pub open spec fn version_kw() -> Seq<char> {
    "version"@
}

/// The type of the optional annotation.
pub open spec fn string_kw() -> Seq<char> {
    "string"@
}

/// The marker after which any local string assignment counts as the version line.
pub open spec fn version_marker() -> Seq<char> {
    "--?ScriptVersion"@
}

/// From index `d`, where the assignment begins: an optional annotation
/// `: string` (whitespace allowed around `string`), then `=`, whitespace and
/// an opening quote. The index of that quote.
pub open spec fn assignment_quote(s: Seq<char>, d: int) -> Option<int> {
    let e = if 0 <= d < s.len() && s[d] == ':' {
        let f = skip_ws(s, d + 1);
        if word_at(s, f, string_kw()) {
            skip_ws(s, f + string_kw().len())
        } else {
            -1
        }
    } else {
        d
    };
    if 0 <= e < s.len() && s[e] == '=' {
        let q = skip_ws(s, e + 1);
        if 0 <= q < s.len() && is_quote(s[q]) {
            Some(q)
        } else {
            None
        }
    } else {
        None
    }
}

/// The opening quote of a plain version line: whitespace, `local`,
/// whitespace (at least one), an optional `_`, `version`, whitespace, then the
/// assignment.
pub open spec fn named_head_quote(s: Seq<char>) -> Option<int> {
    let a = skip_ws(s, 0);
    if !word_at(s, a, local_kw()) {
        None
    } else {
        let b = skip_ws(s, a + local_kw().len());
        if b == a + local_kw().len() {
            None
        } else {
            let c = if b < s.len() && s[b] == '_' {
                b + 1
            } else {
                b
            };
            if !word_at(s, c, version_kw()) {
                None
            } else {
                assignment_quote(s, skip_ws(s, c + version_kw().len()))
            }
        }
    }
}

/// The opening quote of a line after the marker: whitespace, `local`, then a
/// name part that starts with whitespace, holds at least one more character
/// and no `:` or `=`, then the assignment.
pub open spec fn any_name_head_quote(s: Seq<char>) -> Option<int> {
    let a = skip_ws(s, 0);
    if !word_at(s, a, local_kw()) {
        None
    } else {
        let p = a + local_kw().len();
        let m = first_colon_or_equals(s, p);
        if p < s.len() && is_ws(s[p]) && m >= p + 2 {
            assignment_quote(s, m)
        } else {
            None
        }
    }
}

/// The closing quote after the opening quote `q`: the next quote, which only
/// whitespace may follow.
pub open spec fn closing_quote(s: Seq<char>, q: int) -> Option<int> {
    let r = first_quote(s, q + 1);
    if r < s.len() && all_ws(s.subrange(r + 1, s.len() as int)) {
        Some(r)
    } else {
        None
    }
}

/// Where a version line splits: `Some((q, r))` when `s` is a version line
/// whose literal opens at `q` and closes at `r`. The text before the version is
/// `s[..q + 1]`, the version `s[q + 1..r]`, the text after it `s[r..]`.
/// With `any_name`, the variable may have any name (the line follows the marker).
pub open spec fn version_split(s: Seq<char>, any_name: bool) -> Option<(int, int)> {
    let head = if any_name {
        any_name_head_quote(s)
    } else {
        named_head_quote(s)
    };
    match head {
        Some(q) => match closing_quote(s, q) {
            Some(r) => Some((q, r)),
            None => None,
        },
        None => None,
    }
}

/// `s` with the text between the quotes `q` and `r` replaced by `v`.
pub open spec fn with_version(s: Seq<char>, q: int, r: int, v: Seq<char>) -> Seq<char> {
    s.subrange(0, q + 1) + v + s.subrange(r, s.len() as int)
}

/// Whether `line` is the marker line.
pub open spec fn is_marker(line: Seq<char>) -> bool {
    trim(line) == version_marker()
}

/// Whether a marker line comes before line `i`.
pub open spec fn marker_before(lines: Seq<Seq<char>>, i: int) -> bool {
    exists|j: int| 0 <= j < i && #[trigger] is_marker(lines[j])
}

/// How line `i` splits as a version line, given the lines before it.
pub open spec fn split_of_line(lines: Seq<Seq<char>>, i: int) -> Option<(int, int)> {
    if is_marker(lines[i]) {
        None
    } else {
        version_split(lines[i], marker_before(lines, i))
    }
}

/// The first version line at or after index `i`.
pub open spec fn version_line_from(lines: Seq<Seq<char>>, i: int) -> Option<int>
    decreases lines.len() - i,
{
    if i < 0 || i >= lines.len() {
        None
    } else if split_of_line(lines, i) is Some {
        Some(i)
    } else {
        version_line_from(lines, i + 1)
    }
}

/// The index of the version line: the first line that splits as one.
pub open spec fn version_line(lines: Seq<Seq<char>>) -> Option<int> {
    version_line_from(lines, 0)
}

/// The lines with the version `v` written into the version line, if there is one.
pub open spec fn rewrite_version(lines: Seq<Seq<char>>, v: Seq<char>) -> Seq<Seq<char>> {
    match version_line(lines) {
        Some(k) => {
            let (q, r) = split_of_line(lines, k)->0;
            lines.update(k, with_version(lines[k], q, r, v))
        },
        None => lines,
    }
}

/// The characters of each line.
pub open spec fn texts(lines: Seq<String>) -> Seq<Seq<char>> {
    lines.map_values(|l: String| l@)
}

fn skip_ws_exec(s: &Vec<char>, i: usize) -> (r: usize)
    requires
        i <= s.len(),
    ensures
        r == skip_ws(s@, i as int),
        i <= r <= s.len(),
{
    let mut j = i;
    while j < s.len() && is_whitespace(s[j])
        invariant
            i <= j <= s.len(),
            skip_ws(s@, i as int) == skip_ws(s@, j as int),
        decreases s.len() - j,
    {
        j = j + 1;
    }
    j
}

fn first_colon_or_equals_exec(s: &Vec<char>, i: usize) -> (r: usize)
    requires
        i <= s.len(),
    ensures
        r == first_colon_or_equals(s@, i as int),
        i <= r <= s.len(),
{
    let mut j = i;
    while j < s.len() && s[j] != ':' && s[j] != '='
        invariant
            i <= j <= s.len(),
            first_colon_or_equals(s@, i as int) == first_colon_or_equals(s@, j as int),
        decreases s.len() - j,
    {
        j = j + 1;
    }
    j
}

fn is_quote_exec(c: char) -> (r: bool)
    ensures
        r == is_quote(c),
{
    c == '"' || c == '\'' || c == '`'
}

fn first_quote_exec(s: &Vec<char>, i: usize) -> (r: usize)
    requires
        i <= s.len(),
    ensures
        r == first_quote(s@, i as int),
        i <= r <= s.len(),
{
    let mut j = i;
    while j < s.len() && !is_quote_exec(s[j])
        invariant
            i <= j <= s.len(),
            first_quote(s@, i as int) == first_quote(s@, j as int),
        decreases s.len() - j,
    {
        j = j + 1;
    }
    j
}

fn word_at_exec(s: &Vec<char>, i: usize, w: &str) -> (r: bool)
    requires
        i <= s.len(),
    ensures
        r == word_at(s@, i as int, w@),
{
    let wc = chars_of(w);
    if wc.len() > s.len() - i {
        return false;
    }
    let mut k: usize = 0;
    while k < wc.len()
        invariant
            wc@ == w@,
            i + wc.len() <= s.len(),
            k <= wc.len(),
            forall|t: int| 0 <= t < k ==> s@[i + t] == wc@[t],
        decreases wc.len() - k,
    {
        if s[i + k] != wc[k] {
            assert(s@.subrange(i as int, i + wc@.len())[k as int] != w@[k as int]);
            return false;
        }
        k = k + 1;
    }
    assert(s@.subrange(i as int, i + wc@.len()) =~= w@);
    true
}

fn all_ws_from(s: &Vec<char>, i: usize) -> (r: bool)
    requires
        i <= s.len(),
    ensures
        r == all_ws(s@.subrange(i as int, s.len() as int)),
{
    let mut j = i;
    while j < s.len()
        invariant
            i <= j <= s.len(),
            forall|t: int| i <= t < j ==> is_ws(s@[t]),
        decreases s.len() - j,
    {
        if !is_whitespace(s[j]) {
            assert(s@.subrange(i as int, s.len() as int)[j - i] == s@[j as int]);
            return false;
        }
        j = j + 1;
    }
    assert forall|t: int| 0 <= t < s.len() - i implies #[trigger] is_ws(
        s@.subrange(i as int, s.len() as int)[t],
    ) by {
        assert(s@.subrange(i as int, s.len() as int)[t] == s@[i + t]);
    }
    true
}

fn assignment_quote_exec(s: &Vec<char>, d: usize) -> (r: Option<usize>)
    requires
        d <= s.len(),
    ensures
        r matches Some(q) ==> q < s.len(),
        r matches Some(q) ==> assignment_quote(s@, d as int) == Some(q as int),
        r is None ==> assignment_quote(s@, d as int) is None,
{
    let e: usize;
    if d < s.len() && s[d] == ':' {
        let f = skip_ws_exec(s, d + 1);
        if !word_at_exec(s, f, "string") {
            return None;
        }
        let wlen = chars_of("string").len();
        e = skip_ws_exec(s, f + wlen);
    } else {
        e = d;
    }
    if e < s.len() && s[e] == '=' {
        let q = skip_ws_exec(s, e + 1);
        if q < s.len() && is_quote_exec(s[q]) {
            Some(q)
        } else {
            None
        }
    } else {
        None
    }
}

fn named_head_quote_exec(s: &Vec<char>) -> (r: Option<usize>)
    ensures
        r matches Some(q) ==> q < s.len(),
        r matches Some(q) ==> named_head_quote(s@) == Some(q as int),
        r is None ==> named_head_quote(s@) is None,
{
    let a = skip_ws_exec(s, 0);
    if !word_at_exec(s, a, "local") {
        return None;
    }
    let llen = chars_of("local").len();
    let b = skip_ws_exec(s, a + llen);
    if b == a + llen {
        return None;
    }
    let c = if b < s.len() && s[b] == '_' {
        b + 1
    } else {
        b
    };
    if !word_at_exec(s, c, "version") {
        return None;
    }
    let vlen = chars_of("version").len();
    let d = skip_ws_exec(s, c + vlen);
    assignment_quote_exec(s, d)
}

fn any_name_head_quote_exec(s: &Vec<char>) -> (r: Option<usize>)
    ensures
        r matches Some(q) ==> q < s.len(),
        r matches Some(q) ==> any_name_head_quote(s@) == Some(q as int),
        r is None ==> any_name_head_quote(s@) is None,
{
    let a = skip_ws_exec(s, 0);
    if !word_at_exec(s, a, "local") {
        return None;
    }
    let p = a + chars_of("local").len();
    let m = first_colon_or_equals_exec(s, p);
    if p < s.len() && is_whitespace(s[p]) && m - p >= 2 {
        assignment_quote_exec(s, m)
    } else {
        None
    }
}

/// Where the line with characters `s` splits as a version line, if it is one
/// (see `version_split`).
pub fn split_version_line(s: &Vec<char>, any_name: bool) -> (r: Option<(usize, usize)>)
    ensures
        r matches Some((q, e)) ==> version_split(s@, any_name) == Some((q as int, e as int)),
        r is None ==> version_split(s@, any_name) is None,
{
    let head = if any_name {
        any_name_head_quote_exec(s)
    } else {
        named_head_quote_exec(s)
    };
    match head {
        Some(q) => {
            let e = first_quote_exec(s, q + 1);
            if e < s.len() && all_ws_from(s, e + 1) {
                Some((q, e))
            } else {
                None
            }
        },
        None => None,
    }
}


/// Whether the line is the marker `--?ScriptVersion`, surrounding whitespace ignored.
pub fn is_marker_line(line: &str) -> (r: bool)
    ensures
        r == is_marker(line@),
{
    let t = trim_str(line);
    same_text(t, "--?ScriptVersion")
}

fn line_with_version(line: &str, n: usize, q: usize, r: usize, v: &str) -> (out: String)
    requires
        line@.len() == n,
        q < r < n,
    ensures
        out@ == with_version(line@, q as int, r as int, v@),
{
    let mut out = line.substring_char(0, q + 1).to_owned();
    out.append(v);
    out.append(line.substring_char(r, n));
    out
}

proof fn lemma_version_line_from_found(lines: Seq<Seq<char>>, i: int, k: int)
    requires
        0 <= i <= k < lines.len(),
        forall|j: int| i <= j < k ==> split_of_line(lines, j) is None,
        split_of_line(lines, k) is Some,
    ensures
        version_line_from(lines, i) == Some(k),
    decreases k - i,
{
    if i < k {
        lemma_version_line_from_found(lines, i + 1, k);
    }
}

proof fn lemma_version_line_from_none(lines: Seq<Seq<char>>, i: int)
    requires
        0 <= i <= lines.len(),
        forall|j: int| i <= j < lines.len() ==> split_of_line(lines, j) is None,
    ensures
        version_line_from(lines, i) is None,
    decreases lines.len() - i,
{
    if i < lines.len() {
        lemma_version_line_from_none(lines, i + 1);
    }
}

proof fn lemma_marker_before_step(lines: Seq<Seq<char>>, i: int)
    requires
        0 <= i < lines.len(),
    ensures
        marker_before(lines, i + 1) == (marker_before(lines, i) || is_marker(lines[i])),
{
    if is_marker(lines[i]) {
        assert(0 <= i < i + 1 && is_marker(lines[i]));
    }
    if marker_before(lines, i + 1) && !is_marker(lines[i]) {
        let j = choose|j: int| 0 <= j < i + 1 && #[trigger] is_marker(lines[j]);
        assert(j < i);
    }
}

/// Writes the version `version` into the version line of `lines`, the lines of
/// a script's `main.luau`; every other line is returned as it was.
pub fn rewrite_version_lines(lines: &Vec<String>, version: &str) -> (out: Vec<String>)
    ensures
        texts(out@) == rewrite_version(texts(lines@), version@),
{
    let ghost ls = texts(lines@);
    let mut out: Vec<String> = Vec::new();
    let mut found: bool = false;
    let mut any_name: bool = false;
    let ghost mut k: int = -1;
    let ghost mut q0: int = 0;
    let ghost mut r0: int = 0;
    for i in 0..lines.len()
        invariant
            ls == texts(lines@),
            ls.len() == lines.len(),
            out.len() == i,
            !found ==> any_name == marker_before(ls, i as int),
            !found ==> forall|j: int| 0 <= j < i ==> split_of_line(ls, j) is None,
            found ==> 0 <= k < i,
            found ==> forall|j: int| 0 <= j < k ==> split_of_line(ls, j) is None,
            found ==> split_of_line(ls, k) == Some((q0, r0)),
            found ==> out@[k]@ == with_version(ls[k], q0, r0, version@),
            forall|j: int| 0 <= j < i && !(found && j == k) ==> out@[j]@ == ls[j],
    {
        let line = &lines[i];
        assert(line@ == ls[i as int]);
        let mut rewritten: Option<String> = None;
        if !found {
            proof {
                lemma_marker_before_step(ls, i as int);
            }
            if is_marker_line(line.as_str()) {
                any_name = true;
            } else {
                let cs = chars_of(line.as_str());
                match split_version_line(&cs, any_name) {
                    Some((q, r)) => {
                        proof {
                            lemma_first_quote_bounds(cs@, q + 1);
                        }
                        rewritten = Some(line_with_version(line.as_str(), cs.len(), q, r, version));
                        found = true;
                        proof {
                            k = i as int;
                            q0 = q as int;
                            r0 = r as int;
                        }
                    },
                    None => {},
                }
            }
        }
        match rewritten {
            Some(new_line) => out.push(new_line),
            None => out.push(line.clone()),
        }
    }
    proof {
        if found {
            lemma_version_line_from_found(ls, 0, k);
            assert(texts(out@) =~= ls.update(k, with_version(ls[k], q0, r0, version@)));
        } else {
            lemma_version_line_from_none(ls, 0);
            assert(texts(out@) =~= ls);
        }
    }
    out
}

/// The first quote at or after `i` lies between `i` and the end of `s`.
pub proof fn lemma_first_quote_bounds(s: Seq<char>, i: int)
    requires
        0 <= i,
    ensures
        i <= first_quote(s, i),
        i <= s.len() ==> first_quote(s, i) <= s.len(),
    decreases s.len() - i,
{
    if 0 <= i < s.len() && !is_quote(s[i]) {
        lemma_first_quote_bounds(s, i + 1);
    }
}


/// The version literal of the lines' version line, if they have one.
pub open spec fn version_text(lines: Seq<Seq<char>>) -> Option<Seq<char>> {
    match version_line(lines) {
        Some(k) => {
            let (q, r) = split_of_line(lines, k)->0;
            Some(lines[k].subrange(q + 1, r))
        },
        None => None,
    }
}

/// Whether `v` can stand between two quotes: it holds no quote character.
pub open spec fn quote_free(v: Seq<char>) -> bool {
    forall|i: int| 0 <= i < v.len() ==> !is_quote(#[trigger] v[i])
}

/// `s` and `t` hold the same characters below index `n`.
pub open spec fn agree_below(s: Seq<char>, t: Seq<char>, n: int) -> bool {
    0 <= n <= s.len() && n <= t.len() && forall|i: int| 0 <= i < n ==> s[i] == t[i]
}

proof fn lemma_skip_ws_ge(s: Seq<char>, i: int)
    requires
        0 <= i,
    ensures
        i <= skip_ws(s, i),
        i <= s.len() ==> skip_ws(s, i) <= s.len(),
    decreases s.len() - i,
{
    if 0 <= i < s.len() && is_ws(s[i]) {
        lemma_skip_ws_ge(s, i + 1);
    }
}

proof fn lemma_first_colon_or_equals_ge(s: Seq<char>, i: int)
    requires
        0 <= i,
    ensures
        i <= first_colon_or_equals(s, i),
    decreases s.len() - i,
{
    if 0 <= i < s.len() && s[i] != ':' && s[i] != '=' {
        lemma_first_colon_or_equals_ge(s, i + 1);
    }
}

proof fn lemma_skip_ws_local(s: Seq<char>, t: Seq<char>, n: int, i: int)
    requires
        agree_below(s, t, n),
        0 <= i,
        skip_ws(s, i) < n,
    ensures
        skip_ws(t, i) == skip_ws(s, i),
    decreases s.len() - i,
{
    lemma_skip_ws_ge(s, i);
    if 0 <= i < s.len() && is_ws(s[i]) {
        lemma_skip_ws_ge(s, i + 1);
        lemma_skip_ws_local(s, t, n, i + 1);
    }
}

proof fn lemma_first_colon_or_equals_local(s: Seq<char>, t: Seq<char>, n: int, i: int)
    requires
        agree_below(s, t, n),
        0 <= i,
        first_colon_or_equals(s, i) < n,
    ensures
        first_colon_or_equals(t, i) == first_colon_or_equals(s, i),
    decreases s.len() - i,
{
    lemma_first_colon_or_equals_ge(s, i);
    if 0 <= i < s.len() && s[i] != ':' && s[i] != '=' {
        lemma_first_colon_or_equals_ge(s, i + 1);
        lemma_first_colon_or_equals_local(s, t, n, i + 1);
    }
}

proof fn lemma_word_at_local(s: Seq<char>, t: Seq<char>, n: int, i: int, w: Seq<char>)
    requires
        agree_below(s, t, n),
        word_at(s, i, w),
        i + w.len() <= n,
    ensures
        word_at(t, i, w),
{
    assert(t.subrange(i, i + w.len()) =~= s.subrange(i, i + w.len())) by {
        assert forall|k: int| 0 <= k < w.len() implies #[trigger] t.subrange(i, i + w.len())[k]
            == s.subrange(i, i + w.len())[k] by {
            assert(s[i + k] == t[i + k]);
        }
    }
}

proof fn lemma_assignment_quote_local(s: Seq<char>, t: Seq<char>, d: int, q: int)
    requires
        0 <= d,
        assignment_quote(s, d) == Some(q),
        agree_below(s, t, q + 1),
    ensures
        assignment_quote(t, d) == Some(q),
{
    let n = q + 1;
    let e = if 0 <= d < s.len() && s[d] == ':' {
        let f = skip_ws(s, d + 1);
        if word_at(s, f, string_kw()) {
            skip_ws(s, f + string_kw().len())
        } else {
            -1
        }
    } else {
        d
    };
    assert(0 <= e < s.len() && s[e] == '=');
    lemma_skip_ws_ge(s, e + 1);
    assert(e < q);
    if 0 <= d < s.len() && s[d] == ':' {
        let f = skip_ws(s, d + 1);
        lemma_skip_ws_ge(s, d + 1);
        lemma_skip_ws_ge(s, f + string_kw().len());
        assert(d < n && t[d] == ':');
        lemma_skip_ws_local(s, t, n, d + 1);
        lemma_word_at_local(s, t, n, f, string_kw());
        lemma_skip_ws_local(s, t, n, f + string_kw().len());
    } else {
        if 0 <= d < t.len() && t[d] == ':' {
            assert(d <= e < n);
            assert(s[d] == t[d]);
        }
    }
    assert(t[e] == s[e]);
    lemma_skip_ws_local(s, t, n, e + 1);
    assert(t[q] == s[q]);
}

proof fn lemma_head_quote_local(s: Seq<char>, t: Seq<char>, any_name: bool, q: int)
    requires
        (if any_name { any_name_head_quote(s) } else { named_head_quote(s) }) == Some(q),
        agree_below(s, t, q + 1),
    ensures
        (if any_name { any_name_head_quote(t) } else { named_head_quote(t) }) == Some(q),
{
    let n = q + 1;
    let a = skip_ws(s, 0);
    lemma_skip_ws_ge(s, 0);
    assert(word_at(s, a, local_kw()));
    if any_name {
        let p = a + local_kw().len();
        let m = first_colon_or_equals(s, p);
        lemma_first_colon_or_equals_ge(s, p);
        assert(assignment_quote(s, m) == Some(q));
        assert(m < q) by {
            assert(0 <= m < s.len() && (s[m] == ':' || s[m] == '='));
            lemma_assignment_quote_after(s, m);
        }
        lemma_skip_ws_local(s, t, n, 0);
        lemma_word_at_local(s, t, n, a, local_kw());
        lemma_first_colon_or_equals_local(s, t, n, p);
        assert(t[p] == s[p]);
        lemma_assignment_quote_local(s, t, m, q);
    } else {
        let b = skip_ws(s, a + local_kw().len());
        lemma_skip_ws_ge(s, a + local_kw().len());
        let c = if b < s.len() && s[b] == '_' {
            b + 1
        } else {
            b
        };
        assert(word_at(s, c, version_kw()));
        let d = skip_ws(s, c + version_kw().len());
        lemma_skip_ws_ge(s, c + version_kw().len());
        assert(assignment_quote(s, d) == Some(q));
        assert(d < q) by {
            lemma_assignment_quote_after(s, d);
        }
        lemma_skip_ws_local(s, t, n, 0);
        lemma_word_at_local(s, t, n, a, local_kw());
        lemma_skip_ws_local(s, t, n, a + local_kw().len());
        if b < s.len() && s[b] == '_' {
            assert(t[b] == s[b]);
        } else if b < t.len() && t[b] == '_' {
            assert(b < n);
            assert(t[b] == s[b]);
        }
        lemma_word_at_local(s, t, n, c, version_kw());
        lemma_skip_ws_local(s, t, n, c + version_kw().len());
        lemma_assignment_quote_local(s, t, d, q);
    }
}

proof fn lemma_assignment_quote_after(s: Seq<char>, d: int)
    requires
        0 <= d,
        assignment_quote(s, d) is Some,
    ensures
        d < assignment_quote(s, d)->0,
{
    if 0 <= d < s.len() && s[d] == ':' {
        let f = skip_ws(s, d + 1);
        lemma_skip_ws_ge(s, d + 1);
        lemma_skip_ws_ge(s, f + string_kw().len());
        let e = skip_ws(s, f + string_kw().len());
        lemma_skip_ws_ge(s, e + 1);
    } else {
        lemma_skip_ws_ge(s, d + 1);
    }
}

proof fn lemma_first_quote_at(s: Seq<char>, i: int, j: int)
    requires
        0 <= i <= j < s.len(),
        is_quote(s[j]),
        forall|k: int| i <= k < j ==> !is_quote(s[k]),
    ensures
        first_quote(s, i) == j,
    decreases j - i,
{
    if i < j {
        lemma_first_quote_at(s, i + 1, j);
    }
}

proof fn lemma_first_quote_found(s: Seq<char>, i: int)
    requires
        0 <= i,
        first_quote(s, i) < s.len(),
    ensures
        is_quote(s[first_quote(s, i)]),
        forall|k: int| i <= k < first_quote(s, i) ==> !is_quote(s[k]),
    decreases s.len() - i,
{
    if 0 <= i < s.len() && !is_quote(s[i]) {
        lemma_first_quote_found(s, i + 1);
    }
}

/// A version line with a new quote-free version is a version line again: the
/// opening quote stays where it was and the closing quote follows the new version.
pub proof fn lemma_split_with_version(s: Seq<char>, any_name: bool, v: Seq<char>)
    requires
        version_split(s, any_name) is Some,
        quote_free(v),
    ensures
        ({
            let (q, r) = version_split(s, any_name)->0;
            version_split(with_version(s, q, r, v), any_name) == Some((q, q + 1 + v.len()))
        }),
{
    let (q, r) = version_split(s, any_name)->0;
    let t = with_version(s, q, r, v);
    let head = if any_name {
        any_name_head_quote(s)
    } else {
        named_head_quote(s)
    };
    assert(head == Some(q));
    lemma_first_quote_bounds(s, q + 1);
    lemma_head_bounds(s, any_name);
    assert(agree_below(s, t, q + 1));
    lemma_head_quote_local(s, t, any_name, q);
    lemma_first_quote_found(s, q + 1);
    let j = q + 1 + v.len();
    assert(t[j] == s[r]);
    assert forall|k: int| q + 1 <= k < j implies !is_quote(t[k]) by {
        assert(t[k] == v[k - q - 1]);
    }
    lemma_first_quote_at(t, q + 1, j);
    assert(t.subrange(j + 1, t.len() as int) =~= s.subrange(r + 1, s.len() as int));
}

proof fn lemma_head_bounds(s: Seq<char>, any_name: bool)
    requires
        (if any_name { any_name_head_quote(s) } else { named_head_quote(s) }) is Some,
    ensures
        ({
            let q = (if any_name { any_name_head_quote(s) } else { named_head_quote(s) })->0;
            0 <= q < s.len() && is_quote(s[q])
        }),
{
    lemma_skip_ws_ge(s, 0);
}

proof fn lemma_trim_start_from(s: Seq<char>, i: int)
    requires
        0 <= i <= s.len(),
    ensures
        trim_start(s.subrange(i, s.len() as int)) == s.subrange(skip_ws(s, i), s.len() as int),
    decreases s.len() - i,
{
    if i < s.len() && is_ws(s[i]) {
        assert(s.subrange(i, s.len() as int).drop_first() =~= s.subrange(i + 1, s.len() as int));
        lemma_trim_start_from(s, i + 1);
    }
}

proof fn lemma_trim_end_head(u: Seq<char>)
    requires
        u.len() > 0,
        !is_ws(u[0]),
    ensures
        trim_end(u).len() > 0,
        trim_end(u)[0] == u[0],
    decreases u.len(),
{
    if is_ws(u.last()) {
        assert(u.len() > 1);
        lemma_trim_end_head(u.drop_last());
    }
}

/// A version line is never the marker line.
pub proof fn lemma_version_line_not_marker(s: Seq<char>, any_name: bool)
    requires
        version_split(s, any_name) is Some,
    ensures
        !is_marker(s),
{
    let a = skip_ws(s, 0);
    lemma_skip_ws_ge(s, 0);
    assert(word_at(s, a, local_kw()));
    reveal_strlit("local");
    reveal_strlit("--?ScriptVersion");
    assert(s[a] == s.subrange(a, a + local_kw().len())[0]);
    assert(s[a] == 'l');
    assert(s.subrange(0, s.len() as int) =~= s);
    lemma_trim_start_from(s, 0);
    let u = s.subrange(a, s.len() as int);
    assert(u[0] == 'l');
    lemma_trim_end_head(u);
    assert(trim(s)[0] == 'l');
    assert(version_marker()[0] == '-');
}

proof fn lemma_marker_before_same(a: Seq<Seq<char>>, b: Seq<Seq<char>>, i: int)
    requires
        0 <= i <= a.len(),
        i <= b.len(),
        forall|j: int| 0 <= j < i ==> a[j] == b[j],
    ensures
        marker_before(a, i) == marker_before(b, i),
{
    if marker_before(a, i) {
        let j = choose|j: int| 0 <= j < i && #[trigger] is_marker(a[j]);
        assert(is_marker(b[j]));
    }
    if marker_before(b, i) {
        let j = choose|j: int| 0 <= j < i && #[trigger] is_marker(b[j]);
        assert(is_marker(a[j]));
    }
}

proof fn lemma_version_line_is_first(lines: Seq<Seq<char>>, i: int)
    requires
        0 <= i <= lines.len(),
        version_line_from(lines, i) is Some,
    ensures
        i <= version_line_from(lines, i)->0 < lines.len(),
        split_of_line(lines, version_line_from(lines, i)->0) is Some,
        forall|j: int|
            i <= j < version_line_from(lines, i)->0 ==> split_of_line(lines, j) is None,
    decreases lines.len() - i,
{
    if i < lines.len() && split_of_line(lines, i) is None {
        lemma_version_line_is_first(lines, i + 1);
    }
}

/// Writing a version and reading it back: when the lines have a version line and
/// `v` holds no quote character, the lines that `rewrite_version` returns have
/// their version line at the same index, and its version literal is `v`.
pub proof fn law_version_read_back(lines: Seq<Seq<char>>, v: Seq<char>)
    requires
        version_line(lines) is Some,
        quote_free(v),
    ensures
        version_line(rewrite_version(lines, v)) == version_line(lines),
        version_text(rewrite_version(lines, v)) == Some(v),
{
    let k = version_line(lines)->0;
    lemma_version_line_is_first(lines, 0);
    let (q, r) = split_of_line(lines, k)->0;
    let any_name = marker_before(lines, k);
    let s = lines[k];
    let t = with_version(s, q, r, v);
    let out = rewrite_version(lines, v);
    assert(out == lines.update(k, t));
    assert forall|j: int| 0 <= j < k implies split_of_line(out, j) is None by {
        assert(split_of_line(lines, j) is None);
        assert(out[j] == lines[j]);
        lemma_marker_before_same(lines, out, j);
    }
    lemma_marker_before_same(lines, out, k);
    assert(!is_marker(s));
    lemma_split_with_version(s, any_name, v);
    lemma_version_line_not_marker(t, any_name);
    assert(split_of_line(out, k) == Some((q, q + 1 + v.len())));
    lemma_version_line_from_found(out, 0, k);
    assert(out[k].subrange(q + 1, q + 1 + v.len()) =~= v);
}

/// Writing the same version twice changes nothing more than writing it once
/// (for a version without quote characters).
pub proof fn law_version_rewrite_idempotent(lines: Seq<Seq<char>>, v: Seq<char>)
    requires
        quote_free(v),
    ensures
        rewrite_version(rewrite_version(lines, v), v) == rewrite_version(lines, v),
{
    if version_line(lines) is Some {
        law_version_read_back(lines, v);
        let out = rewrite_version(lines, v);
        let k = version_line(out)->0;
        let (q, r) = split_of_line(out, k)->0;
        law_same_version_unchanged(out, v);
    }
}

/// Writing the version that the version line already holds leaves the lines as
/// they are.
pub proof fn law_same_version_unchanged(lines: Seq<Seq<char>>, v: Seq<char>)
    requires
        version_text(lines) == Some(v),
    ensures
        rewrite_version(lines, v) == lines,
{
    let k = version_line(lines)->0;
    lemma_version_line_is_first(lines, 0);
    let (q, r) = split_of_line(lines, k)->0;
    let s = lines[k];
    lemma_first_quote_bounds(s, q + 1);
    lemma_head_bounds(s, marker_before(lines, k));
    assert(with_version(s, q, r, v) =~= s);
    assert(lines.update(k, s) =~= lines);
}

/// Lines without a version line are returned unchanged, whatever the version.
pub proof fn law_no_version_line_unchanged(lines: Seq<Seq<char>>, v: Seq<char>)
    requires
        version_line(lines) is None,
    ensures
        rewrite_version(lines, v) == lines,
{
}


/// `s[i..j]` holds whitespace only.
pub open spec fn ws_run(s: Seq<char>, i: int, j: int) -> bool {
    0 <= i <= j <= s.len() && forall|k: int| i <= k < j ==> is_ws(#[trigger] s[k])
}

/// `s[i..j]` holds no `:` and no `=`.
pub open spec fn no_colon_or_equals(s: Seq<char>, i: int, j: int) -> bool {
    0 <= i <= j <= s.len() && forall|k: int| i <= k < j ==> #[trigger] s[k] != ':' && s[k] != '='
}

/// `s[d..e]` is the optional type annotation: empty, or `:`, whitespace,
/// `string`, whitespace.
pub open spec fn annotation_between(s: Seq<char>, d: int, e: int) -> bool {
    ||| d == e
    ||| (0 <= d < s.len() && s[d] == ':' && exists|f: int|
        ws_run(s, d + 1, f) && #[trigger] word_at(s, f, string_kw()) && ws_run(
            s,
            f + string_kw().len(),
            e,
        ))
}

/// `s[d..q + 1]` is the assignment: the optional annotation, `=`, whitespace
/// and the opening quote at `q`.
pub open spec fn assignment_between(s: Seq<char>, d: int, q: int) -> bool {
    exists|e: int|
        d <= e < q < s.len() && #[trigger] annotation_between(s, d, e) && s[e] == '=' && ws_run(
            s,
            e + 1,
            q,
        ) && is_quote(s[q])
}

/// `s[q + 1..]` is the rest of the literal: characters other than quotes, the
/// closing quote at `r`, then whitespace to the end.
pub open spec fn literal_between(s: Seq<char>, q: int, r: int) -> bool {
    &&& 0 <= q < r < s.len()
    &&& forall|k: int| q < k < r ==> !is_quote(#[trigger] s[k])
    &&& is_quote(s[r])
    &&& ws_run(s, r + 1, s.len() as int)
}

/// `s` reads, from start to end,
/// `\s*local\s+_?version\s*(:\s*string\s*)?=\s*Q[^Q]*Q\s*` (with `Q` any of the
/// three quotes and `\s` whitespace), its opening quote at `q` and its closing
/// quote at `r`.
pub open spec fn is_named_version_line(s: Seq<char>, q: int, r: int) -> bool {
    exists|a: int, b: int, c: int, d: int|
        #![trigger ws_run(s, 0, a), ws_run(s, a + local_kw().len(), b), ws_run(s, c + version_kw().len(), d)]
        ws_run(s, 0, a) && word_at(s, a, local_kw()) && a + local_kw().len() < b && ws_run(
            s,
            a + local_kw().len(),
            b,
        ) && (c == b || (c == b + 1 && s[b] == '_')) && word_at(s, c, version_kw()) && ws_run(
            s,
            c + version_kw().len(),
            d,
        ) && assignment_between(s, d, q) && literal_between(s, q, r)
}

/// `s` reads, from start to end,
/// `\s*local\s+[^:=]+\s*(:\s*string\s*)?=\s*Q[^Q]*Q\s*`, its opening quote at
/// `q` and its closing quote at `r`.
pub open spec fn is_any_name_version_line(s: Seq<char>, q: int, r: int) -> bool {
    exists|a: int, b: int, g: int, d: int|
        #![trigger ws_run(s, 0, a), ws_run(s, a + local_kw().len(), b), no_colon_or_equals(s, b, g), ws_run(s, g, d)]
        ws_run(s, 0, a) && word_at(s, a, local_kw()) && a + local_kw().len() < b && b < g
            && ws_run(s, a + local_kw().len(), b) && no_colon_or_equals(s, b, g) && ws_run(s, g, d)
            && assignment_between(s, d, q) && literal_between(s, q, r)
}

proof fn lemma_skip_ws_run(s: Seq<char>, i: int)
    requires
        0 <= i <= s.len(),
    ensures
        ws_run(s, i, skip_ws(s, i)),
        skip_ws(s, i) < s.len() ==> !is_ws(s[skip_ws(s, i)]),
    decreases s.len() - i,
{
    lemma_skip_ws_ge(s, i);
    if i < s.len() && is_ws(s[i]) {
        lemma_skip_ws_run(s, i + 1);
    }
}

proof fn lemma_skip_ws_stops(s: Seq<char>, i: int, j: int)
    requires
        ws_run(s, i, j),
        j < s.len(),
        !is_ws(s[j]),
    ensures
        skip_ws(s, i) == j,
    decreases j - i,
{
    if i < j {
        lemma_skip_ws_stops(s, i + 1, j);
    }
}

proof fn lemma_first_colon_or_equals_found(s: Seq<char>, i: int)
    requires
        0 <= i <= s.len(),
    ensures
        no_colon_or_equals(s, i, first_colon_or_equals(s, i)),
    decreases s.len() - i,
{
    lemma_first_colon_or_equals_ge(s, i);
    if i < s.len() && s[i] != ':' && s[i] != '=' {
        lemma_first_colon_or_equals_found(s, i + 1);
    }
}

proof fn lemma_first_colon_or_equals_stops(s: Seq<char>, i: int, j: int)
    requires
        no_colon_or_equals(s, i, j),
        j < s.len(),
        s[j] == ':' || s[j] == '=',
    ensures
        first_colon_or_equals(s, i) == j,
    decreases j - i,
{
    if i < j {
        lemma_first_colon_or_equals_stops(s, i + 1, j);
    }
}

proof fn lemma_word_first(s: Seq<char>, i: int, w: Seq<char>)
    requires
        word_at(s, i, w),
        w.len() > 0,
    ensures
        s[i] == w[0],
{
    assert(s.subrange(i, i + w.len())[0] == s[i]);
}

/// The assignment the scanner finds is the assignment the pattern describes.
proof fn lemma_assignment_iff(s: Seq<char>, d: int, q: int)
    requires
        0 <= d <= s.len(),
    ensures
        assignment_quote(s, d) == Some(q) <==> assignment_between(s, d, q),
{
    reveal_strlit("string");
    if assignment_quote(s, d) == Some(q) {
        let e = if 0 <= d < s.len() && s[d] == ':' {
            let f = skip_ws(s, d + 1);
            lemma_skip_ws_run(s, d + 1);
            lemma_skip_ws_ge(s, d + 1);
            lemma_skip_ws_ge(s, f + string_kw().len());
            lemma_skip_ws_run(s, f + string_kw().len());
            assert(word_at(s, f, string_kw()));
            skip_ws(s, f + string_kw().len())
        } else {
            d
        };
        lemma_skip_ws_ge(s, e + 1);
        lemma_skip_ws_run(s, e + 1);
        assert(annotation_between(s, d, e));
        assert(d <= e < q < s.len() && annotation_between(s, d, e) && s[e] == '=' && ws_run(
            s,
            e + 1,
            q,
        ) && is_quote(s[q]));
    }
    if assignment_between(s, d, q) {
        let e = choose|e: int|
            d <= e < q < s.len() && #[trigger] annotation_between(s, d, e) && s[e] == '='
                && ws_run(s, e + 1, q) && is_quote(s[q]);
        if d == e {
            assert(s[d] != ':');
        } else {
            let f = choose|f: int|
                ws_run(s, d + 1, f) && #[trigger] word_at(s, f, string_kw()) && ws_run(
                    s,
                    f + string_kw().len(),
                    e,
                );
            lemma_word_first(s, f, string_kw());
            lemma_skip_ws_stops(s, d + 1, f);
            lemma_skip_ws_stops(s, f + string_kw().len(), e);
        }
        lemma_skip_ws_stops(s, e + 1, q);
    }
}

proof fn lemma_closing_iff(s: Seq<char>, q: int, r: int)
    requires
        0 <= q < s.len(),
    ensures
        closing_quote(s, q) == Some(r) <==> literal_between(s, q, r),
{
    if closing_quote(s, q) == Some(r) {
        lemma_first_quote_bounds(s, q + 1);
        lemma_first_quote_found(s, q + 1);
        assert forall|k: int| r + 1 <= k < s.len() implies is_ws(#[trigger] s[k]) by {
            assert(s.subrange(r + 1, s.len() as int)[k - r - 1] == s[k]);
        }
    }
    if literal_between(s, q, r) {
        lemma_first_quote_at(s, q + 1, r);
        assert forall|k: int| 0 <= k < s.len() - (r + 1) implies #[trigger] is_ws(
            s.subrange(r + 1, s.len() as int)[k],
        ) by {
            assert(s.subrange(r + 1, s.len() as int)[k] == s[r + 1 + k]);
        }
    }
}

/// The scanner that `version_split` describes finds exactly the lines of the
/// version pattern: a line splits at `(q, r)` without the marker exactly when
/// it reads `\s*local\s+_?version\s*(:\s*string\s*)?=\s*Q[^Q]*Q\s*` with those
/// quotes, and after the marker exactly when it reads
/// `\s*local\s+[^:=]+\s*(:\s*string\s*)?=\s*Q[^Q]*Q\s*`.
pub proof fn law_version_split_is_pattern(s: Seq<char>, q: int, r: int)
    ensures
        version_split(s, false) == Some((q, r)) <==> is_named_version_line(s, q, r),
        version_split(s, true) == Some((q, r)) <==> is_any_name_version_line(s, q, r),
{
    lemma_named_iff(s, q, r);
    lemma_any_name_iff(s, q, r);
}

proof fn lemma_named_iff(s: Seq<char>, q: int, r: int)
    ensures
        version_split(s, false) == Some((q, r)) <==> is_named_version_line(s, q, r),
{
    reveal_strlit("local");
    reveal_strlit("version");
    let a = skip_ws(s, 0);
    lemma_skip_ws_run(s, 0);
    if version_split(s, false) == Some((q, r)) {
        let b = skip_ws(s, a + local_kw().len());
        lemma_skip_ws_run(s, a + local_kw().len());
        let c = if b < s.len() && s[b] == '_' {
            b + 1
        } else {
            b
        };
        let d = skip_ws(s, c + version_kw().len());
        lemma_skip_ws_run(s, c + version_kw().len());
        lemma_assignment_iff(s, d, q);
        lemma_head_bounds(s, false);
        lemma_closing_iff(s, q, r);
        assert(ws_run(s, 0, a) && ws_run(s, a + local_kw().len(), b) && ws_run(
            s,
            c + version_kw().len(),
            d,
        ));
    }
    if is_named_version_line(s, q, r) {
        let (a2, b, c, d) = choose|a2: int, b: int, c: int, d: int|
            #![trigger ws_run(s, 0, a2), ws_run(s, a2 + local_kw().len(), b), ws_run(s, c + version_kw().len(), d)]
            ws_run(s, 0, a2) && word_at(s, a2, local_kw()) && a2 + local_kw().len() < b && ws_run(
                s,
                a2 + local_kw().len(),
                b,
            ) && (c == b || (c == b + 1 && s[b] == '_')) && word_at(s, c, version_kw()) && ws_run(
                s,
                c + version_kw().len(),
                d,
            ) && assignment_between(s, d, q) && literal_between(s, q, r);
        lemma_word_first(s, a2, local_kw());
        lemma_skip_ws_stops(s, 0, a2);
        lemma_word_first(s, c, version_kw());
        if c == b {
            assert(s[b] == 'v');
        }
        lemma_skip_ws_stops(s, a2 + local_kw().len(), b);
        let e = choose|e: int|
            d <= e < q < s.len() && #[trigger] annotation_between(s, d, e) && s[e] == '='
                && ws_run(s, e + 1, q) && is_quote(s[q]);
        assert(s[d] == ':' || s[d] == '=');
        lemma_skip_ws_stops(s, c + version_kw().len(), d);
        lemma_assignment_iff(s, d, q);
        lemma_closing_iff(s, q, r);
    }
}

proof fn lemma_any_name_iff(s: Seq<char>, q: int, r: int)
    ensures
        version_split(s, true) == Some((q, r)) <==> is_any_name_version_line(s, q, r),
{
    reveal_strlit("local");
    let a = skip_ws(s, 0);
    lemma_skip_ws_run(s, 0);
    if version_split(s, true) == Some((q, r)) {
        let p = a + local_kw().len();
        let m = first_colon_or_equals(s, p);
        lemma_first_colon_or_equals_found(s, p);
        lemma_assignment_iff(s, m, q);
        lemma_head_bounds(s, true);
        lemma_closing_iff(s, q, r);
        assert(ws_run(s, p, p + 1));
        assert(no_colon_or_equals(s, p + 1, m));
        assert(ws_run(s, m, m));
        assert(ws_run(s, 0, a) && ws_run(s, a + local_kw().len(), p + 1) && no_colon_or_equals(
            s,
            p + 1,
            m,
        ) && ws_run(s, m, m));
    }
    if is_any_name_version_line(s, q, r) {
        let (a2, b, g, d) = choose|a2: int, b: int, g: int, d: int|
            #![trigger ws_run(s, 0, a2), ws_run(s, a2 + local_kw().len(), b), no_colon_or_equals(s, b, g), ws_run(s, g, d)]
            ws_run(s, 0, a2) && word_at(s, a2, local_kw()) && a2 + local_kw().len() < b && b < g
                && ws_run(s, a2 + local_kw().len(), b) && no_colon_or_equals(s, b, g) && ws_run(
                s,
                g,
                d,
            ) && assignment_between(s, d, q) && literal_between(s, q, r);
        lemma_word_first(s, a2, local_kw());
        lemma_skip_ws_stops(s, 0, a2);
        let p = a2 + local_kw().len();
        let e = choose|e: int|
            d <= e < q < s.len() && #[trigger] annotation_between(s, d, e) && s[e] == '='
                && ws_run(s, e + 1, q) && is_quote(s[q]);
        assert(s[d] == ':' || s[d] == '=');
        assert(no_colon_or_equals(s, p, d)) by {
            assert forall|k: int| p <= k < d implies #[trigger] s[k] != ':' && s[k] != '=' by {
                if k < b {
                    assert(is_ws(s[k]));
                } else if k >= g {
                    assert(is_ws(s[k]));
                }
            }
        }
        lemma_first_colon_or_equals_stops(s, p, d);
        assert(is_ws(s[p]));
        lemma_assignment_iff(s, d, q);
        lemma_closing_iff(s, q, r);
    }
}

} // verus!
