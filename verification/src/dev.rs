//! Dev annotations in a script's files.
//!
//! A dev note is a comment `-- [Dev] text` anywhere on a line; building
//! reports each note with its line so that the build can be cancelled. A dev
//! block runs from a line that reads `-- [Begin Dev Block]` to the next line
//! that reads `-- [End Dev Block]` (surrounding whitespace ignored); building
//! leaves the block out of the packaged file, its two marker lines included.
//! A block without an end runs to the end of the file.

use vstd::prelude::*;
use crate::text::{chars_of, occurs_at, same_text, trim, trim_str};
use crate::version::texts;

verus! {

/// The comment that opens a dev note.
pub open spec fn note_marker() -> Seq<char> {
    "-- [Dev]"@
}

/// The line that opens a dev block.
pub open spec fn begin_marker() -> Seq<char> {
    "-- [Begin Dev Block]"@
}

/// The line that closes a dev block.
pub open spec fn end_marker() -> Seq<char> {
    "-- [End Dev Block]"@
}

/// The first index at or after `i` where `needle` occurs in `hay`, or -1.
pub open spec fn find_from(hay: Seq<char>, needle: Seq<char>, i: int) -> int
    decreases hay.len() + 1 - i,
{
    if i < 0 || i + needle.len() > hay.len() {
        -1
    } else if occurs_at(hay, needle, i) {
        i
    } else {
        find_from(hay, needle, i + 1)
    }
}

/// Whether the line carries a dev note.
pub open spec fn is_dev_note(line: Seq<char>) -> bool {
    find_from(line, note_marker(), 0) >= 0
}

/// What a dev note says: the rest of the line after its first `-- [Dev]`,
/// trimmed.
pub open spec fn note_text(line: Seq<char>) -> Seq<char> {
    trim(line.skip(find_from(line, note_marker(), 0) + note_marker().len()))
}

/// The notes of the first `n` lines, in order, each with its line number
/// (counted from 1) and what it says.
pub open spec fn dev_notes_upto(lines: Seq<Seq<char>>, n: int) -> Seq<(int, Seq<char>)>
    decreases n,
{
    if n <= 0 {
        Seq::empty()
    } else {
        let before = dev_notes_upto(lines, n - 1);
        if is_dev_note(lines[n - 1]) {
            before.push((n, note_text(lines[n - 1])))
        } else {
            before
        }
    }
}

/// The dev notes of a file's lines.
pub open spec fn dev_notes_of(lines: Seq<Seq<char>>) -> Seq<(int, Seq<char>)> {
    dev_notes_upto(lines, lines.len() as int)
}

/// Whether the line opens a dev block.
pub open spec fn is_block_begin(line: Seq<char>) -> bool {
    trim(line) == begin_marker()
}

/// Whether the line closes a dev block.
pub open spec fn is_block_end(line: Seq<char>) -> bool {
    trim(line) == end_marker()
}

/// One line through the block filter: the lines kept so far and whether a
/// block is open, before and after `line`.
pub open spec fn block_step(kept: Seq<Seq<char>>, inside: bool, line: Seq<char>) -> (
    Seq<Seq<char>>,
    bool,
) {
    if inside {
        (kept, !is_block_end(line))
    } else if is_block_begin(line) {
        (kept, true)
    } else {
        (kept.push(line), false)
    }
}

/// The block filter after the first `n` lines.
pub open spec fn stripped_upto(lines: Seq<Seq<char>>, n: int) -> (Seq<Seq<char>>, bool)
    decreases n,
{
    if n <= 0 {
        (Seq::empty(), false)
    } else {
        let (kept, inside) = stripped_upto(lines, n - 1);
        block_step(kept, inside, lines[n - 1])
    }
}

/// A file's lines without its dev blocks.
pub open spec fn without_dev_blocks(lines: Seq<Seq<char>>) -> Seq<Seq<char>> {
    stripped_upto(lines, lines.len() as int).0
}

proof fn lemma_notes_point_at_lines(lines: Seq<Seq<char>>, n: int)
    requires
        0 <= n <= lines.len(),
    ensures
        forall|k: int|
            0 <= k < dev_notes_upto(lines, n).len() ==> {
                let (at, text) = #[trigger] dev_notes_upto(lines, n)[k];
                &&& 1 <= at <= n
                &&& is_dev_note(lines[at - 1])
                &&& text == note_text(lines[at - 1])
            },
    decreases n,
{
    if n > 0 {
        lemma_notes_point_at_lines(lines, n - 1);
        let before = dev_notes_upto(lines, n - 1);
        let now = dev_notes_upto(lines, n);
        assert forall|k: int| 0 <= k < now.len() implies {
            let (at, text) = #[trigger] now[k];
            &&& 1 <= at <= n
            &&& is_dev_note(lines[at - 1])
            &&& text == note_text(lines[at - 1])
        } by {
            if k < before.len() {
                assert(now[k] == before[k]);
            }
        }
    }
}

/// Every reported dev note names a line of the file (counted from 1) that
/// carries a note, and says what that note says.
pub proof fn law_notes_point_at_their_lines(lines: Seq<Seq<char>>)
    ensures
        forall|k: int|
            0 <= k < dev_notes_of(lines).len() ==> {
                let (at, text) = #[trigger] dev_notes_of(lines)[k];
                &&& 1 <= at <= lines.len()
                &&& is_dev_note(lines[at - 1])
                &&& text == note_text(lines[at - 1])
            },
{
    lemma_notes_point_at_lines(lines, lines.len() as int);
}

proof fn lemma_kept_lines_not_begin(lines: Seq<Seq<char>>, n: int)
    requires
        0 <= n <= lines.len(),
    ensures
        forall|k: int|
            0 <= k < stripped_upto(lines, n).0.len() ==> !is_block_begin(
                #[trigger] stripped_upto(lines, n).0[k],
            ),
    decreases n,
{
    if n > 0 {
        lemma_kept_lines_not_begin(lines, n - 1);
        let before = stripped_upto(lines, n - 1).0;
        let now = stripped_upto(lines, n).0;
        assert forall|k: int| 0 <= k < now.len() implies !is_block_begin(#[trigger] now[k]) by {
            if k < before.len() {
                assert(now[k] == before[k]);
            }
        }
    }
}

/// No line that opens a dev block is left in the packaged file.
pub proof fn law_no_block_begins_after_stripping(lines: Seq<Seq<char>>)
    ensures
        forall|k: int|
            0 <= k < without_dev_blocks(lines).len() ==> !is_block_begin(
                #[trigger] without_dev_blocks(lines)[k],
            ),
{
    lemma_kept_lines_not_begin(lines, lines.len() as int);
}

proof fn lemma_no_begin_prefix_kept(lines: Seq<Seq<char>>, n: int)
    requires
        0 <= n <= lines.len(),
        forall|i: int| 0 <= i < lines.len() ==> !is_block_begin(#[trigger] lines[i]),
    ensures
        stripped_upto(lines, n) == (lines.take(n), false),
    decreases n,
{
    if n > 0 {
        lemma_no_begin_prefix_kept(lines, n - 1);
        assert(lines.take(n - 1).push(lines[n - 1]) =~= lines.take(n));
    } else {
        assert(lines.take(0) =~= Seq::<Seq<char>>::empty());
    }
}

/// A file without a line that opens a dev block is packaged as it is.
pub proof fn law_no_blocks_unchanged(lines: Seq<Seq<char>>)
    requires
        forall|i: int| 0 <= i < lines.len() ==> !is_block_begin(#[trigger] lines[i]),
    ensures
        without_dev_blocks(lines) == lines,
{
    lemma_no_begin_prefix_kept(lines, lines.len() as int);
    assert(lines.take(lines.len() as int) =~= lines);
}


proof fn lemma_find_from(h: Seq<char>, n: Seq<char>, i: int)
    requires
        0 <= i,
    ensures
        find_from(h, n, i) == -1 || (i <= find_from(h, n, i) && occurs_at(h, n, find_from(h, n, i))),
        forall|j: int|
            i <= j && (find_from(h, n, i) == -1 || j < find_from(h, n, i)) ==> !#[trigger] occurs_at(h, n, j),
    decreases h.len() + 1 - i,
{
    if i + n.len() <= h.len() && !occurs_at(h, n, i) {
        lemma_find_from(h, n, i + 1);
        assert forall|j: int|
            i <= j && (find_from(h, n, i) == -1 || j < find_from(h, n, i)) implies !#[trigger] occurs_at(h, n, j) by {
            if j > i {
                assert(i + 1 <= j);
            }
        }
    }
}

/// A line carries a dev note exactly when `-- [Dev]` stands somewhere in it,
/// and the note says what follows the first `-- [Dev]` of the line, trimmed.
pub proof fn law_note_is_text_after_first_marker(line: Seq<char>, j: int)
    requires
        0 <= j && j + 8 <= line.len() && line.subrange(j, j + 8) == "-- [Dev]"@,
        forall|k: int| 0 <= k < j ==> #[trigger] line.subrange(k, k + 8) != "-- [Dev]"@,
    ensures
        is_dev_note(line),
        note_text(line) == trim(line.skip(j + 8)),
{
    reveal_strlit("-- [Dev]");
    lemma_find_from(line, note_marker(), 0);
    assert(occurs_at(line, note_marker(), j));
    let f = find_from(line, note_marker(), 0);
    if f < j {
        assert(line.subrange(f, f + 8) != "-- [Dev]"@);
    }
}

/// A line in which `-- [Dev]` stands nowhere carries no dev note.
pub proof fn law_no_marker_no_note(line: Seq<char>)
    requires
        forall|k: int| 0 <= k && k + 8 <= line.len() ==> #[trigger] line.subrange(k, k + 8) != "-- [Dev]"@,
    ensures
        !is_dev_note(line),
{
    reveal_strlit("-- [Dev]");
    lemma_find_from(line, note_marker(), 0);
    let f = find_from(line, note_marker(), 0);
    if f >= 0 {
        assert(line.subrange(f, f + 8) == "-- [Dev]"@);
    }
}

proof fn lemma_notes_complete(lines: Seq<Seq<char>>, n: int)
    requires
        0 <= n <= lines.len(),
    ensures
        forall|i: int|
            0 <= i < n && #[trigger] is_dev_note(lines[i]) ==> exists|k: int|
                0 <= k < dev_notes_upto(lines, n).len() && dev_notes_upto(lines, n)[k] == (
                    i + 1,
                    note_text(lines[i]),
                ),
        forall|a: int, b: int|
            0 <= a < b < dev_notes_upto(lines, n).len() ==> #[trigger] dev_notes_upto(lines, n)[a].0
                < #[trigger] dev_notes_upto(lines, n)[b].0,
        forall|a: int|
            0 <= a < dev_notes_upto(lines, n).len() ==> 1 <= #[trigger] dev_notes_upto(lines, n)[a].0 <= n,
    decreases n,
{
    if n > 0 {
        lemma_notes_complete(lines, n - 1);
        let before = dev_notes_upto(lines, n - 1);
        let now = dev_notes_upto(lines, n);
        assert forall|i: int| 0 <= i < n && #[trigger] is_dev_note(lines[i]) implies exists|k: int|
            0 <= k < now.len() && now[k] == (i + 1, note_text(lines[i])) by {
            if i < n - 1 {
                let k = choose|k: int|
                    0 <= k < before.len() && before[k] == (i + 1, note_text(lines[i]));
                assert(now[k] == before[k]);
            } else {
                assert(now[before.len() as int] == (i + 1, note_text(lines[i])));
            }
        }
        assert forall|a: int, b: int| 0 <= a < b < now.len() implies #[trigger] now[a].0
            < #[trigger] now[b].0 by {
            assert(now[a] == before[a]);
            if b < before.len() {
                assert(now[b] == before[b]);
            }
        }
        assert forall|a: int| 0 <= a < now.len() implies 1 <= #[trigger] now[a].0 <= n by {
            if a < before.len() {
                assert(now[a] == before[a]);
            }
        }
    }
}

/// Every line of a file that carries a dev note is reported, with its line
/// number (counted from 1) and what the note says, and the report lists the
/// notes in the order of their lines, each line once.
pub proof fn law_every_note_reported_in_order(lines: Seq<Seq<char>>)
    ensures
        forall|i: int|
            0 <= i < lines.len() && #[trigger] is_dev_note(lines[i]) ==> exists|k: int|
                0 <= k < dev_notes_of(lines).len() && dev_notes_of(lines)[k] == (
                    i + 1,
                    note_text(lines[i]),
                ),
        forall|a: int, b: int|
            0 <= a < b < dev_notes_of(lines).len() ==> #[trigger] dev_notes_of(lines)[a].0
                < #[trigger] dev_notes_of(lines)[b].0,
{
    let n = lines.len() as int;
    lemma_notes_complete(lines, n);
    assert(dev_notes_of(lines) == dev_notes_upto(lines, n));
    assert forall|i: int| 0 <= i < lines.len() && #[trigger] is_dev_note(lines[i]) implies exists|k: int|
        0 <= k < dev_notes_of(lines).len() && dev_notes_of(lines)[k] == (i + 1, note_text(lines[i])) by {
        assert(0 <= i < n && is_dev_note(lines[i]));
    }
}

/// The block filter run from a given state over the first `n` lines.
pub open spec fn fold_blocks(kept: Seq<Seq<char>>, inside: bool, lines: Seq<Seq<char>>, n: int) -> (
    Seq<Seq<char>>,
    bool,
)
    decreases n,
{
    if n <= 0 {
        (kept, inside)
    } else {
        let (k, ins) = fold_blocks(kept, inside, lines, n - 1);
        block_step(k, ins, lines[n - 1])
    }
}

proof fn lemma_strip_is_fold(lines: Seq<Seq<char>>, n: int)
    requires
        0 <= n <= lines.len(),
    ensures
        stripped_upto(lines, n) == fold_blocks(Seq::empty(), false, lines, n),
    decreases n,
{
    if n > 0 {
        lemma_strip_is_fold(lines, n - 1);
    }
}

proof fn lemma_fold_same_prefix(
    kept: Seq<Seq<char>>,
    inside: bool,
    x: Seq<Seq<char>>,
    y: Seq<Seq<char>>,
    n: int,
)
    requires
        0 <= n <= x.len(),
        n <= y.len(),
        forall|i: int| 0 <= i < n ==> x[i] == y[i],
    ensures
        fold_blocks(kept, inside, x, n) == fold_blocks(kept, inside, y, n),
    decreases n,
{
    if n > 0 {
        lemma_fold_same_prefix(kept, inside, x, y, n - 1);
        assert(x[n - 1] == y[n - 1]);
    }
}

proof fn lemma_fold_concat(
    kept: Seq<Seq<char>>,
    inside: bool,
    a: Seq<Seq<char>>,
    b: Seq<Seq<char>>,
    m: int,
)
    requires
        0 <= m <= b.len(),
    ensures
        fold_blocks(kept, inside, a + b, a.len() + m) == fold_blocks(
            fold_blocks(kept, inside, a, a.len() as int).0,
            fold_blocks(kept, inside, a, a.len() as int).1,
            b,
            m,
        ),
    decreases m,
{
    if m == 0 {
        lemma_fold_same_prefix(kept, inside, a + b, a, a.len() as int);
    } else {
        lemma_fold_concat(kept, inside, a, b, m - 1);
        assert((a + b)[a.len() + m - 1] == b[m - 1]);
    }
}

proof fn lemma_fold_kept_prefix(kept: Seq<Seq<char>>, inside: bool, lines: Seq<Seq<char>>, n: int)
    requires
        0 <= n <= lines.len(),
    ensures
        fold_blocks(kept, inside, lines, n).0 == kept + fold_blocks(Seq::empty(), inside, lines, n).0,
        fold_blocks(kept, inside, lines, n).1 == fold_blocks(Seq::empty(), inside, lines, n).1,
    decreases n,
{
    if n == 0 {
        assert(kept + Seq::<Seq<char>>::empty() =~= kept);
    } else {
        lemma_fold_kept_prefix(kept, inside, lines, n - 1);
        let e = fold_blocks(Seq::empty(), inside, lines, n - 1).0;
        assert((kept + e).push(lines[n - 1]) =~= kept + e.push(lines[n - 1]));
    }
}

proof fn lemma_fold_open_no_end(kept: Seq<Seq<char>>, lines: Seq<Seq<char>>, n: int)
    requires
        0 <= n <= lines.len(),
        forall|i: int| 0 <= i < n ==> !is_block_end(#[trigger] lines[i]),
    ensures
        fold_blocks(kept, true, lines, n) == (kept, true),
    decreases n,
{
    if n > 0 {
        lemma_fold_open_no_end(kept, lines, n - 1);
    }
}

proof fn lemma_fold_closed_no_begin(kept: Seq<Seq<char>>, lines: Seq<Seq<char>>, n: int)
    requires
        0 <= n <= lines.len(),
        forall|i: int| 0 <= i < n ==> !is_block_begin(#[trigger] lines[i]),
    ensures
        fold_blocks(kept, false, lines, n) == (kept + lines.take(n), false),
    decreases n,
{
    if n > 0 {
        lemma_fold_closed_no_begin(kept, lines, n - 1);
        assert((kept + lines.take(n - 1)).push(lines[n - 1]) =~= kept + lines.take(n));
    } else {
        assert(kept + lines.take(0) =~= kept);
    }
}

/// A dev block is cut out whole: in a file made of lines `pre` in which no
/// line opens a block, a line that reads `-- [Begin Dev Block]` (whitespace
/// around it, tabs included, ignored), lines `mid` of which none reads
/// `-- [End Dev Block]`, a line that reads `-- [End Dev Block]`, and lines
/// `post`, the packaged file is `pre` followed by `post` as packaged on its
/// own.
pub proof fn law_block_cut_out(
    pre: Seq<Seq<char>>,
    begin: Seq<char>,
    mid: Seq<Seq<char>>,
    end: Seq<char>,
    post: Seq<Seq<char>>,
)
    requires
        forall|k: int| 0 <= k < pre.len() ==> trim(#[trigger] pre[k]) != "-- [Begin Dev Block]"@,
        trim(begin) == "-- [Begin Dev Block]"@,
        forall|k: int| 0 <= k < mid.len() ==> trim(#[trigger] mid[k]) != "-- [End Dev Block]"@,
        trim(end) == "-- [End Dev Block]"@,
    ensures
        without_dev_blocks(pre + seq![begin] + mid + seq![end] + post) == pre + without_dev_blocks(
            post,
        ),
{
    let e = Seq::<Seq<char>>::empty();
    let a1 = pre + seq![begin];
    let a2 = a1 + mid;
    let a3 = a2 + seq![end];
    let all = a3 + post;
    lemma_fold_closed_no_begin(e, pre, pre.len() as int);
    assert(e + pre.take(pre.len() as int) =~= pre);
    lemma_fold_concat(e, false, pre, seq![begin], 1);
    assert(fold_blocks(pre, false, seq![begin], 0) == (pre, false));
    assert(is_block_begin(seq![begin][0]));
    assert(fold_blocks(e, false, a1, a1.len() as int) == (pre, true));
    lemma_fold_concat(e, false, a1, mid, mid.len() as int);
    lemma_fold_open_no_end(pre, mid, mid.len() as int);
    assert(fold_blocks(e, false, a2, a2.len() as int) == (pre, true));
    lemma_fold_concat(e, false, a2, seq![end], 1);
    assert(fold_blocks(pre, true, seq![end], 0) == (pre, true));
    assert(is_block_end(seq![end][0]));
    assert(fold_blocks(e, false, a3, a3.len() as int) == (pre, false));
    lemma_fold_concat(e, false, a3, post, post.len() as int);
    lemma_fold_kept_prefix(pre, false, post, post.len() as int);
    lemma_strip_is_fold(all, all.len() as int);
    lemma_strip_is_fold(post, post.len() as int);
}

/// After packaging, no line that reads `-- [Begin Dev Block]` (whitespace
/// around it ignored) is left.
pub proof fn law_no_begin_line_left(lines: Seq<Seq<char>>)
    ensures
        forall|k: int|
            0 <= k < without_dev_blocks(lines).len() ==> trim(#[trigger] without_dev_blocks(lines)[k])
                != "-- [Begin Dev Block]"@,
{
    law_no_block_begins_after_stripping(lines);
}

/// A file in which no line reads `-- [Begin Dev Block]` (whitespace around it
/// ignored) is packaged as it is.
pub proof fn law_file_without_begin_lines_unchanged(lines: Seq<Seq<char>>)
    requires
        forall|k: int| 0 <= k < lines.len() ==> trim(#[trigger] lines[k]) != "-- [Begin Dev Block]"@,
    ensures
        without_dev_blocks(lines) == lines,
{
    law_no_blocks_unchanged(lines);
}

/// Whether `n` stands in `h` at index `i` (`i + n.len() <= h.len()`).
fn occurs_at_exec(h: &Vec<char>, n: &Vec<char>, i: usize) -> (r: bool)
    requires
        i + n.len() <= h.len(),
    ensures
        r == occurs_at(h@, n@, i as int),
{
    let mut j: usize = 0;
    while j < n.len()
        invariant
            i + n.len() <= h.len(),
            j <= n.len(),
            forall|k: int| 0 <= k < j ==> h@[i + k] == n@[k],
        decreases n.len() - j,
    {
        if h[i + j] != n[j] {
            assert(!occurs_at(h@, n@, i as int)) by {
                if occurs_at(h@, n@, i as int) {
                    assert(h@.subrange(i as int, i + n@.len())[j as int] == h@[i + j]);
                }
            }
            return false;
        }
        j = j + 1;
    }
    assert(h@.subrange(i as int, i + n@.len()) =~= n@);
    true
}

/// The first index where `n` occurs in `h` (`find_from(h, n, 0)`), if any.
fn find_first(h: &Vec<char>, n: &Vec<char>) -> (r: Option<usize>)
    ensures
        match r {
            Some(i) => i as int == find_from(h@, n@, 0) && i + n.len() <= h.len(),
            None => find_from(h@, n@, 0) == -1,
        },
{
    if n.len() > h.len() {
        return None;
    }
    let last = h.len() - n.len();
    let mut i: usize = 0;
    loop
        invariant
            n.len() <= h.len(),
            last == h.len() - n.len(),
            i <= last,
            find_from(h@, n@, 0) == find_from(h@, n@, i as int),
        decreases last - i,
    {
        if occurs_at_exec(h, n, i) {
            return Some(i);
        }
        if i == last {
            assert(find_from(h@, n@, i + 1) == -1);
            return None;
        }
        i = i + 1;
    }
}

/// What the line's dev note says, if it carries one.
pub fn line_dev_note(line: &str) -> (r: Option<String>)
    ensures
        r is Some == is_dev_note(line@),
        r matches Some(t) ==> t@ == note_text(line@),
{
    let h = chars_of(line);
    let marker = "-- [Dev]";
    let n = chars_of(marker);
    match find_first(&h, &n) {
        None => None,
        Some(i) => {
            let from = i + n.len();
            let rest = line.substring_char(from, h.len());
            assert(rest@ =~= line@.skip(from as int));
            Some(trim_str(rest).to_owned())
        },
    }
}

/// The dev notes of a file's lines (see `dev_notes_of`): each note's line
/// number, counted from 1, and what it says.
pub fn dev_notes(lines: &Vec<String>) -> (r: Vec<(usize, String)>)
    ensures
        r@.map_values(|p: (usize, String)| (p.0 as int, p.1@)) == dev_notes_of(texts(lines@)),
{
    let ghost ls = texts(lines@);
    let mut notes: Vec<(usize, String)> = Vec::new();
    for i in 0..lines.len()
        invariant
            ls == texts(lines@),
            ls.len() == lines.len(),
            notes@.map_values(|p: (usize, String)| (p.0 as int, p.1@)) == dev_notes_upto(
                ls,
                i as int,
            ),
    {
        assert(ls[i as int] == lines@[i as int]@);
        match line_dev_note(lines[i].as_str()) {
            Some(t) => {
                let ghost before = notes@;
                notes.push((i + 1, t));
                assert(notes@.map_values(|p: (usize, String)| (p.0 as int, p.1@)) =~= before.map_values(
                    |p: (usize, String)| (p.0 as int, p.1@),
                ).push(((i + 1) as int, note_text(ls[i as int]))));
            },
            None => {},
        }
    }
    notes
}

/// A file's lines without its dev blocks (see `without_dev_blocks`).
pub fn strip_dev_blocks(lines: &Vec<String>) -> (r: Vec<String>)
    ensures
        texts(r@) == without_dev_blocks(texts(lines@)),
{
    let ghost ls = texts(lines@);
    let mut kept: Vec<String> = Vec::new();
    let mut inside = false;
    for i in 0..lines.len()
        invariant
            ls == texts(lines@),
            ls.len() == lines.len(),
            (texts(kept@), inside) == stripped_upto(ls, i as int),
    {
        assert(ls[i as int] == lines@[i as int]@);
        let t = trim_str(lines[i].as_str());
        if inside {
            inside = !same_text(t, "-- [End Dev Block]");
        } else if same_text(t, "-- [Begin Dev Block]") {
            inside = true;
        } else {
            let ghost before = kept@;
            kept.push(lines[i].clone());
            assert(texts(kept@) =~= texts(before).push(ls[i as int]));
        }
    }
    kept
}

} // verus!
