//! The keyword picker of the project screen: which keywords a search shows,
//! selecting and unselecting them, and offering the search text as a new
//! keyword.

use vstd::prelude::*;
use crate::app_data::{has_keyword, keyword_texts};
use crate::text::{
    contains, contains_text, eq_ignore_case, occurs_at, lowercase, same_ignoring_case, to_lowercase, trim,
    trim_str,
};

verus! {

/// The form in which a search text is compared: trimmed, in lower case.
pub open spec fn search_key_of(search: Seq<char>) -> Seq<char> {
    lowercase(trim(search))
}

/// The search text trimmed and in lower case.
pub fn search_key(search: &str) -> (r: String)
    ensures
        r@ == search_key_of(search@),
{
    to_lowercase(trim_str(search))
}

/// Whether the search with key `key` shows `keyword`: an empty key shows every
/// keyword, any other key the keywords whose lower case contains it.
pub open spec fn shown_by(keyword: Seq<char>, key: Seq<char>) -> bool {
    key.len() == 0 || contains_text(lowercase(keyword), key)
}

/// A search with an empty key shows every keyword; a search with any other
/// key shows a keyword exactly when the key stands somewhere (at any position)
/// in the keyword's lower case.
pub proof fn law_shown_iff_key_occurs(keyword: Seq<char>, key: Seq<char>)
    ensures
        key.len() == 0 ==> shown_by(keyword, key),
        key.len() > 0 ==> (shown_by(keyword, key) <==> exists|i: int|
            0 <= i && i + key.len() <= lowercase(keyword).len() && #[trigger] lowercase(
                keyword,
            ).subrange(i, i + key.len()) == key),
{
    if key.len() > 0 {
        if shown_by(keyword, key) {
            let i = choose|i: int| occurs_at(lowercase(keyword), key, i);
            assert(lowercase(keyword).subrange(i, i + key.len()) == key);
        }
        if exists|i: int|
            0 <= i && i + key.len() <= lowercase(keyword).len() && #[trigger] lowercase(
                keyword,
            ).subrange(i, i + key.len()) == key {
            let i = choose|i: int|
                0 <= i && i + key.len() <= lowercase(keyword).len() && #[trigger] lowercase(
                    keyword,
                ).subrange(i, i + key.len()) == key;
            assert(occurs_at(lowercase(keyword), key, i));
        }
    }
}

/// Searching for any piece of a keyword's lower case, wherever it stands in
/// the keyword, shows the keyword.
pub proof fn law_any_piece_shows(keyword: Seq<char>, i: int, j: int)
    requires
        0 <= i <= j <= lowercase(keyword).len(),
    ensures
        shown_by(keyword, lowercase(keyword).subrange(i, j)),
{
    let key = lowercase(keyword).subrange(i, j);
    if key.len() > 0 {
        assert(occurs_at(lowercase(keyword), key, i));
    }
}

/// Whether the search with key `key` shows `keyword`.
pub fn keyword_shown(keyword: &str, key: &str) -> (r: bool)
    ensures
        r == shown_by(keyword@, key@),
{
    if key.is_empty() {
        return true;
    }
    let lower = to_lowercase(keyword);
    contains(lower.as_str(), key)
}

/// Whether `keyword` is among the selected keywords, case ignored.
pub fn keyword_selected(selected: &Vec<String>, keyword: &str) -> (r: bool)
    ensures
        r == has_keyword(keyword_texts(selected@), keyword@),
{
    let ghost list = keyword_texts(selected@);
    for i in 0..selected.len()
        invariant
            list == keyword_texts(selected@),
            forall|j: int| 0 <= j < i ==> !same_ignoring_case(#[trigger] list[j], keyword@),
    {
        if eq_ignore_case(selected[i].as_str(), keyword) {
            assert(same_ignoring_case(list[i as int], keyword@));
            return true;
        }
    }
    false
}

/// The selection without the keywords equal to `k` when case is ignored.
pub open spec fn unselected(selected: Seq<Seq<char>>, k: Seq<char>) -> Seq<Seq<char>> {
    selected.filter(|e: Seq<char>| !same_ignoring_case(e, k))
}

/// The selection after clicking `k`: a selected keyword (case ignored) is
/// unselected in every spelling, any other keyword is added.
pub open spec fn toggled(selected: Seq<Seq<char>>, k: Seq<char>) -> Seq<Seq<char>> {
    if has_keyword(selected, k) {
        unselected(selected, k)
    } else {
        selected.push(k)
    }
}

/// Selects `keyword` or, if it is selected already, unselects it.
pub fn toggle_keyword(selected: &mut Vec<String>, keyword: &String)
    ensures
        keyword_texts(final(selected)@) == toggled(keyword_texts(old(selected)@), keyword@),
{
    if !keyword_selected(selected, keyword.as_str()) {
        selected.push(keyword.clone());
        assert(keyword_texts(selected@) =~= keyword_texts(old(selected)@).push(keyword@));
        return;
    }
    let ghost start = keyword_texts(selected@);
    let mut kept: Vec<String> = Vec::new();
    let n = selected.len();
    for i in 0..n
        invariant
            n == selected.len(),
            start == keyword_texts(selected@),
            start == keyword_texts(old(selected)@),
            keyword_texts(kept@) == unselected(start.take(i as int), keyword@),
    {
        proof {
            reveal(Seq::filter);
            assert(start.take(i + 1).drop_last() =~= start.take(i as int));
        }
        if !eq_ignore_case(selected[i].as_str(), keyword.as_str()) {
            kept.push(selected[i].clone());
            assert(keyword_texts(kept@) =~= unselected(start.take(i as int), keyword@).push(
                start[i as int],
            ));
        }
    }
    assert(start.take(n as int) =~= start);
    *selected = kept;
}

proof fn lemma_unselected_absent(s: Seq<Seq<char>>, k: Seq<char>)
    requires
        !has_keyword(s, k),
    ensures
        unselected(s, k) == s,
    decreases s.len(),
{
    reveal(Seq::filter);
    if s.len() > 0 {
        assert(!same_ignoring_case(s[s.len() - 1], k));
        assert(!has_keyword(s.drop_last(), k)) by {
            if has_keyword(s.drop_last(), k) {
                let i = choose|i: int|
                    0 <= i < s.drop_last().len() && same_ignoring_case(
                        #[trigger] s.drop_last()[i],
                        k,
                    );
                assert(s[i] == s.drop_last()[i]);
            }
        }
        lemma_unselected_absent(s.drop_last(), k);
        assert(s.drop_last().push(s.last()) =~= s);
    }
}

/// Clicking a keyword that is not selected twice gives back the selection.
pub proof fn law_toggle_twice_restores(selected: Seq<Seq<char>>, k: Seq<char>)
    requires
        !has_keyword(selected, k),
    ensures
        toggled(toggled(selected, k), k) == selected,
{
    let once = selected.push(k);
    assert(has_keyword(once, k)) by {
        assert(same_ignoring_case(once[selected.len() as int], k));
    }
    reveal(Seq::filter);
    assert(once.drop_last() =~= selected);
    lemma_unselected_absent(selected, k);
}

/// The keyword a search offers to add: the trimmed search text, when its key
/// is not empty and no keyword of the list equals it, case ignored.
pub open spec fn new_keyword_offer(search: Seq<char>, keywords: Seq<Seq<char>>) -> Option<Seq<char>> {
    if search_key_of(search).len() != 0 && !has_keyword(keywords, trim(search)) {
        Some(trim(search))
    } else {
        None
    }
}

/// The keyword that the search offers to add to `keywords`, if any.
pub fn new_keyword(search: &str, keywords: &[String]) -> (r: Option<String>)
    ensures
        r matches Some(k) ==> new_keyword_offer(search@, keyword_texts(keywords@)) == Some(k@),
        r is None ==> new_keyword_offer(search@, keyword_texts(keywords@)) is None,
{
    let key = search_key(search);
    if key.as_str().is_empty() {
        return None;
    }
    let trimmed = trim_str(search);
    let ghost list = keyword_texts(keywords@);
    for i in 0..keywords.len()
        invariant
            list == keyword_texts(keywords@),
            trimmed@ == trim(search@),
            forall|j: int| 0 <= j < i ==> !same_ignoring_case(#[trigger] list[j], trimmed@),
    {
        if eq_ignore_case(keywords[i].as_str(), trimmed) {
            assert(same_ignoring_case(list[i as int], trimmed@));
            return None;
        }
    }
    Some(trimmed.to_owned())
}

} // verus!
