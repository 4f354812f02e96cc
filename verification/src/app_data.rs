//! The data the tool keeps between runs: the last window position and the
//! keywords offered when describing a package.

use vstd::prelude::*;
use crate::text::{all_ws, eq_ignore_case, is_blank, same_ignoring_case};

verus! {

/// A window position in physical pixels.
#[derive(Clone, Copy, Debug, PartialEq, Eq)]
pub struct WindowPosition {
    pub x: i32,
    pub y: i32,
}

/// What the tool keeps between runs.
#[derive(Debug)]
pub struct AppData {
    pub outer_window_pos: Option<WindowPosition>,
    pub keywords: Vec<String>,
}

/// What `char::to_uppercase` yields for `c`, collected.
pub uninterp spec fn uppercase_char(c: char) -> Seq<char>;

/// `s` with its first character in upper case and the rest unchanged.
pub open spec fn capitalized_first(s: Seq<char>) -> Seq<char> {
    if s.len() == 0 {
        s
    } else {
        uppercase_char(s[0]) + s.drop_first()
    }
}

/// Calls `Capitalize::capitalize_first_only` of the `capitalize` crate, which
/// collects `char::to_uppercase` of the first character followed by the other
/// characters unchanged; the empty string gives the empty string. The upper
/// case of a character is named `uppercase_char` and is one or more
/// characters, as `char::to_uppercase` documents.
#[verifier::external_body]
fn capitalize_first_only(s: &str) -> (r: String)
    ensures
        s@.len() == 0 ==> r@.len() == 0,
        s@.len() > 0 ==> r@ == uppercase_char(s@[0]) + s@.drop_first(),
        r@.len() >= s@.len(),
{
    capitalize::Capitalize::capitalize_first_only(&s)
}

/// Whether some keyword of `list` equals `k` when case is ignored.
pub open spec fn has_keyword(list: Seq<Seq<char>>, k: Seq<char>) -> bool {
    exists|i: int| 0 <= i < list.len() && same_ignoring_case(#[trigger] list[i], k)
}

/// The keyword list `existing` after offering it the keywords `offered`, one
/// after the other: an offered keyword that is empty, or already in the list
/// when case is ignored, is passed over; any other is appended with its first
/// character in upper case.
pub open spec fn keywords_after(existing: Seq<Seq<char>>, offered: Seq<Seq<char>>) -> Seq<Seq<char>>
    decreases offered.len(),
{
    if offered.len() == 0 {
        existing
    } else {
        let before = keywords_after(existing, offered.drop_last());
        let k = offered.last();
        if k.len() == 0 || has_keyword(before, k) {
            before
        } else {
            before.push(capitalized_first(k))
        }
    }
}

/// The characters of each keyword.
pub open spec fn keyword_texts(s: Seq<String>) -> Seq<Seq<char>> {
    s.map_values(|k: String| k@)
}

/// The keywords offered before any was added by a user.
pub open spec fn default_keywords() -> Seq<Seq<char>> {
    seq![
        "POV"@,
        "Framework"@,
        "Freecam"@,
        "Replay Support"@,
        "Keybinds"@,
        "Controller"@,
        "ZDrift"@,
        "Driftball"@,
        "Driftblitz"@,
        "Go Pro"@,
        "Content Creation"@,
    ]
}

/// `keywords` without the ones that are blank.
pub open spec fn without_blank(keywords: Seq<Seq<char>>) -> Seq<Seq<char>> {
    keywords.filter(|k: Seq<char>| !all_ws(k))
}

impl AppData {
    /// No window position and the default keywords.
    pub fn new() -> (r: Self)
        ensures
            r.outer_window_pos is None,
            keyword_texts(r.keywords@) == default_keywords(),
    {
        let keywords = vec![
            String::from_str("POV"),
            String::from_str("Framework"),
            String::from_str("Freecam"),
            String::from_str("Replay Support"),
            String::from_str("Keybinds"),
            String::from_str("Controller"),
            String::from_str("ZDrift"),
            String::from_str("Driftball"),
            String::from_str("Driftblitz"),
            String::from_str("Go Pro"),
            String::from_str("Content Creation"),
        ];
        assert(keyword_texts(keywords@) =~= default_keywords());
        AppData { outer_window_pos: None, keywords }
    }

    /// Whether a keyword of the list equals `keyword` when case is ignored.
    pub fn has_keyword_ignoring_case(&self, keyword: &str) -> (r: bool)
        ensures
            r == has_keyword(keyword_texts(self.keywords@), keyword@),
    {
        let ghost list = keyword_texts(self.keywords@);
        for i in 0..self.keywords.len()
            invariant
                list == keyword_texts(self.keywords@),
                forall|j: int| 0 <= j < i ==> !same_ignoring_case(#[trigger] list[j], keyword@),
        {
            if eq_ignore_case(self.keywords[i].as_str(), keyword) {
                assert(same_ignoring_case(list[i as int], keyword@));
                return true;
            }
        }
        false
    }

    /// Offers the list the keywords of a package (see `keywords_after`).
    pub fn update_keywords(&mut self, keywords: &[String])
        ensures
            keyword_texts(final(self).keywords@) == keywords_after(
                keyword_texts(old(self).keywords@),
                keyword_texts(keywords@),
            ),
            final(self).outer_window_pos == old(self).outer_window_pos,
            forall|i: int|
                old(self).keywords.len() <= i < final(self).keywords.len() ==> (
                #[trigger] final(self).keywords@[i])@.len() > 0,
    {
        let ghost start = keyword_texts(self.keywords@);
        let ghost offered = keyword_texts(keywords@);
        for i in 0..keywords.len()
            invariant
                start == keyword_texts(old(self).keywords@),
                offered == keyword_texts(keywords@),
                self.outer_window_pos == old(self).outer_window_pos,
                keyword_texts(self.keywords@) == keywords_after(start, offered.take(i as int)),
                self.keywords.len() >= old(self).keywords.len(),
                forall|j: int|
                    old(self).keywords.len() <= j < self.keywords.len() ==> (
                    #[trigger] self.keywords@[j])@.len() > 0,
        {
            let keyword = &keywords[i];
            assert(offered.take(i + 1).drop_last() =~= offered.take(i as int));
            assert(offered.take(i + 1).last() == keyword@);
            if !keyword.as_str().is_empty() && !self.has_keyword_ignoring_case(keyword.as_str()) {
                let k = capitalize_first_only(keyword.as_str());
                self.keywords.push(k);
                assert(keyword_texts(self.keywords@) =~= keywords_after(
                    start,
                    offered.take(i as int),
                ).push(capitalized_first(keyword@)));
            }
        }
        assert(offered.take(keywords.len() as int) =~= offered);
    }

    /// Drops the keywords that are blank (`retain(|e| !e.trim().is_empty())`).
    pub fn remove_blank_keywords(&mut self)
        ensures
            keyword_texts(final(self).keywords@) == without_blank(keyword_texts(old(self).keywords@)),
            final(self).outer_window_pos == old(self).outer_window_pos,
    {
        let ghost start = keyword_texts(self.keywords@);
        let mut kept: Vec<String> = Vec::new();
        let n = self.keywords.len();
        for i in 0..n
            invariant
                n == self.keywords.len(),
                start == keyword_texts(self.keywords@),
                keyword_texts(kept@) == without_blank(start.take(i as int)),
        {
            proof {
                reveal(Seq::filter);
                assert(start.take(i + 1).drop_last() =~= start.take(i as int));
            }
            if !is_blank(self.keywords[i].as_str()) {
                kept.push(self.keywords[i].clone());
                assert(keyword_texts(kept@) =~= without_blank(start.take(i as int)).push(
                    start[i as int],
                ));
            }
        }
        assert(start.take(n as int) =~= start);
        self.keywords = kept;
    }
}

/// Offering keywords only appends to the list: the keywords that were there
/// stay, in their places.
pub proof fn law_update_keeps_existing(existing: Seq<Seq<char>>, offered: Seq<Seq<char>>)
    ensures
        keywords_after(existing, offered).len() >= existing.len(),
        keywords_after(existing, offered).subrange(0, existing.len() as int) == existing,
    decreases offered.len(),
{
    if offered.len() > 0 {
        law_update_keeps_existing(existing, offered.drop_last());
        let before = keywords_after(existing, offered.drop_last());
        assert(before.push(capitalized_first(offered.last())).subrange(0, existing.len() as int)
            =~= before.subrange(0, existing.len() as int));
    }
}

/// Offering only keywords that are empty or already listed (case ignored)
/// leaves the list as it is: no keyword is added twice.
pub proof fn law_update_known_keywords_unchanged(existing: Seq<Seq<char>>, offered: Seq<Seq<char>>)
    requires
        forall|i: int|
            0 <= i < offered.len() ==> (#[trigger] offered[i]).len() == 0 || has_keyword(
                existing,
                offered[i],
            ),
    ensures
        keywords_after(existing, offered) == existing,
    decreases offered.len(),
{
    if offered.len() > 0 {
        let rest = offered.drop_last();
        assert forall|i: int| 0 <= i < rest.len() implies (#[trigger] rest[i]).len() == 0
            || has_keyword(existing, rest[i]) by {
            assert(rest[i] == offered[i]);
        }
        law_update_known_keywords_unchanged(existing, rest);
        assert(offered.last() == offered[offered.len() - 1]);
    }
}

/// After blank keywords are dropped, no keyword is blank.
pub proof fn law_no_blank_after_removal(keywords: Seq<Seq<char>>)
    ensures
        forall|i: int|
            0 <= i < without_blank(keywords).len() ==> !all_ws(#[trigger] without_blank(keywords)[i]),
{
    broadcast use vstd::seq_lib::group_filter_ensures;
}

} // verus!
