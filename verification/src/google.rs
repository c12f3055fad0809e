//! Building the search query URL for a result page, and reading candidate
//! page URLs out of the raw result markup by a two-marker delimiter scan.

use crate::decimal::{dec_rep, push_decimal};
use crate::scan::{
    after_first, between_strict, lemma_between_then_after, str_after, str_between,
};
use vstd::prelude::*;
use vstd::string::{StrSliceExecFns, StringExecFns};

verus! {

/// Everything of the search URL before the page offset.
pub open spec fn search_prefix() -> Seq<char> {
    "https://www.google.com/search?q=\"discord.gg\"&tbs=qdr:h&filter=0&start="@
}

/// The search URL of page `p`: the fixed query with a `start` offset of
/// exactly `p * 10`, the search backend's fixed page size.
pub open spec fn search_url(p: nat) -> Seq<char> {
    search_prefix() + dec_rep(p * 10)
}

/// The marker that opens a result link in the raw result markup.
pub open spec fn link_open() -> Seq<char> {
    "\"r\"><a href=\""@
}

/// The marker that closes a result link in the raw result markup.
pub open spec fn link_close() -> Seq<char> {
    "\" onmousedown=\"return rwt("@
}

/// The candidate URLs read out of raw result markup, in scan order: each is
/// the text strictly between the first marker pair, and the scan resumes
/// right after the first occurrence of the captured text itself, not after
/// the closing marker. An empty capture cannot advance the scan, so it ends
/// the pass.
pub open spec fn scan_links(s: Seq<char>) -> Seq<Seq<char>>
    decreases s.len(),
    via scan_links_dec
{
    match between_strict(s, link_open(), link_close()) {
        None => Seq::empty(),
        Some(u) => if u.len() == 0 {
            seq![u]
        } else {
            seq![u] + scan_links(after_first(s, u))
        },
    }
}

#[via_fn]
proof fn scan_links_dec(s: Seq<char>) {
    match between_strict(s, link_open(), link_close()) {
        None => {},
        Some(u) => {
            if u.len() > 0 {
                lemma_between_then_after(s, link_open(), link_close());
            }
        },
    }
}

/// The query URL of result page `page`.
pub fn get_full_url(page: usize) -> (r: String)
    requires
        page <= usize::MAX / 10,
    ensures
        r@ == search_url(page as nat),
{
    let mut url = String::from_str(
        "https://www.google.com/search?q=\"discord.gg\"&tbs=qdr:h&filter=0&start=",
    );
    push_decimal(&mut url, (page * 10) as u64);
    url
}

/// Reads the candidate page URLs out of one raw result page.
pub fn extract_links(body: &str) -> (r: Vec<String>)
    ensures
        r.deep_view() == scan_links(body@),
{
    let mut rep: Vec<String> = Vec::new();
    let mut cur: &str = body;
    loop
        invariant_except_break
            scan_links(body@) == rep.deep_view() + scan_links(cur@),
        ensures
            scan_links(body@) == rep.deep_view(),
        decreases cur@.len(),
    {
        match str_between(cur, "\"r\"><a href=\"", "\" onmousedown=\"return rwt(") {
            None => {
                proof {
                    assert(rep.deep_view() + scan_links(cur@) =~= rep.deep_view());
                }
                break ;
            },
            Some(u) => {
                let ghost old_dv = rep.deep_view();
                let is_empty = u.unicode_len() == 0;
                rep.push(u.to_owned());
                proof {
                    assert(rep.deep_view() =~= old_dv.push(u@));
                }
                if is_empty {
                    proof {
                        assert(old_dv + scan_links(cur@) =~= rep.deep_view());
                    }
                    break ;
                } else {
                    proof {
                        lemma_between_then_after(cur@, link_open(), link_close());
                        assert(old_dv + (seq![u@] + scan_links(after_first(cur@, u@)))
                            =~= rep.deep_view() + scan_links(after_first(cur@, u@)));
                    }
                    cur = str_after(cur, u);
                }
            },
        }
    }
    rep
}

} // verus!
