//! Scanning an arbitrary page body for `discord.gg/` invite tokens and
//! normalizing the accepted ones into canonical invite URLs.

use crate::discord::canon_prefix;
use crate::scan::{after_first, find_pat, lemma_after_first_shrinks, str_after};
use vstd::prelude::*;
use vstd::string::{StrSliceExecFns, StringExecFns};

verus! {

/// The link-prefix marker searched for in page bodies.
pub open spec fn gg_marker() -> Seq<char> {
    "discord.gg/"@
}

/// The character class a raw token is scanned from: ASCII alphanumerics,
/// `-`, `/` and `_`.
pub open spec fn is_invite_char(c: char) -> bool {
    let x = c as u32;
    (48 <= x <= 57) || (65 <= x <= 90) || (97 <= x <= 122) || x == 45 || x == 47 || x == 95
}

/// The length of the longest prefix of `s` made of token characters.
pub open spec fn token_len(s: Seq<char>) -> nat
    decreases s.len(),
{
    if s.len() == 0 || !is_invite_char(s[0]) {
        0
    } else {
        (1 + token_len(s.skip(1))) as nat
    }
}

proof fn lemma_token_len_at(s: Seq<char>, i: int)
    requires
        0 <= i <= s.len(),
        forall|j: int| 0 <= j < i ==> is_invite_char(s[j]),
        i < s.len() ==> !is_invite_char(s[i]),
    ensures
        token_len(s) == i,
    decreases i,
{
    if i == 0 {
    } else {
        assert(is_invite_char(s[0]));
        let sub = s.skip(1);
        assert forall|j: int| 0 <= j < i - 1 implies is_invite_char(sub[j]) by {
            assert(sub[j] == s[j + 1]);
        };
        assert(i - 1 < sub.len() ==> !is_invite_char(sub[i - 1]));
        lemma_token_len_at(sub, i - 1);
    }
}

fn is_invite_char_x(c: char) -> (b: bool)
    ensures
        b == is_invite_char(c),
{
    let x = c as u32;
    (48 <= x && x <= 57) || (65 <= x && x <= 90) || (97 <= x && x <= 122) || x == 45 || x == 47
        || x == 95
}

/// The raw candidate token at the front of `url`: the longest prefix of
/// token characters, cut at the first character outside the class.
pub fn get_url(url: &str) -> (r: &str)
    ensures
        r@ == url@.take(token_len(url@) as int),
        r@.len() == token_len(url@),
{
    let n: usize = url.unicode_len();
    let mut i: usize = 0;
    loop
        invariant
            n == url@.len(),
            i <= n,
            forall|j: int| 0 <= j < i ==> is_invite_char(url@[j]),
        ensures
            i <= n,
            forall|j: int| 0 <= j < i ==> is_invite_char(url@[j]),
            i == n || !is_invite_char(url@[i as int]),
        decreases n - i,
    {
        if i >= n {
            break ;
        }
        if !is_invite_char_x(url.get_char(i)) {
            break ;
        }
        i = i + 1;
    }
    proof {
        lemma_token_len_at(url@, i as int);
    }
    url.substring_char(0, i)
}

/// The canonical invite URL of a token.
pub open spec fn canon_url(t: Seq<char>) -> Seq<char> {
    canon_prefix() + t
}

/// The canonical invite URLs scanned from the text after one `discord.gg/`
/// occurrence, in scan order and with duplicates: the raw token right after
/// the occurrence is kept exactly when it is 7 characters long, and the
/// scan resumes right after the next occurrence of the marker.
pub open spec fn invites_from(rest: Seq<char>) -> Seq<Seq<char>>
    decreases rest.len(),
    via invites_from_dec
{
    if rest.len() == 0 {
        Seq::empty()
    } else {
        let t = rest.take(token_len(rest) as int);
        let tail = invites_from(after_first(rest, gg_marker()));
        if token_len(rest) == 7 {
            seq![canon_url(t)] + tail
        } else {
            tail
        }
    }
}

#[via_fn]
proof fn invites_from_dec(rest: Seq<char>) {
    if rest.len() > 0 {
        reveal_strlit("discord.gg/");
        if find_pat(rest, gg_marker()) is Some {
            lemma_after_first_shrinks(rest, gg_marker());
        }
    }
}

/// All canonical invite URLs of a page body, in scan order and with
/// duplicates.
pub open spec fn invite_urls(s: Seq<char>) -> Seq<Seq<char>> {
    invites_from(after_first(s, gg_marker()))
}

/// Deduplication that keeps the first appearance of each element, in order.
pub open spec fn dedup_from(acc: Seq<Seq<char>>, q: Seq<Seq<char>>) -> Seq<Seq<char>>
    decreases q.len(),
{
    if q.len() == 0 {
        acc
    } else {
        dedup_from(
            if acc.contains(q[0]) {
                acc
            } else {
                acc.push(q[0])
            },
            q.drop_first(),
        )
    }
}

/// The elements of `q`, first appearances only, in order of first
/// appearance.
pub open spec fn dedup_first(q: Seq<Seq<char>>) -> Seq<Seq<char>> {
    dedup_from(Seq::empty(), q)
}

fn contains_string(v: &Vec<String>, x: &String) -> (b: bool)
    ensures
        b == v.deep_view().contains(x@),
{
    let n: usize = v.len();
    let mut k: usize = 0;
    while k < n
        invariant
            n == v@.len(),
            k <= n,
            forall|j: int| 0 <= j < k ==> v@[j]@ != x@,
        decreases n - k,
    {
        if v[k].eq(x) {
            proof {
                assert(v.deep_view()[k as int] == x@);
            }
            return true;
        }
        k = k + 1;
    }
    proof {
        assert forall|j: int| 0 <= j < v.deep_view().len() implies v.deep_view()[j] != x@ by {
            assert(v.deep_view()[j] == v@[j]@);
        };
    }
    false
}

/// Scans a page body for invite tokens: every text right after a
/// `discord.gg/` occurrence is scanned for a raw token, tokens of exactly 7
/// characters are normalized to canonical invite URLs, and duplicates are
/// suppressed, first appearance first. Absence of matches yields an empty
/// list, never an error.
pub fn extract_invites(body: &str) -> (r: Vec<String>)
    ensures
        r.deep_view() == dedup_first(invite_urls(body@)),
{
    let mut rep: Vec<String> = Vec::new();
    let mut rest: &str = str_after(body, "discord.gg/");
    proof {
        assert(rep.deep_view() =~= Seq::<Seq<char>>::empty());
    }
    loop
        invariant
            dedup_from(rep.deep_view(), invites_from(rest@)) == dedup_first(invite_urls(body@)),
        ensures
            rep.deep_view() == dedup_first(invite_urls(body@)),
        decreases rest@.len(),
    {
        if rest.is_empty() {
            break ;
        }
        let ghost old_dv = rep.deep_view();
        let tok = get_url(rest);
        let next = str_after(rest, "discord.gg/");
        if tok.unicode_len() == 7 {
            let url = String::from_str("https://discord.com/invite/").concat(tok);
            let ghost uv = url@;
            proof {
                assert(uv == canon_url(rest@.take(token_len(rest@) as int)));
                assert((seq![uv] + invites_from(next@))[0] == uv);
                assert((seq![uv] + invites_from(next@)).drop_first() =~= invites_from(next@));
            }
            if !contains_string(&rep, &url) {
                rep.push(url);
                proof {
                    assert(rep.deep_view() =~= old_dv.push(uv));
                }
            }
        }
        proof {
            reveal_strlit("discord.gg/");
            if find_pat(rest@, gg_marker()) is Some {
                lemma_after_first_shrinks(rest@, gg_marker());
            }
        }
        rest = next;
    }
    rep
}

/// A body with no `discord.gg/` occurrence yields no invite URL.
pub proof fn lemma_no_marker_no_invites(s: Seq<char>)
    requires
        find_pat(s, gg_marker()) is None,
    ensures
        dedup_first(invite_urls(s)) == Seq::<Seq<char>>::empty(),
{
    assert(after_first(s, gg_marker()) =~= Seq::<char>::empty());
}

/// No element appears twice in a sequence of distinct elements.
pub open spec fn distinct(s: Seq<Seq<char>>) -> bool {
    forall|i: int, j: int| 0 <= i < j < s.len() ==> s[i] != s[j]
}

proof fn lemma_dedup_from_distinct(acc: Seq<Seq<char>>, q: Seq<Seq<char>>)
    requires
        distinct(acc),
    ensures
        distinct(dedup_from(acc, q)),
    decreases q.len(),
{
    if q.len() == 0 {
    } else {
        let acc2 = if acc.contains(q[0]) {
            acc
        } else {
            acc.push(q[0])
        };
        assert(distinct(acc2));
        lemma_dedup_from_distinct(acc2, q.drop_first());
    }
}

/// The extracted invite URLs hold no duplicate: each canonical URL appears
/// at most once, however often its token occurs in the body.
pub proof fn lemma_dedup_first_distinct(q: Seq<Seq<char>>)
    ensures
        distinct(dedup_first(q)),
{
    lemma_dedup_from_distinct(Seq::empty(), q);
}

proof fn lemma_dedup_from_membership(acc: Seq<Seq<char>>, q: Seq<Seq<char>>, x: Seq<char>)
    ensures
        dedup_from(acc, q).contains(x) <==> (acc.contains(x) || q.contains(x)),
    decreases q.len(),
{
    if q.len() == 0 {
    } else {
        let acc2 = if acc.contains(q[0]) {
            acc
        } else {
            acc.push(q[0])
        };
        lemma_dedup_from_membership(acc2, q.drop_first(), x);
        assert(acc2.contains(x) <==> (acc.contains(x) || x == q[0])) by {
            if !acc.contains(q[0]) {
                if acc.contains(x) {
                    let i = choose|i: int| 0 <= i < acc.len() && acc[i] == x;
                    assert(acc2[i] == x);
                }
                if x == q[0] {
                    assert(acc2[acc.len() as int] == x);
                }
                if acc2.contains(x) {
                    let i = choose|i: int| 0 <= i < acc2.len() && acc2[i] == x;
                    if i < acc.len() {
                        assert(acc[i] == x);
                    }
                }
            }
        };
        assert(q.contains(x) <==> (x == q[0] || q.drop_first().contains(x))) by {
            if q.contains(x) {
                let i = choose|i: int| 0 <= i < q.len() && q[i] == x;
                if i > 0 {
                    assert(q.drop_first()[i - 1] == x);
                }
            }
            if q.drop_first().contains(x) {
                let i = choose|i: int| 0 <= i < q.drop_first().len() && q.drop_first()[i] == x;
                assert(q[i + 1] == x);
            }
            if x == q[0] {
                assert(q[0] == x);
            }
        };
    }
}

/// Deduplication drops nothing and invents nothing: a URL stands in the
/// deduplicated list exactly when it stands in the raw scan.
pub proof fn lemma_dedup_first_membership(q: Seq<Seq<char>>, x: Seq<char>)
    ensures
        dedup_first(q).contains(x) <==> q.contains(x),
{
    lemma_dedup_from_membership(Seq::empty(), q, x);
}

} // verus!
