//! The invite record and its helpers: extracting an invite code from either
//! recognized URL shape, building the lookup URL of a code, and rendering a
//! record's canonical URL.

use crate::Error;
use vstd::prelude::*;
use vstd::string::{StrSliceExecFns, StringExecFns};

verus! {

/// The canonical invite URL prefix.
pub open spec fn canon_prefix() -> Seq<char> {
    "https://discord.com/invite/"@
}

/// The short invite URL prefix.
pub open spec fn short_prefix() -> Seq<char> {
    "https://discord.gg/"@
}

/// Everything of the invite lookup URL before the code.
pub open spec fn api_prefix() -> Seq<char> {
    "https://discord.com/api/v6/invites/"@
}

/// The query flag of the invite lookup URL, asking for approximate counts.
pub open spec fn api_suffix() -> Seq<char> {
    "?with_counts=true"@
}

/// The invite code carried by a URL: the nonempty remainder after exactly
/// one of the two recognized prefixes, or nothing when neither matches.
pub open spec fn spec_invite_code(u: Seq<char>) -> Option<Seq<char>> {
    if u.len() > canon_prefix().len() && u.take(canon_prefix().len() as int) == canon_prefix() {
        Some(u.skip(canon_prefix().len() as int))
    } else if u.len() > short_prefix().len() && u.take(short_prefix().len() as int)
        == short_prefix() {
        Some(u.skip(short_prefix().len() as int))
    } else {
        None
    }
}

/// The canonical invite URL of a code.
pub open spec fn invite_url(code: Seq<char>) -> Seq<char> {
    canon_prefix() + code
}

/// The invite lookup URL of a code.
pub open spec fn api_url(code: Seq<char>) -> Seq<char> {
    api_prefix() + code + api_suffix()
}

fn has_prefix(s: &str, p: &str) -> (b: bool)
    ensures
        b == (p@.len() <= s@.len() && s@.take(p@.len() as int) == p@),
{
    let pn: usize = p.unicode_len();
    let sn: usize = s.unicode_len();
    if pn > sn {
        return false;
    }
    let mut i: usize = 0;
    while i < pn
        invariant
            pn == p@.len(),
            sn == s@.len(),
            pn <= sn,
            i <= pn,
            forall|j: int| 0 <= j < i ==> s@[j] == p@[j],
        decreases pn - i,
    {
        if s.get_char(i) != p.get_char(i) {
            proof {
                assert(s@.take(pn as int)[i as int] != p@[i as int]);
            }
            return false;
        }
        i = i + 1;
    }
    proof {
        assert(s@.take(pn as int) =~= p@);
    }
    true
}

/// Extracts the invite code from a URL of either recognized shape:
/// `https://discord.com/invite/<code>` or `https://discord.gg/<code>`,
/// exact on the prefix, with nothing else accepted.
pub fn get_invite_code<'a>(url: &'a str) -> (r: Option<&'a str>)
    ensures
        (match r {
            Some(c) => spec_invite_code(url@) == Some(c@),
            None => spec_invite_code(url@) is None,
        }),
{
    proof {
        reveal_strlit("https://discord.com/invite/");
        reveal_strlit("https://discord.gg/");
    }
    let n: usize = url.unicode_len();
    if n > 27 && has_prefix(url, "https://discord.com/invite/") {
        let r = url.substring_char(27, n);
        proof {
            assert(r@ =~= url@.skip(canon_prefix().len() as int));
        }
        Some(r)
    } else if n > 19 && has_prefix(url, "https://discord.gg/") {
        let r = url.substring_char(19, n);
        proof {
            assert(r@ =~= url@.skip(short_prefix().len() as int));
        }
        Some(r)
    } else {
        None
    }
}

/// The guild a resolved invite points into, as far as the platform
/// supplies it.
#[derive(Debug)]
pub struct Guild {
    pub banner: Option<String>,
    pub description: Option<String>,
    pub id: String,
    pub icon: Option<String>,
    pub name: String,
    pub splash: Option<String>,
    pub vanity_url_code: Option<String>,
    pub verification_level: u8,
}

/// The channel a resolved invite opens into.
#[derive(Debug)]
pub struct Channel {
    pub id: String,
    pub name: Option<String>,
    pub channel_type: usize,
}

/// The user who created a resolved invite.
#[derive(Debug)]
pub struct User {
    pub id: String,
    pub username: String,
    pub avatar: Option<String>,
    pub discriminator: String,
}

/// A resolved invite: the code, what it points at, and approximate counts.
#[derive(Debug)]
pub struct Invite {
    pub code: String,
    pub guild: Option<Guild>,
    pub channel: Channel,
    pub inviter: Option<User>,
    pub approximate_member_count: u64,
    pub approximate_presence_count: u64,
}

impl Invite {
    /// The canonical invite URL of this invite's code.
    pub fn get_url(&self) -> (r: String)
        ensures
            r@ == invite_url(self.code@),
    {
        String::from_str("https://discord.com/invite/").concat(self.code.as_str())
    }
}

/// The lookup URL for a recognized invite URL, or `InvalidResponse` when the
/// URL matches neither recognized shape; no other outcome is possible.
pub fn invite_request_url(url: &str) -> (r: Result<String, Error>)
    ensures
        (match spec_invite_code(url@) {
            Some(c) => r is Ok && r->Ok_0@ == api_url(c),
            None => r is Err && r->Err_0 == Error::InvalidResponse,
        }),
{
    match get_invite_code(url) {
        None => Err(Error::InvalidResponse),
        Some(code) => {
            let mut s = String::from_str("https://discord.com/api/v6/invites/");
            s.append(code);
            s.append("?with_counts=true");
            proof {
                assert(s@ =~= api_url(spec_invite_code(url@)->Some_0));
            }
            Ok(s)
        },
    }
}

/// The acceptance rule for a lookup response that did complete: only a
/// success status with a readable text body is decoded further; anything
/// else is an invalid response.
pub fn check_lookup_response(status: u16, readable: bool) -> (r: Result<(), Error>)
    ensures
        r is Ok <==> (status == 200 && readable),
        r is Err ==> r->Err_0 == Error::InvalidResponse,
{
    if status == 200 && readable {
        Ok(())
    } else {
        Err(Error::InvalidResponse)
    }
}

/// Rendering an invite's URL is a left inverse of code extraction on
/// canonical inputs: a URL that is exactly the canonical prefix followed by
/// a nonempty code extracts that code, and rendering the code yields the
/// URL back unchanged.
pub proof fn lemma_canonical_round_trip(u: Seq<char>, code: Seq<char>)
    requires
        u == canon_prefix() + code,
        code.len() > 0,
    ensures
        spec_invite_code(u) == Some(code),
        invite_url(code) == u,
{
    assert(u.take(canon_prefix().len() as int) =~= canon_prefix());
    assert(u.skip(canon_prefix().len() as int) =~= code);
}

} // verus!
