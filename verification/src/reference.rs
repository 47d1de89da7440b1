//! The typed asset reference: a token's `extra` metadata carries an
//! `inventory_id/asset_id/license_id` path that joins the ledger token back
//! to its catalog entry.  Reading a reference fails closed: a missing,
//! undecodable or too-short path yields nothing rather than a made-up key.

use vstd::prelude::*;

use crate::json::clean;
use crate::json::parse_token_extra;
use crate::json::token_extra_json;
use crate::json::token_extra_to_json;
use crate::types::TokenExtra;
use crate::types::TokenExtraV;
use crate::types::TokenMetadata;

verus! {

/// The least index at or after `from` holding a slash.
pub open spec fn first_slash(s: Seq<char>, from: int) -> Option<int>
    decreases s.len() - from,
{
    if from < 0 || from >= s.len() {
        None
    } else if s[from] == '/' {
        Some(from)
    } else {
        first_slash(s, from + 1)
    }
}

/// The three leading slash-separated components of a path, when it has at
/// least three; the third component stops at the next slash or the end.
pub open spec fn split3(s: Seq<char>) -> Option<(Seq<char>, Seq<char>, Seq<char>)> {
    match first_slash(s, 0) {
        None => None,
        Some(i) => match first_slash(s, i + 1) {
            None => None,
            Some(j) => {
                let end = match first_slash(s, j + 1) {
                    Some(k) => k,
                    None => s.len() as int,
                };
                Some((s.take(i), s.subrange(i + 1, j), s.subrange(j + 1, end)))
            },
        },
    }
}

/// A sequence without slashes.
pub open spec fn slash_free(s: Seq<char>) -> bool {
    forall|i: int| 0 <= i < s.len() ==> (#[trigger] s[i]) != '/'
}

/// A slash-free stretch holds no first slash.
pub proof fn lemma_first_slash_none(s: Seq<char>, from: int)
    requires
        forall|i: int| from <= i < s.len() ==> (#[trigger] s[i]) != '/',
    ensures
        first_slash(s, from) is None,
    decreases s.len() - from,
{
    if 0 <= from < s.len() {
        lemma_first_slash_none(s, from + 1);
    }
}

/// The first slash after a slash-free stretch is found exactly there.
pub proof fn lemma_first_slash_at(s: Seq<char>, from: int, i: int)
    requires
        0 <= from <= i < s.len(),
        s[i] == '/',
        forall|j: int| from <= j < i ==> (#[trigger] s[j]) != '/',
    ensures
        first_slash(s, from) == Some(i),
    decreases i - from,
{
    if from < i {
        lemma_first_slash_at(s, from + 1, i);
    }
}

/// Splitting undoes joining three slash-free components.
pub proof fn lemma_split3_join(a: Seq<char>, b: Seq<char>, c: Seq<char>)
    requires
        slash_free(a),
        slash_free(b),
        slash_free(c),
    ensures
        split3(a + seq!['/'] + b + seq!['/'] + c) == Some((a, b, c)),
{
    let s = a + seq!['/'] + b + seq!['/'] + c;
    let i = a.len() as int;
    let j = a.len() + 1 + b.len() as int;
    assert(s[i] == '/');
    assert(s[j] == '/');
    assert(forall|k: int| 0 <= k < i ==> (#[trigger] s[k]) == a[k]);
    lemma_first_slash_at(s, 0, i);
    assert(forall|k: int| i + 1 <= k < j ==> (#[trigger] s[k]) == b[k - i - 1]);
    lemma_first_slash_at(s, i + 1, j);
    assert(forall|k: int| j + 1 <= k < s.len() ==> (#[trigger] s[k]) == c[k - j - 1]);
    lemma_first_slash_none(s, j + 1);
    assert(s.take(i) =~= a);
    assert(s.subrange(i + 1, j) =~= b);
    assert(s.subrange(j + 1, s.len() as int) =~= c);
}

/// The reference a token's metadata carries: the decoded `extra` field's
/// path, split in its three components.
pub open spec fn spec_asset_path_triple(m: TokenMetadata) -> Option<(Seq<char>, Seq<char>, Seq<
    char,
>)> {
    match m.extra {
        None => None,
        Some(e) => match parse_token_extra(e@) {
            None => None,
            Some(x) => split3(x.asset_id_path),
        },
    }
}

/// Finds the least character index at or after `from` holding a slash.
fn find_slash(s: &str, from: usize) -> (r: Option<usize>)
    requires
        from <= s@.len(),
    ensures
        match r {
            Some(i) => first_slash(s@, from as int) == Some(i as int) && from <= i < s@.len(),
            None => first_slash(s@, from as int) is None,
        },
{
    let n = s.unicode_len();
    let mut i: usize = from;
    while i < n
        invariant
            from <= i <= n,
            n == s@.len(),
            forall|j: int| from <= j < i ==> (#[trigger] s@[j]) != '/',
        decreases n - i,
    {
        if s.get_char(i) == '/' {
            proof {
                lemma_first_slash_at(s@, from as int, i as int);
            }
            return Some(i);
        }
        i = i + 1;
    }
    proof {
        lemma_first_slash_none(s@, from as int);
    }
    None
}

/// Splits a path in its three leading components, if it has three.
pub fn split_path3(s: &str) -> (r: Option<(String, String, String)>)
    ensures
        match r {
            Some(t) => split3(s@) == Some((t.0@, t.1@, t.2@)),
            None => split3(s@) is None,
        },
{
    let n = s.unicode_len();
    let i = match find_slash(s, 0) {
        Some(i) => i,
        None => {
            return None;
        },
    };
    let j = match find_slash(s, i + 1) {
        Some(j) => j,
        None => {
            return None;
        },
    };
    let end = match find_slash(s, j + 1) {
        Some(k) => k,
        None => n,
    };
    let p0 = s.substring_char(0, i).to_owned();
    let p1 = s.substring_char(i + 1, j).to_owned();
    let p2 = s.substring_char(j + 1, end).to_owned();
    proof {
        assert(s@.take(i as int) == s@.subrange(0, i as int));
    }
    Some((p0, p1, p2))
}

impl TokenMetadata {
    /// The `inventory_id/asset_id/license_id` reference carried in the
    /// token's `extra` field; nothing when the field is absent, does not
    /// decode, or holds fewer than three components.
    pub fn inventory_asset_license(&self) -> (r: Option<(String, String, String)>)
        ensures
            match r {
                Some(t) => spec_asset_path_triple(*self) == Some((t.0@, t.1@, t.2@)),
                None => spec_asset_path_triple(*self) is None,
            },
    {
        let e = match &self.extra {
            Some(e) => e,
            None => {
                return None;
            },
        };
        let x = match crate::json::token_extra_from_json(e.as_str()) {
            Some(x) => x,
            None => {
                return None;
            },
        };
        split_path3(x.asset_id_path.as_str())
    }
}

/// Builds the canonical `extra` contents holding the given reference
/// path; whatever the field held before is replaced by the typed
/// reference.  Fails exactly when a component holds a control character.
pub fn extra_reference_for_asset_path(
    _extra_orig: String,
    inv_id: String,
    asset_id: String,
    license_id: String,
) -> (r: Option<String>)
    ensures
        ({
            let path = inv_id@ + seq!['/'] + asset_id@ + seq!['/'] + license_id@;
            (r is Some <==> clean(path)) && (r is Some ==> r->0@ == token_extra_json(
                TokenExtraV { asset_id_path: path },
            ))
        }),
{
    let mut path = inv_id;
    path.append("/");
    path.append(asset_id.as_str());
    path.append("/");
    path.append(license_id.as_str());
    proof {
        reveal_strlit("/");
        assert("/"@ =~= seq!['/']);
    }
    let extra = TokenExtra { asset_id_path: path };
    token_extra_to_json(&extra)
}

} // verus!
