//! Announcing a new version: whether to announce, the briefing taken from the
//! release notes, and the announcement text.
use vstd::prelude::*;
use crate::text::{
    split_on, split_char, byte_len, bytes_prefix, boundary_at, byte_length, prefix_bytes,
    push_str, push_char, text_eq,
};

verus! {

/// Announce when the stored version differs from the running one; with no stored
/// version (first start) nothing is announced.
pub open spec fn should_announce(stored: Option<Seq<char>>, current: Seq<char>) -> bool {
    match stored {
        Some(v) => v != current,
        None => false,
    }
}

pub fn should_broadcast(stored: Option<&str>, current: &str) -> (b: bool)
    ensures
        b == should_announce(
            match stored {
                Some(v) => Some(v@),
                None => None,
            },
            current@,
        ),
{
    match stored {
        Some(v) => !text_eq(v, current),
        None => false,
    }
}

pub open spec fn release_api_url_text(version: Seq<char>) -> Seq<char> {
    "https://api.github.com/repos/luccamz/discord-vc-statsmaster/releases/tags/v"@ + version
}

/// The GitHub API address of the release of `version`.
pub fn release_api_url(version: &str) -> (s: String)
    ensures
        s@ == release_api_url_text(version@),
{
    let mut s = String::new();
    push_str(&mut s, "https://api.github.com/repos/luccamz/discord-vc-statsmaster/releases/tags/v");
    push_str(&mut s, version);
    s
}

/// What `serde_json` reads as the string field `body` of a JSON document, or
/// the empty text when the bytes are not JSON or the field is not a string.
pub uninterp spec fn json_body_field(bytes: Seq<u8>) -> Seq<char>;

/// Calls `serde_json::from_slice` into a `serde_json::Value` (the default value
/// when it fails), then reads `value["body"].as_str()` (the empty text when it is
/// absent or not a string). The contract names the result; JSON parsing itself is
/// not stated.
#[verifier::external_body]
fn release_body(bytes: &[u8]) -> (s: String)
    ensures
        s@ == json_body_field(bytes@),
{
    let json: serde_json::Value = serde_json::from_slice(bytes).unwrap_or_default();
    json["body"].as_str().unwrap_or("").to_string()
}

/// A line without its final carriage return, when it ended with `\r\n`.
pub open spec fn strip_cr(p: Seq<char>) -> Seq<char> {
    if p.len() > 0 && p.last() == '\r' {
        p.drop_last()
    } else {
        p
    }
}

/// The lines of `s`, as `str::lines` yields them: split at `\n`, a `\r` before
/// the `\n` removed, and no empty line after a final `\n`.
pub open spec fn lines_of(s: Seq<char>) -> Seq<Seq<char>> {
    let parts = split_on(s, '\n');
    let n = parts.len();
    Seq::new(
        if parts[n - 1].len() == 0 {
            (n - 1) as nat
        } else {
            n as nat
        },
        |i: int|
            if i < n - 1 {
                strip_cr(parts[i])
            } else {
                parts[i]
            },
    )
}

/// The lines joined with `\n` between them.
pub open spec fn joined(ls: Seq<Seq<char>>) -> Seq<char>
    decreases ls.len(),
{
    if ls.len() == 0 {
        Seq::empty()
    } else if ls.len() == 1 {
        ls[0]
    } else {
        joined(ls.drop_last()) + "\n"@ + ls.last()
    }
}

/// The first three lines of the release notes, joined.
pub open spec fn snippet(body: Seq<char>) -> Seq<char> {
    let ls = lines_of(body);
    joined(ls.take(if ls.len() < 3 {
        ls.len() as int
    } else {
        3
    }))
}

pub open spec fn fallback_briefing() -> Seq<char> {
    "General stability updates and background improvements."@
}

/// The briefing: the snippet, cut to 300 bytes plus `...` when longer, or a
/// general sentence when the notes are empty.
pub open spec fn briefing_text(body: Seq<char>) -> Seq<char> {
    let sn = snippet(body);
    if sn.len() == 0 {
        fallback_briefing()
    } else if byte_len(sn) > 300 {
        bytes_prefix(sn, 300) + "..."@
    } else {
        sn
    }
}

/// A long snippet is cut on a character boundary (else `String::truncate` panics).
pub open spec fn briefing_defined(body: Seq<char>) -> bool {
    byte_len(snippet(body)) > 300 ==> boundary_at(snippet(body), 300)
}

proof fn lemma_split_nonempty(s: Seq<char>)
    ensures
        split_on(s, '\n').len() >= 1,
    decreases s.len(),
{
    if s.len() > 0 {
        lemma_split_nonempty(s.drop_last());
    }
}

fn snippet_of(body: &str) -> (s: String)
    ensures
        s@ == snippet(body@),
{
    let parts = split_char(body, '\n');
    let ghost pv = parts@.map_values(|t: String| t@);
    proof {
        lemma_split_nonempty(body@);
    }
    let n = parts.len();
    let count: usize = if parts[n - 1].as_str().unicode_len() == 0 { n - 1 } else { n };
    assert(pv[n - 1] == parts@[n - 1]@);
    let ghost ls = lines_of(body@);
    assert(ls.len() == count);
    let k: usize = if count < 3 { count } else { 3 };
    let mut s = String::new();
    let mut i: usize = 0;
    while i < k
        invariant
            pv == parts@.map_values(|t: String| t@),
            pv == split_on(body@, '\n'),
            n == parts@.len(),
            ls == lines_of(body@),
            count == ls.len(),
            k <= count <= n,
            i <= k,
            s@ == joined(ls.take(i as int)),
        decreases k - i,
    {
        let p = parts[i].as_str();
        assert(p@ == pv[i as int]);
        let m = p.unicode_len();
        let ghost before = s@;
        if i > 0 {
            push_char(&mut s, '\n');
        }
        let ghost mid = s@;
        if i < n - 1 && m > 0 && p.get_char(m - 1) == '\r' {
            push_str(&mut s, p.substring_char(0, m - 1));
            assert(p@.subrange(0, m - 1) =~= p@.drop_last());
            assert(s@ == mid + ls[i as int]);
        } else {
            push_str(&mut s, p);
            assert(s@ == mid + ls[i as int]);
        }
        proof {
            reveal_strlit("\n");
            assert(ls[i as int] == (if (i as int) < n - 1 {
                strip_cr(pv[i as int])
            } else {
                pv[i as int]
            }));
            let t = ls.take(i + 1);
            assert(t.drop_last() =~= ls.take(i as int));
            assert(t.last() == ls[i as int]);
            if i > 0 {
                assert(s@ =~= joined(ls.take(i as int)) + "\n"@ + ls[i as int]);
            } else {
                assert(s@ =~= ls[0]);
            }
        }
        i = i + 1;
    }
    assert(ls.take(k as int) =~= ls.take(if ls.len() < 3 { ls.len() as int } else { 3 }));
    s
}

/// The briefing of release notes whose `body` is known.
pub fn briefing(body: &str) -> (s: String)
    requires
        briefing_defined(body@),
    ensures
        s@ == briefing_text(body@),
{
    let sn = snippet_of(body);
    if sn.as_str().unicode_len() == 0 {
        return String::from_str("General stability updates and background improvements.");
    }
    if byte_length(sn.as_str()) > 300 {
        let mut cut = prefix_bytes(sn.as_str(), 300);
        push_str(&mut cut, "...");
        cut
    } else {
        sn
    }
}

/// The briefing for the announcement: from the notes of a successful answer of
/// the releases API (`None` when the request failed or was refused). `None`
/// where the briefing is not defined (where the original panics).
pub fn changelog_briefing(answer: Option<&[u8]>) -> (s: Option<String>)
    ensures
        answer is None ==> (s matches Some(t) && t@ == fallback_briefing()),
        answer matches Some(b) ==> (s is Some <==> briefing_defined(json_body_field(b@))),
        answer matches Some(b) ==> (s matches Some(t) ==> t@ == briefing_text(json_body_field(b@))),
{
    match answer {
        None => Some(String::from_str("General stability updates and background improvements.")),
        Some(b) => {
            let body = release_body(b);
            let sn = snippet_of(body.as_str());
            if byte_length(sn.as_str()) > 300 && !sn.as_str().is_char_boundary(300) {
                None
            } else {
                Some(briefing(body.as_str()))
            }
        },
    }
}

pub open spec fn announcement_text(version: Seq<char>, briefing: Seq<char>) -> Seq<char> {
    "**v"@ + version + " is now live!**\n\n"@ + briefing
        + "\n\n**Full release notes:** https://github.com/luccamz/discord-vc-statsmaster/releases/tag/v"@
        + version
}

/// The announcement of `version` with its briefing.
pub fn announcement(version: &str, briefing: &str) -> (s: String)
    ensures
        s@ == announcement_text(version@, briefing@),
{
    let mut s = String::new();
    push_str(&mut s, "**v");
    push_str(&mut s, version);
    push_str(&mut s, " is now live!**\n\n");
    push_str(&mut s, briefing);
    push_str(
        &mut s,
        "\n\n**Full release notes:** https://github.com/luccamz/discord-vc-statsmaster/releases/tag/v",
    );
    push_str(&mut s, version);
    assert(s@ =~= announcement_text(version@, briefing@));
    s
}

} // verus!
