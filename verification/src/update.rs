use vstd::prelude::*;

verus! {

use vstd::string::StringExecFns;
use crate::text::{
    chars_of, spec_parse_u32, split_chars, split_on, parse_u32_range, string_from_range,
};

/// A newer release that is available for download.
#[derive(Clone, Debug)]
pub struct UpdateInfo {
    pub version: String,
    pub download_url: String,
    pub release_notes: Option<String>,
}

impl Default for UpdateInfo {
    /// An empty record: no version, no url, no notes.
    fn default() -> (r: Self)
        ensures
            r.version@ == Seq::<char>::empty(),
            r.download_url@ == Seq::<char>::empty(),
            r.release_notes is None,
    {
        UpdateInfo { version: String::new(), download_url: String::new(), release_notes: None }
    }
}

/// Where the packaged download of the latest release lives.
pub open spec fn spec_download_url() -> Seq<char> {
    "https://github.com/gupsammy/PortKiller/releases/latest/download/PortKiller.dmg"@
}

pub fn download_url() -> (r: &'static str)
    ensures
        r@ == spec_download_url(),
{
    "https://github.com/gupsammy/PortKiller/releases/latest/download/PortKiller.dmg"
}

/// Where the latest-release record is fetched from.
pub open spec fn spec_release_api_url() -> Seq<char> {
    "https://api.github.com/repos/gupsammy/PortKiller/releases/latest"@
}

pub fn release_api_url() -> (r: &'static str)
    ensures
        r@ == spec_release_api_url(),
{
    "https://api.github.com/repos/gupsammy/PortKiller/releases/latest"
}

// ---------------------------------------------------------------------------
// Version comparison.
// ---------------------------------------------------------------------------

/// The numbers among the dot-separated parts, in order; parts that are not
/// numbers are passed over.
pub open spec fn parsed_parts(parts: Seq<Seq<char>>) -> Seq<u32>
    decreases parts.len(),
{
    if parts.len() == 0 {
        Seq::<u32>::empty()
    } else {
        let rest = parsed_parts(parts.drop_last());
        match spec_parse_u32(parts.last()) {
            Some(v) => rest.push(v),
            None => rest,
        }
    }
}

/// The i-th numeric component of a version string, 0 when missing.
pub open spec fn version_part(s: Seq<char>, i: int) -> u32 {
    let ps = parsed_parts(split_on(s, '.'));
    if 0 <= i < ps.len() {
        ps[i]
    } else {
        0
    }
}

/// (major, minor, patch) of a version string.
pub open spec fn version_triple(s: Seq<char>) -> (u32, u32, u32) {
    (version_part(s, 0), version_part(s, 1), version_part(s, 2))
}

/// Is version `a` strictly greater than `b`, comparing (major, minor,
/// patch) lexicographically?
pub open spec fn spec_is_newer(a: Seq<char>, b: Seq<char>) -> bool {
    let x = version_triple(a);
    let y = version_triple(b);
    x.0 > y.0 || (x.0 == y.0 && (x.1 > y.1 || (x.1 == y.1 && x.2 > y.2)))
}

/// The (major, minor, patch) numbers of a version string such as "1.2.3";
/// missing or malformed components count as 0.
pub fn version_triple_of(s: &str) -> (r: (u32, u32, u32))
    ensures
        r == version_triple(s@),
{
    let cs = chars_of(s);
    let parts = split_chars(&cs, '.');
    let mut vals: Vec<u32> = Vec::new();
    let mut j: usize = 0;
    while j < parts.len()
        invariant
            j <= parts@.len(),
            parts@.len() == split_on(cs@, '.').len(),
            forall|k: int| 0 <= k < parts@.len() ==> #[trigger] parts@[k]@ == split_on(cs@, '.')[k],
            vals@ == parsed_parts(split_on(cs@, '.').take(j as int)),
        decreases parts@.len() - j,
    {
        let ghost whole = split_on(cs@, '.');
        proof {
            assert(whole.take(j + 1 as int).drop_last() =~= whole.take(j as int));
            assert(whole.take(j + 1 as int).last() == parts@[j as int]@);
        }
        let part = &parts[j];
        proof {
            assert(part@.subrange(0, part@.len() as int) =~= part@);
        }
        match parse_u32_range(part, 0, part.len()) {
            Some(v) => {
                vals.push(v);
            },
            None => {},
        }
        j = j + 1;
    }
    proof {
        assert(split_on(cs@, '.').take(split_on(cs@, '.').len() as int) =~= split_on(cs@, '.'));
    }
    let a: u32 = if vals.len() > 0 { vals[0] } else { 0 };
    let b: u32 = if vals.len() > 1 { vals[1] } else { 0 };
    let c: u32 = if vals.len() > 2 { vals[2] } else { 0 };
    (a, b, c)
}

/// Is `latest` a strictly newer version than `current`?
pub fn is_newer_version(latest: &str, current: &str) -> (r: bool)
    ensures
        r == spec_is_newer(latest@, current@),
{
    let (l_major, l_minor, l_patch) = version_triple_of(latest);
    let (c_major, c_minor, c_patch) = version_triple_of(current);
    l_major > c_major || (l_major == c_major && (l_minor > c_minor || (l_minor == c_minor
        && l_patch > c_patch)))
}

// ---------------------------------------------------------------------------
// Release evaluation.
// ---------------------------------------------------------------------------

/// `s` with every leading `c` removed, as std's trim_start_matches on a
/// single character.
pub open spec fn drop_leading(s: Seq<char>, c: char) -> Seq<char>
    decreases s.len(),
{
    if s.len() > 0 && s[0] == c {
        drop_leading(s.skip(1), c)
    } else {
        s
    }
}

proof fn lemma_drop_leading_at(s: Seq<char>, c: char, i: int)
    requires
        0 <= i <= s.len(),
        forall|j: int| 0 <= j < i ==> s[j] == c,
        i < s.len() ==> s[i] != c,
    ensures
        drop_leading(s, c) == s.skip(i),
    decreases i,
{
    if i == 0 {
        assert(s.skip(0) =~= s);
    } else {
        assert(s[0] == c);
        lemma_drop_leading_at(s.skip(1), c, i - 1);
        assert(s.skip(1).skip(i - 1) =~= s.skip(i));
    }
}

/// `s` without its leading `v` markers, as release tags carry them.
pub fn trim_leading_v(s: &str) -> (r: String)
    ensures
        r@ == drop_leading(s@, 'v'),
{
    let cs = chars_of(s);
    let mut i: usize = 0;
    while i < cs.len()
        invariant
            i <= cs@.len(),
            cs@ == s@,
            forall|j: int| 0 <= j < i ==> s@[j] == 'v',
        decreases cs@.len() - i,
    {
        if cs[i] != 'v' {
            proof {
                lemma_drop_leading_at(s@, 'v', i as int);
            }
            return string_from_range(&cs, i, cs.len());
        }
        i = i + 1;
    }
    proof {
        lemma_drop_leading_at(s@, 'v', s@.len() as int);
    }
    string_from_range(&cs, cs.len(), cs.len())
}

/// Decides whether a fetched release is an update over `current_version`:
/// pre-releases never are; otherwise the tag, without its leading `v`
/// markers, must be strictly newer. The returned record carries that
/// version, the fixed download url, and the release notes as given.
pub fn evaluate_release(
    tag_name: &str,
    prerelease: bool,
    release_notes: Option<String>,
    current_version: &str,
) -> (r: Option<UpdateInfo>)
    ensures
        match r {
            Option::None => prerelease || !spec_is_newer(
                drop_leading(tag_name@, 'v'),
                current_version@,
            ),
            Option::Some(u) => {
                &&& !prerelease
                &&& spec_is_newer(drop_leading(tag_name@, 'v'), current_version@)
                &&& u.version@ == drop_leading(tag_name@, 'v')
                &&& u.download_url@ == spec_download_url()
                &&& u.release_notes == release_notes
            },
        },
{
    if prerelease {
        return None;
    }
    let latest = trim_leading_v(tag_name);
    if is_newer_version(latest.as_str(), current_version) {
        let mut url = String::new();
        url.append(download_url());
        proof {
            assert(Seq::<char>::empty() + spec_download_url() =~= spec_download_url());
        }
        Some(UpdateInfo { version: latest, download_url: url, release_notes })
    } else {
        None
    }
}

} // verus!
