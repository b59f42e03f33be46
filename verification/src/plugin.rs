//! Detected optional-extension state of the compositor session, and the
//! parsing of the plugin list and of the session-scoped cache line.
//!
//! Probing the compositor and reading or writing the cache file is I/O and
//! is left to the surrounding binary; this module holds the pure string
//! logic: recognising a plugin name in the probe's JSON output, and the
//! cache line's format.

use vstd::prelude::*;
use vstd::string::StringSliceAdditionalSpecFns;

verus! {

/// Which optional compositor extensions are active for the session.
#[derive(Clone, Copy, PartialEq, Eq, Structural, Debug)]
pub struct PluginState {
    /// Per-monitor workspace navigation is active.
    pub split_monitor_workspaces: bool,
    /// The scrolling column layout is active.
    pub hyprscrolling: bool,
}

/// `needle` occurs as a contiguous run of bytes in `hay`.
pub open spec fn contains_seq(hay: Seq<u8>, needle: Seq<u8>) -> bool {
    exists|i: int|
        0 <= i && i + needle.len() <= hay.len() && (#[trigger] hay.subrange(i, i + needle.len()))
            == needle
}

/// Whether `needle` matches `hay` at offset `i`.
fn match_at(hay: &[u8], needle: &[u8], i: usize) -> (r: bool)
    requires
        i as int + needle@.len() <= hay@.len(),
    ensures
        r == (hay@.subrange(i as int, i as int + needle@.len()) == needle@),
{
    let m = needle.len();
    let hl = hay.len();
    for j in 0..m
        invariant
            hl == hay@.len(),
            i as int + m <= hay@.len(),
            m == needle@.len(),
            forall|t: int| 0 <= t < j ==> hay@[i as int + t] == (#[trigger] needle@[t]),
    {
        if hay[i + j] != needle[j] {
            proof {
                let sub = hay@.subrange(i as int, i as int + needle@.len());
                assert(sub[j as int] == hay@[i as int + j as int]);
            }
            return false;
        }
    }
    proof {
        assert(hay@.subrange(i as int, i as int + needle@.len()) =~= needle@);
    }
    true
}

/// Naive substring search over bytes.
fn contains_bytes(hay: &[u8], needle: &[u8]) -> (r: bool)
    ensures
        r == contains_seq(hay@, needle@),
{
    let n = hay.len();
    let m = needle.len();
    if m == 0 {
        proof {
            assert(hay@.subrange(0, 0 + needle@.len() as int) =~= needle@);
        }
        return true;
    }
    if m > n {
        proof {
            if contains_seq(hay@, needle@) {
                let t = choose|t: int|
                    0 <= t && t + needle@.len() <= hay@.len() && (#[trigger] hay@.subrange(
                        t,
                        t + needle@.len(),
                    )) == needle@;
                assert(t + m <= n);
            }
        }
        return false;
    }
    let last = n - m;
    let mut i: usize = 0;
    while i <= last
        invariant
            1 <= m <= n,
            m == needle@.len(),
            n == hay@.len(),
            last == n - m,
            i <= last + 1,
            forall|t: int| 0 <= t < i ==> (#[trigger] hay@.subrange(t, t + needle@.len())) != needle@,
        decreases last + 1 - i,
    {
        if match_at(hay, needle, i) {
            proof {
                assert(0 <= i as int && i as int + needle@.len() <= hay@.len() && hay@.subrange(
                    i as int,
                    i as int + needle@.len(),
                ) == needle@);
            }
            return true;
        }
        i += 1;
    }
    proof {
        if contains_seq(hay@, needle@) {
            let t = choose|t: int|
                0 <= t && t + needle@.len() <= hay@.len() && (#[trigger] hay@.subrange(
                    t,
                    t + needle@.len(),
                )) == needle@;
            assert(t <= last as int);
        }
    }
    false
}

/// The byte prefix `"name": "` of the plugin list's JSON, with a space
/// after the colon.
pub open spec fn pat_prefix_spaced() -> Seq<u8> {
    seq![34u8, 110u8, 97u8, 109u8, 101u8, 34u8, 58u8, 32u8, 34u8]
}

/// The byte prefix `"name":"` of the plugin list's JSON, without a space.
pub open spec fn pat_prefix_tight() -> Seq<u8> {
    seq![34u8, 110u8, 97u8, 109u8, 101u8, 34u8, 58u8, 34u8]
}

/// The byte pattern `"name": "<plugin>"` (with or without the space after
/// the colon) that the compositor's JSON plugin list prints for an active
/// plugin.
pub open spec fn plugin_pat(name: Seq<u8>, spaced: bool) -> Seq<u8> {
    (if spaced {
        pat_prefix_spaced()
    } else {
        pat_prefix_tight()
    }) + name + seq![34u8]
}

/// The probe's JSON names the plugin, in either print style.
pub open spec fn has_plugin(json: Seq<u8>, name: Seq<u8>) -> bool {
    contains_seq(json, plugin_pat(name, true)) || contains_seq(json, plugin_pat(name, false))
}

/// Build the byte needle `"name": "<name>"` (spaced) or `"name":"<name>"`.
fn plugin_needle(name: &[u8], spaced: bool) -> (r: Vec<u8>)
    ensures
        r@ == plugin_pat(name@, spaced),
{
    let mut v: Vec<u8> = Vec::new();
    // "name": with an opening quote for the value; 34 is '"', 58 is ':'.
    v.push(34);
    v.push(110);
    v.push(97);
    v.push(109);
    v.push(101);
    v.push(34);
    v.push(58);
    if spaced {
        v.push(32);
    }
    v.push(34);
    proof {
        if spaced {
            assert(v@ =~= pat_prefix_spaced());
        } else {
            assert(v@ =~= pat_prefix_tight());
        }
    }
    let ghost pfx = v@;
    let n = name.len();
    for i in 0..n
        invariant
            n == name@.len(),
            v@ == pfx + name@.subrange(0, i as int),
    {
        v.push(name[i]);
        proof {
            assert(v@ =~= pfx + name@.subrange(0, i as int + 1));
        }
    }
    v.push(34);
    proof {
        assert(name@.subrange(0, name@.len() as int) =~= name@);
        assert(v@ =~= plugin_pat(name@, spaced));
    }
    v
}

/// Check whether the JSON plugin list `json` names the plugin `name`,
/// matching the two print styles of the list (with or without a space after
/// the colon of the name field).
pub fn json_has_plugin(json: &str, name: &str) -> (r: bool)
    ensures
        r == has_plugin(json.spec_bytes(), name.spec_bytes()),
{
    let jb = json.as_bytes();
    let nb = name.as_bytes();
    let needle_spaced = plugin_needle(nb, true);
    let needle_tight = plugin_needle(nb, false);
    let r1 = contains_bytes(jb, needle_spaced.as_slice());
    let r2 = contains_bytes(jb, needle_tight.as_slice());
    r1 || r2
}

/// Byte `b` is ASCII whitespace: space, tab, line feed or carriage return.
pub open spec fn is_ws_byte(b: u8) -> bool {
    b == 32 || b == 9 || b == 10 || b == 13
}

fn is_ws(b: u8) -> (r: bool)
    ensures
        r == is_ws_byte(b),
{
    b == 32 || b == 9 || b == 10 || b == 13
}

/// `s` with leading and trailing ASCII whitespace removed.
pub open spec fn trim_spec(s: Seq<u8>) -> Seq<u8>
    decreases s.len(),
{
    if s.len() > 0 && is_ws_byte(s[0]) {
        trim_spec(s.subrange(1, s.len() as int))
    } else if s.len() > 0 && is_ws_byte(s[s.len() - 1]) {
        trim_spec(s.subrange(0, s.len() - 1))
    } else {
        s
    }
}

/// `s[i..j]` is one comma-separated segment of `s`: it abuts a comma (44)
/// or an end of `s` on both sides and holds no comma itself.
pub open spec fn segment_at(s: Seq<u8>, i: int, j: int) -> bool {
    &&& 0 <= i <= j <= s.len()
    &&& (i == 0 || s[i - 1] == 44)
    &&& (j == s.len() || s[j] == 44)
    &&& forall|t: int| i <= t < j ==> (#[trigger] s[t]) != 44
}

/// Some comma-separated segment of `s` trims to exactly `token`.
pub open spec fn has_token(s: Seq<u8>, token: Seq<u8>) -> bool {
    exists|i: int, j: int| #[trigger] segment_at(s, i, j) && trim_spec(s.subrange(i, j)) == token
}

/// Segments with an endpoint before `p` only.
spec fn has_token_upto(s: Seq<u8>, p: int, token: Seq<u8>) -> bool {
    exists|i: int, j: int|
        j < p && #[trigger] segment_at(s, i, j) && trim_spec(s.subrange(i, j)) == token
}

/// A segment is determined by its endpoint.
proof fn lemma_segment_unique(s: Seq<u8>, i1: int, i2: int, j: int)
    requires
        segment_at(s, i1, j),
        segment_at(s, i2, j),
    ensures
        i1 == i2,
{
    if i1 < i2 {
        assert(s[i2 - 1] == 44);
    }
    if i2 < i1 {
        assert(s[i1 - 1] == 44);
    }
}

/// A non-comma position ends no segment: looking one byte further changes
/// nothing.
proof fn lemma_no_new_segment(s: Seq<u8>, p: int)
    requires
        0 <= p < s.len(),
        s[p] != 44,
    ensures
        forall|tok: Seq<u8>| #[trigger] has_token_upto(s, p + 1, tok) <==> has_token_upto(s, p, tok),
{
    assert forall|tok: Seq<u8>| #[trigger] has_token_upto(s, p + 1, tok) <==> has_token_upto(s, p, tok) by {
        if has_token_upto(s, p + 1, tok) {
            let (i, j) = choose|i: int, j: int|
                j < p + 1 && #[trigger] segment_at(s, i, j) && trim_spec(s.subrange(i, j)) == tok;
            assert(j != p);
            assert(has_token_upto(s, p, tok));
        }
        if has_token_upto(s, p, tok) {
            let (i, j) = choose|i: int, j: int|
                j < p && #[trigger] segment_at(s, i, j) && trim_spec(s.subrange(i, j)) == tok;
            assert(j < p + 1 && segment_at(s, i, j) && trim_spec(s.subrange(i, j)) == tok);
        }
    }
}

/// Looking one byte past the endpoint of segment `s[i..p]` adds exactly
/// that segment's token.
proof fn lemma_new_segment(s: Seq<u8>, i: int, p: int)
    requires
        segment_at(s, i, p),
    ensures
        forall|tok: Seq<u8>| #[trigger] has_token_upto(s, p + 1, tok) <==> (has_token_upto(s, p, tok)
            || trim_spec(s.subrange(i, p)) == tok),
{
    assert forall|tok: Seq<u8>| #[trigger] has_token_upto(s, p + 1, tok) <==> (has_token_upto(s, p, tok)
        || trim_spec(s.subrange(i, p)) == tok) by {
        if has_token_upto(s, p + 1, tok) {
            let (i2, j2) = choose|i2: int, j2: int|
                j2 < p + 1 && #[trigger] segment_at(s, i2, j2) && trim_spec(s.subrange(i2, j2))
                    == tok;
            if j2 == p {
                lemma_segment_unique(s, i2, i, p);
            } else {
                assert(has_token_upto(s, p, tok));
            }
        }
        if has_token_upto(s, p, tok) {
            let (i2, j2) = choose|i2: int, j2: int|
                j2 < p && #[trigger] segment_at(s, i2, j2) && trim_spec(s.subrange(i2, j2)) == tok;
            assert(j2 < p + 1 && segment_at(s, i2, j2) && trim_spec(s.subrange(i2, j2)) == tok);
        }
        if trim_spec(s.subrange(i, p)) == tok {
            assert(p < p + 1 && segment_at(s, i, p) && trim_spec(s.subrange(i, p)) == tok);
        }
    }
}

/// Every segment has its endpoint at or before the end of `s`.
proof fn lemma_upto_full(s: Seq<u8>)
    ensures
        forall|tok: Seq<u8>| #[trigger] has_token(s, tok) <==> has_token_upto(s, s.len() as int + 1, tok),
{
    assert forall|tok: Seq<u8>| #[trigger] has_token(s, tok) <==> has_token_upto(s, s.len() as int + 1, tok) by {
        if has_token(s, tok) {
            let (i, j) = choose|i: int, j: int|
                #[trigger] segment_at(s, i, j) && trim_spec(s.subrange(i, j)) == tok;
            assert(j < s.len() + 1 && segment_at(s, i, j) && trim_spec(s.subrange(i, j)) == tok);
        }
        if has_token_upto(s, s.len() as int + 1, tok) {
            let (i, j) = choose|i: int, j: int|
                j < s.len() + 1 && #[trigger] segment_at(s, i, j) && trim_spec(s.subrange(i, j))
                    == tok;
            assert(segment_at(s, i, j) && trim_spec(s.subrange(i, j)) == tok);
        }
    }
}

/// Bounds of `s[i..j]` after trimming ASCII whitespace on both sides.
fn trim_bounds(s: &[u8], i: usize, j: usize) -> (r: (usize, usize))
    requires
        i <= j,
        j <= s@.len(),
    ensures
        i <= r.0 <= r.1 <= j,
        trim_spec(s@.subrange(i as int, j as int)) == s@.subrange(r.0 as int, r.1 as int),
{
    let mut lo = i;
    let mut hi = j;
    while lo < hi && is_ws(s[lo])
        invariant
            i <= lo <= hi <= j,
            hi == j,
            j <= s@.len(),
            trim_spec(s@.subrange(i as int, j as int)) == trim_spec(s@.subrange(lo as int, j as int)),
        decreases hi - lo,
    {
        proof {
            let cur = s@.subrange(lo as int, j as int);
            assert(cur.len() > 0 && is_ws_byte(cur[0]));
            assert(cur.subrange(1, cur.len() as int) =~= s@.subrange(lo as int + 1, j as int));
        }
        lo += 1;
    }
    while lo < hi && is_ws(s[hi - 1])
        invariant
            i <= lo <= hi <= j,
            j <= s@.len(),
            lo == hi || !is_ws_byte(s@[lo as int]),
            trim_spec(s@.subrange(i as int, j as int)) == trim_spec(s@.subrange(lo as int, hi as int)),
        decreases hi - lo,
    {
        proof {
            let cur = s@.subrange(lo as int, hi as int);
            assert(cur.len() > 0 && is_ws_byte(cur[cur.len() - 1]));
            assert(!is_ws_byte(cur[0]));
            assert(cur.subrange(0, cur.len() - 1) =~= s@.subrange(lo as int, hi as int - 1));
        }
        hi -= 1;
    }
    proof {
        let cur = s@.subrange(lo as int, hi as int);
        if cur.len() > 0 {
            assert(!is_ws_byte(cur[0]));
            assert(!is_ws_byte(cur[cur.len() - 1]));
        }
        assert(trim_spec(cur) == cur);
    }
    (lo, hi)
}

/// Whether `s[lo..hi]` equals `token` byte for byte.
fn range_eq(s: &[u8], lo: usize, hi: usize, token: &[u8]) -> (r: bool)
    requires
        lo <= hi,
        hi <= s@.len(),
    ensures
        r == (s@.subrange(lo as int, hi as int) == token@),
{
    if hi - lo != token.len() {
        proof {
            assert(s@.subrange(lo as int, hi as int).len() == hi - lo);
        }
        return false;
    }
    let r = match_at(s, token, lo);
    proof {
        assert(s@.subrange(lo as int, lo as int + token@.len()) =~= s@.subrange(
            lo as int,
            hi as int,
        ));
    }
    r
}

/// Whether the segment `s[i..j]` trims to exactly `token`.
fn seg_matches(s: &[u8], i: usize, j: usize, token: &[u8]) -> (r: bool)
    requires
        i <= j,
        j <= s@.len(),
    ensures
        r == (trim_spec(s@.subrange(i as int, j as int)) == token@),
{
    let bounds = trim_bounds(s, i, j);
    range_eq(s, bounds.0, bounds.1, token)
}

impl PluginState {
    /// Read the plugin state from the probe's JSON plugin list.
    pub fn from_json(json: &str) -> (r: PluginState)
        ensures
            r.split_monitor_workspaces == has_plugin(
                json.spec_bytes(),
                "split-monitor-workspaces".spec_bytes(),
            ),
            r.hyprscrolling == has_plugin(json.spec_bytes(), "hyprscrolling".spec_bytes()),
    {
        PluginState {
            split_monitor_workspaces: json_has_plugin(json, "split-monitor-workspaces"),
            hyprscrolling: json_has_plugin(json, "hyprscrolling"),
        }
    }

    /// Read the plugin state back from a cache line: a comma-separated list
    /// whose entries, after trimming, may name the two capabilities.
    pub fn parse_cache(cached: &str) -> (r: PluginState)
        ensures
            r.split_monitor_workspaces == has_token(cached.spec_bytes(), "splitws".spec_bytes()),
            r.hyprscrolling == has_token(cached.spec_bytes(), "scroller".spec_bytes()),
    {
        let s = cached.as_bytes();
        let tok_split = "splitws".as_bytes();
        let tok_scroll = "scroller".as_bytes();
        let n = s.len();
        let mut split_ws = false;
        let mut scroller = false;
        let mut seg_start: usize = 0;
        let mut pos: usize = 0;
        while pos < n
            invariant
                n == s@.len(),
                seg_start <= pos <= n,
                tok_split@ == "splitws".spec_bytes(),
                tok_scroll@ == "scroller".spec_bytes(),
                s@ == cached.spec_bytes(),
                seg_start == 0 || s@[seg_start as int - 1] == 44,
                forall|t: int| seg_start <= t < pos ==> (#[trigger] s@[t]) != 44,
                split_ws == has_token_upto(s@, pos as int, tok_split@),
                scroller == has_token_upto(s@, pos as int, tok_scroll@),
            decreases n - pos,
        {
            if s[pos] == 44 {
                proof {
                    assert(segment_at(s@, seg_start as int, pos as int));
                }
                let m1 = seg_matches(s, seg_start, pos, tok_split);
                let m2 = seg_matches(s, seg_start, pos, tok_scroll);
                proof {
                    lemma_new_segment(s@, seg_start as int, pos as int);
                }
                split_ws = split_ws || m1;
                scroller = scroller || m2;
                seg_start = pos + 1;
            } else {
                proof {
                    lemma_no_new_segment(s@, pos as int);
                }
            }
            pos += 1;
        }
        proof {
            assert(segment_at(s@, seg_start as int, n as int));
        }
        let m1 = seg_matches(s, seg_start, n, tok_split);
        let m2 = seg_matches(s, seg_start, n, tok_scroll);
        proof {
            lemma_new_segment(s@, seg_start as int, n as int);
            lemma_upto_full(s@);
        }
        PluginState { split_monitor_workspaces: split_ws || m1, hyprscrolling: scroller || m2 }
    }

    /// The cache line for this state: the names of the active capabilities,
    /// comma-separated.
    pub fn to_cache(&self) -> (r: String)
        ensures
            self.split_monitor_workspaces && self.hyprscrolling ==> r@ == "splitws,scroller"@,
            self.split_monitor_workspaces && !self.hyprscrolling ==> r@ == "splitws"@,
            !self.split_monitor_workspaces && self.hyprscrolling ==> r@ == "scroller"@,
            !self.split_monitor_workspaces && !self.hyprscrolling ==> r@ == ""@,
    {
        if self.split_monitor_workspaces && self.hyprscrolling {
            "splitws,scroller".to_owned()
        } else if self.split_monitor_workspaces {
            "splitws".to_owned()
        } else if self.hyprscrolling {
            "scroller".to_owned()
        } else {
            "".to_owned()
        }
    }
}

} // verus!
