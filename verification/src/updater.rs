//! Update checks against the GitHub Releases API: version comparison, the
//! interpretation of the API's answer, and the check on release-page URLs.
use vstd::prelude::*;
use crate::models::UpdateInfo;
use crate::text::{
    after_first, before_first, chars_of, decimal, find_char_from, first_index, has_prefix,
    lemma_first_index, parse_u32_chars, parse_u32_spec, push_chars, starts_with, string_of_range,
    sub_chars,
};

verus! {

// ---------------------------------------------------------------------------
// Version comparison
// ---------------------------------------------------------------------------

/// A version component: the number that the text denotes, or 0 where it
/// is not a `u32`.
pub open spec fn component(s: Seq<char>) -> nat {
    match parse_u32_spec(s) {
        Some(n) => n as nat,
        None => 0,
    }
}

/// The numeric part of a version: what precedes the first `-`.
pub open spec fn numeric_part(v: Seq<char>) -> Seq<char> {
    before_first(v, '-')
}

/// `(major, minor, patch)` of a version: the first three `.`-separated parts
/// of its numeric part, each read as a `u32`, 0 where a part is missing or
/// is not a number.
pub open spec fn version_triple(v: Seq<char>) -> (nat, nat, nat) {
    let n = numeric_part(v);
    let r1 = after_first(n, '.');
    let r2 = after_first(r1, '.');
    (
        component(before_first(n, '.')),
        component(before_first(r1, '.')),
        component(before_first(r2, '.')),
    )
}

/// Lexicographic `>` on triples, as Rust compares tuples.
pub open spec fn triple_gt(a: (nat, nat, nat), b: (nat, nat, nat)) -> bool {
    ||| a.0 > b.0
    ||| a.0 == b.0 && a.1 > b.1
    ||| a.0 == b.0 && a.1 == b.1 && a.2 > b.2
}

/// Whether version `latest` is newer than version `current`.
pub open spec fn is_newer(latest: Seq<char>, current: Seq<char>) -> bool {
    triple_gt(version_triple(latest), version_triple(current))
}

/// `v[from..to]` read as a version component.
fn component_of(v: &Vec<char>, from: usize, to: usize) -> (r: u32)
    requires
        from <= to <= v.len(),
    ensures
        r as nat == component(v@.subrange(from as int, to as int)),
{
    let part = sub_chars(v, from, to);
    match parse_u32_chars(&part) {
        Some(n) => n,
        None => 0,
    }
}

/// The bounds of the part of `v[from..to]` before the first `.`, and the
/// start of what follows that `.` (`to` if there is none).
fn split_dot(v: &Vec<char>, from: usize, to: usize) -> (r: (usize, usize))
    requires
        from <= to <= v.len(),
    ensures
        from <= r.0 <= r.1 <= to,
        v@.subrange(from as int, r.0 as int) == before_first(
            v@.subrange(from as int, to as int),
            '.',
        ),
        v@.subrange(r.1 as int, to as int) == after_first(v@.subrange(from as int, to as int), '.'),
{
    let ghost s = v@.subrange(from as int, to as int);
    let mut i: usize = from;
    while i < to && v[i] != '.'
        invariant
            from <= i <= to <= v.len(),
            s == v@.subrange(from as int, to as int),
            forall|j: int| from <= j < i ==> v@[j] != '.',
        decreases to - i,
    {
        i = i + 1;
    }
    proof {
        lemma_first_index(s, '.');
        if i < to {
            assert(s[i - from] == '.');
            assert(first_index(s, '.') == i - from) by {
                if first_index(s, '.') < i - from {
                    assert(v@[from + first_index(s, '.')] == '.');
                }
            }
            assert(s.contains('.'));
        } else {
            assert forall|j: int| 0 <= j < s.len() implies s[j] != '.' by {
                assert(s[j] == v@[from + j]);
            }
            assert(!s.contains('.'));
        }
    }
    assert(v@.subrange(from as int, i as int) =~= before_first(s, '.'));
    if i < to {
        assert(v@.subrange(i + 1, to as int) =~= after_first(s, '.'));
        (i, i + 1)
    } else {
        assert(v@.subrange(to as int, to as int) =~= after_first(s, '.'));
        (i, to)
    }
}

/// `(major, minor, patch)` of the version `v`.
fn parse_version(v: &Vec<char>) -> (r: (u32, u32, u32))
    ensures
        (r.0 as nat, r.1 as nat, r.2 as nat) == version_triple(v@),
{
    let end = find_char_from(v, 0, '-');
    proof {
        assert(v@.skip(0) =~= v@);
        lemma_first_index(v@, '-');
        assert(v@.subrange(0, end as int) =~= numeric_part(v@));
    }
    let (e0, s1) = split_dot(v, 0, end);
    let (e1, s2) = split_dot(v, s1, end);
    let (e2, _s3) = split_dot(v, s2, end);
    (component_of(v, 0, e0), component_of(v, s1, e1), component_of(v, s2, e2))
}

/// Whether `latest` is a newer version than `current`. The numeric part of
/// each (what precedes a pre-release suffix such as `-beta`) is read as
/// `(major, minor, patch)` and the triples are compared in that order.
pub fn is_newer_version(latest: &str, current: &str) -> (r: bool)
    ensures
        r == is_newer(latest@, current@),
{
    let lv = chars_of(latest);
    let cv = chars_of(current);
    let (a0, a1, a2) = parse_version(&lv);
    let (b0, b1, b2) = parse_version(&cv);
    a0 > b0 || (a0 == b0 && (a1 > b1 || (a1 == b1 && a2 > b2)))
}

/// No version is newer than itself.
pub proof fn lemma_newer_irreflexive(v: Seq<char>)
    ensures
        !is_newer(v, v),
{
}

/// If `a` is newer than `b`, `b` is not newer than `a`.
pub proof fn lemma_newer_asymmetric(a: Seq<char>, b: Seq<char>)
    requires
        is_newer(a, b),
    ensures
        !is_newer(b, a),
{
}

/// Newer-than is transitive.
pub proof fn lemma_newer_transitive(a: Seq<char>, b: Seq<char>, c: Seq<char>)
    requires
        is_newer(a, b),
        is_newer(b, c),
    ensures
        is_newer(a, c),
{
}

/// Of two versions that differ as triples, one is newer than the other.
pub proof fn lemma_newer_total(a: Seq<char>, b: Seq<char>)
    requires
        version_triple(a) != version_triple(b),
    ensures
        is_newer(a, b) || is_newer(b, a),
{
}

/// A pre-release suffix does not take part in the comparison: `core-suffix`
/// compares as `core` does, whatever the suffix.
pub proof fn lemma_prerelease_suffix_ignored(core: Seq<char>, suffix: Seq<char>, other: Seq<char>)
    requires
        !core.contains('-'),
    ensures
        version_triple(core + seq!['-'] + suffix) == version_triple(core),
        is_newer(core + seq!['-'] + suffix, other) == is_newer(core, other),
        is_newer(other, core + seq!['-'] + suffix) == is_newer(other, core),
{
    let v = core + seq!['-'] + suffix;
    lemma_first_index(core, '-');
    lemma_first_index(v, '-');
    assert(v[core.len() as int] == '-');
    assert forall|j: int| 0 <= j < core.len() implies v[j] != '-' by {
        assert(v[j] == core[j]);
    }
    assert(first_index(v, '-') == core.len()) by {
        if first_index(v, '-') < core.len() {
            assert(v[first_index(v, '-') as int] == '-');
        }
    }
    assert(numeric_part(v) =~= core);
    assert(numeric_part(core) =~= core);
}

// ---------------------------------------------------------------------------
// The answer of the releases API
// ---------------------------------------------------------------------------

/// `s` without all its leading `c`s (`str::trim_start_matches` with a char).
pub open spec fn strip_leading(s: Seq<char>, c: char) -> Seq<char>
    decreases s.len(),
{
    if s.len() > 0 && s[0] == c {
        strip_leading(s.drop_first(), c)
    } else {
        s
    }
}

/// `s` without its leading `c`s.
pub fn trim_start_char(s: &str, c: char) -> (r: String)
    ensures
        r@ == strip_leading(s@, c),
{
    let v = chars_of(s);
    let mut i: usize = 0;
    assert(v@.skip(0) =~= v@);
    while i < v.len() && v[i] == c
        invariant
            i <= v.len(),
            strip_leading(v@, c) == strip_leading(v@.skip(i as int), c),
        decreases v.len() - i,
    {
        assert(v@.skip(i as int).drop_first() =~= v@.skip(i + 1));
        i = i + 1;
    }
    assert(v@.skip(i as int) =~= v@.subrange(i as int, v.len() as int));
    string_of_range(&v, i, v.len())
}

/// What the releases API answered, before its body is read.
pub enum ReleaseStatus {
    /// No release has been published (HTTP 404): nothing to update to.
    NoRelease(UpdateInfo),
    /// Another status outside 2xx: the check fails with this message.
    Failed(String),
    /// A success status: the body describes the latest release.
    ReadBody,
}

/// The message of a failed update check with HTTP status `code`.
pub open spec fn http_error_message(code: u16) -> Seq<char> {
    "GitHub API エラー: HTTP "@ + decimal(code as nat)
}

/// The message of a failed check names the HTTP status: after its fixed
/// text come the digits of the status code, which read back as the code.
pub proof fn lemma_http_error_names_code(code: u16)
    ensures
        ({
            let m = http_error_message(code);
            let k = "GitHub API エラー: HTTP "@.len() as int;
            &&& m.take(k) == "GitHub API エラー: HTTP "@
            &&& crate::text::parse_u64_spec(m.skip(k)) == Some(code as u64)
        }),
{
    let p = "GitHub API エラー: HTTP "@;
    let m = http_error_message(code);
    assert(m.take(p.len() as int) =~= p);
    assert(m.skip(p.len() as int) =~= decimal(code as nat));
    crate::text::lemma_parse_reads_decimal(code as nat);
}

/// What an update check does with the HTTP status `code` of the releases
/// API: 404 means no release yet, a status outside 200..=299 is an error,
/// and any other status lets the body be read.
pub fn release_status(current: &str, code: u16) -> (r: ReleaseStatus)
    ensures
        code == 404 ==> (r matches ReleaseStatus::NoRelease(info) && !info.available
            && info.latest_version@ == current@ && info.current_version@ == current@
            && info.release_url@.len() == 0),
        code != 404 && !(200 <= code <= 299) ==> (r matches ReleaseStatus::Failed(m) && m@
            == http_error_message(code)),
        code != 404 && 200 <= code <= 299 ==> r is ReadBody,
{
    if code == 404 {
        ReleaseStatus::NoRelease(
            UpdateInfo {
                available: false,
                latest_version: current.to_owned(),
                current_version: current.to_owned(),
                release_url: String::new(),
            },
        )
    } else if !(200 <= code && code <= 299) {
        let mut m = "GitHub API エラー: HTTP ".to_owned();
        let digits = crate::text::u64_to_string(code as u64);
        let dv = chars_of(digits.as_str());
        push_chars(&mut m, &dv);
        ReleaseStatus::Failed(m)
    } else {
        ReleaseStatus::ReadBody
    }
}

/// The update information for the latest release, given the `tag_name` and
/// `html_url` that the API reported (empty where it reported none): the
/// version is the tag without its leading `v`s, and an update is available
/// when it is newer than `current`.
pub fn update_info_from_release(current: &str, tag_name: &str, html_url: &str) -> (r: UpdateInfo)
    ensures
        r.latest_version@ == strip_leading(tag_name@, 'v'),
        r.current_version@ == current@,
        r.release_url@ == html_url@,
        r.available == is_newer(strip_leading(tag_name@, 'v'), current@),
{
    let latest_version = trim_start_char(tag_name, 'v');
    let available = is_newer_version(latest_version.as_str(), current);
    UpdateInfo {
        available,
        latest_version,
        current_version: current.to_owned(),
        release_url: html_url.to_owned(),
    }
}

/// The prefix that a release page's URL must have to be opened.
pub open spec fn release_url_prefix() -> Seq<char> {
    "https://github.com/"@
}

/// Checks that `url` may be opened as a release page: it must begin with
/// `https://github.com/`; otherwise the error names it invalid.
pub fn validate_release_url(url: &str) -> (r: Result<(), String>)
    ensures
        r is Ok <==> has_prefix(url@, release_url_prefix()),
        r matches Err(m) ==> m@ == "不正な URL です"@,
{
    if starts_with(url, "https://github.com/") {
        Ok(())
    } else {
        Err("不正な URL です".to_owned())
    }
}

} // verus!
