//! Resolving free-form input, a bare identifier or a URL, to a video identifier.

use crate::bindings::{pairs_view, parse_url, url_parts, UrlParts, UrlPartsView};
use crate::text::{
    chars_of, is_word, lemma_split_at_separator, lemma_split_without_separator,
    lemma_trimmed_unchanged, non_empty, rows, slice_of, split, split_on, starts_with, string_of,
    trim, trimmed,
};
use vstd::prelude::*;

verus! {

/// The characters an identifier is made of: ASCII letters, digits, `_`, `-`.
pub open spec fn id_char(c: char) -> bool {
    ('a' <= c <= 'z') || ('A' <= c <= 'Z') || ('0' <= c <= '9') || c == '_' || c == '-'
}

/// A video identifier: exactly eleven identifier characters.
pub open spec fn valid_id(s: Seq<char>) -> bool {
    s.len() == 11 && forall|i: int| 0 <= i < s.len() ==> id_char(#[trigger] s[i])
}

/// The host without one leading `www.`, `m.` or `music.` label: the first of
/// the three that the host begins with, and nothing more.
pub open spec fn bare_host(host: Seq<char>) -> Seq<char> {
    if "www."@.is_prefix_of(host) {
        host.skip("www."@.len() as int)
    } else if "m."@.is_prefix_of(host) {
        host.skip("m."@.len() as int)
    } else if "music."@.is_prefix_of(host) {
        host.skip("music."@.len() as int)
    } else {
        host
    }
}

/// The path's segments: its pieces between slashes that are not empty.
pub open spec fn path_segments(path: Seq<char>) -> Seq<Seq<char>> {
    non_empty(split_on(path, '/'))
}

/// The path words after which an identifier is looked for.
pub open spec fn path_keyword(seg: Seq<char>) -> bool {
    seg == "watch"@ || seg == "embed"@ || seg == "v"@ || seg == "shorts"@ || seg == "live"@ || seg
        == "clip"@
}

/// The position of the first keyword at or after `from`, or the number of
/// segments where there is none.
pub open spec fn keyword_position(segs: Seq<Seq<char>>, from: int) -> int
    decreases segs.len() - from,
{
    if from < 0 || from >= segs.len() {
        segs.len() as int
    } else if path_keyword(segs[from]) {
        from
    } else {
        keyword_position(segs, from + 1)
    }
}

/// The identifier that the path names: the segment after the first keyword,
/// where it is a valid identifier. A later keyword is never tried.
pub open spec fn id_after_keyword(segs: Seq<Seq<char>>) -> Option<Seq<char>> {
    let k = keyword_position(segs, 0);
    if k + 1 < segs.len() && valid_id(segs[k + 1]) {
        Some(segs[k + 1])
    } else {
        None
    }
}

/// The value of the first pair at or after `from` whose key is `key`.
pub open spec fn query_value(
    query: Seq<(Seq<char>, Seq<char>)>,
    key: Seq<char>,
    from: int,
) -> Option<Seq<char>>
    decreases query.len() - from,
{
    if from < 0 || from >= query.len() {
        None
    } else if query[from].0 == key {
        Some(query[from].1)
    } else {
        query_value(query, key, from + 1)
    }
}

/// The identifier that a short-link path names: its first segment, where that
/// is a valid identifier.
pub open spec fn short_link_id(path: Seq<char>) -> Option<Seq<char>> {
    let segs = path_segments(path);
    if segs.len() > 0 && valid_id(segs[0]) {
        Some(segs[0])
    } else {
        None
    }
}

/// The identifier that a main-domain URL names: the first `v` parameter where
/// it is a valid identifier, otherwise what the path names.
pub open spec fn main_site_id(path: Seq<char>, query: Seq<(Seq<char>, Seq<char>)>) -> Option<
    Seq<char>,
> {
    match query_value(query, "v"@, 0) {
        Some(v) if valid_id(v) => Some(v),
        _ => id_after_keyword(path_segments(path)),
    }
}

/// The identifier that a parsed URL names, if any.
pub open spec fn id_in_parts(parts: UrlPartsView) -> Option<Seq<char>> {
    match parts.host {
        None => None,
        Some(h) => {
            let host = bare_host(h);
            if host == "youtu.be"@ {
                short_link_id(parts.path)
            } else if host == "youtube.com"@ {
                main_site_id(parts.path, parts.query)
            } else {
                None
            }
        },
    }
}

/// The identifier that `input` resolves to: the trimmed input itself where it
/// is a valid identifier, otherwise what it names when read as a URL.
pub open spec fn resolved_id(input: Seq<char>) -> Option<Seq<char>> {
    let t = trimmed(input);
    if valid_id(t) {
        Some(t)
    } else {
        match url_parts(t) {
            Some(parts) => id_in_parts(parts),
            None => None,
        }
    }
}

/// The view of an optional string.
pub open spec fn opt_view(s: Option<String>) -> Option<Seq<char>> {
    match s {
        Some(s) => Some(s@),
        None => None,
    }
}

/// Whatever a parsed URL names is a valid identifier.
pub proof fn lemma_id_in_parts_is_valid(parts: UrlPartsView)
    ensures
        match id_in_parts(parts) {
            Some(id) => valid_id(id),
            None => true,
        },
{
}

/// Whatever an input resolves to is a valid identifier.
pub proof fn lemma_resolved_id_is_valid(input: Seq<char>)
    ensures
        match resolved_id(input) {
            Some(id) => valid_id(id),
            None => true,
        },
{
    match url_parts(trimmed(input)) {
        Some(parts) => lemma_id_in_parts_is_valid(parts),
        None => {},
    }
}

/// A valid identifier resolves to itself.
pub proof fn lemma_id_resolves_to_itself(id: Seq<char>)
    requires
        valid_id(id),
    ensures
        resolved_id(id) == Some(id),
{
    assert(id_char(id[0]));
    assert(id_char(id.last()));
    lemma_trimmed_unchanged(id);
}

/// The main domain and the short-link domain are accepted bare and behind
/// one `www.`, `m.` or `music.` label.
pub proof fn lemma_accepted_hosts()
    ensures
        bare_host("youtube.com"@) == "youtube.com"@,
        bare_host("www.youtube.com"@) == "youtube.com"@,
        bare_host("m.youtube.com"@) == "youtube.com"@,
        bare_host("music.youtube.com"@) == "youtube.com"@,
        bare_host("youtu.be"@) == "youtu.be"@,
        bare_host("www.youtu.be"@) == "youtu.be"@,
        bare_host("m.youtu.be"@) == "youtu.be"@,
        bare_host("music.youtu.be"@) == "youtu.be"@,
{
    reveal_strlit("www.");
    reveal_strlit("m.");
    reveal_strlit("music.");
    reveal_strlit("youtube.com");
    reveal_strlit("www.youtube.com");
    reveal_strlit("m.youtube.com");
    reveal_strlit("music.youtube.com");
    reveal_strlit("youtu.be");
    reveal_strlit("www.youtu.be");
    reveal_strlit("m.youtu.be");
    reveal_strlit("music.youtu.be");
    assert("youtube.com"@[0] == 'y');
    assert("youtu.be"@[0] == 'y');
    assert("m.youtube.com"@[0] == 'm' && "m.youtube.com"@[1] == '.');
    assert("m.youtu.be"@[0] == 'm' && "m.youtu.be"@[1] == '.');
    assert("music.youtube.com"@[0] == 'm' && "music.youtube.com"@[1] == 'u');
    assert("music.youtu.be"@[0] == 'm' && "music.youtu.be"@[1] == 'u');
    assert("www."@[0] == 'w' && "m."@[0] == 'm' && "m."@[1] == '.' && "music."@[0] == 'm');
    assert("www.youtube.com"@.skip(4) =~= "youtube.com"@);
    assert("m.youtube.com"@.skip(2) =~= "youtube.com"@);
    assert("music.youtube.com"@.skip(6) =~= "youtube.com"@);
    assert("www.youtu.be"@.skip(4) =~= "youtu.be"@);
    assert("m.youtu.be"@.skip(2) =~= "youtu.be"@);
    assert("music.youtu.be"@.skip(6) =~= "youtu.be"@);
}

/// A path of one segment after a slash has exactly that segment.
pub proof fn lemma_one_segment(a: Seq<char>)
    requires
        a.len() > 0,
        forall|i: int| 0 <= i < a.len() ==> a[i] != '/',
    ensures
        path_segments(seq!['/'] + a) == seq![a],
{
    let none = Seq::<char>::empty();
    let keep = |p: Seq<char>| p.len() > 0;
    assert(seq!['/'] + a == none.push('/') + a);
    lemma_split_at_separator(none, a, '/');
    lemma_split_without_separator(a, '/');
    assert(split_on(seq!['/'] + a, '/') == seq![none, a]);
    assert(seq![none, a] == Seq::<Seq<char>>::empty().push(none).push(a));
    Seq::<Seq<char>>::empty().lemma_filter_push(none, keep);
    Seq::<Seq<char>>::empty().push(none).lemma_filter_push(a, keep);
    assert(Seq::<Seq<char>>::empty().filter(keep) == Seq::<Seq<char>>::empty());
    assert(Seq::<Seq<char>>::empty().push(a) == seq![a]);
}

/// A path of two segments, each after a slash, has exactly those two.
pub proof fn lemma_two_segments(a: Seq<char>, b: Seq<char>)
    requires
        a.len() > 0,
        b.len() > 0,
        forall|i: int| 0 <= i < a.len() ==> a[i] != '/',
        forall|i: int| 0 <= i < b.len() ==> b[i] != '/',
    ensures
        path_segments(seq!['/'] + a + seq!['/'] + b) == seq![a, b],
{
    let none = Seq::<char>::empty();
    let keep = |p: Seq<char>| p.len() > 0;
    let head = seq!['/'] + a;
    assert(head == none.push('/') + a);
    lemma_split_at_separator(none, a, '/');
    lemma_split_without_separator(a, '/');
    assert(split_on(head, '/') == seq![none, a]);
    assert(seq!['/'] + a + seq!['/'] + b == head.push('/') + b);
    lemma_split_at_separator(head, b, '/');
    lemma_split_without_separator(b, '/');
    assert(split_on(head.push('/') + b, '/') == seq![none, a, b]);
    let e = Seq::<Seq<char>>::empty();
    assert(seq![none, a, b] == e.push(none).push(a).push(b));
    e.lemma_filter_push(none, keep);
    e.push(none).lemma_filter_push(a, keep);
    e.push(none).push(a).lemma_filter_push(b, keep);
    assert(e.filter(keep) == e);
    assert(e.push(a).push(b) == seq![a, b]);
}

/// An identifier holds no slash and is not empty.
pub proof fn lemma_id_is_one_segment(id: Seq<char>)
    requires
        valid_id(id),
    ensures
        id.len() > 0,
        forall|i: int| 0 <= i < id.len() ==> id[i] != '/',
{
    assert forall|i: int| 0 <= i < id.len() implies id[i] != '/' by {
        assert(id_char(id[i]));
    }
}

/// `/watch?v=ID` on the main domain names `ID` exactly when `ID` is a valid
/// identifier, and names nothing otherwise.
pub proof fn lemma_watch_url(host: Seq<char>, id: Seq<char>)
    requires
        bare_host(host) == "youtube.com"@,
    ensures
        id_in_parts(UrlPartsView { host: Some(host), path: "/watch"@, query: seq![("v"@, id)] })
            == if valid_id(id) {
            Some(id)
        } else {
            None
        },
{
    reveal_strlit("youtube.com");
    reveal_strlit("youtu.be");
    reveal_strlit("/watch");
    reveal_strlit("watch");
    let query = seq![("v"@, id)];
    let parts = UrlPartsView { host: Some(host), path: "/watch"@, query };
    assert(query[0].0 == "v"@);
    assert(query_value(query, "v"@, 0) == Some(id));
    assert("youtube.com"@.len() != "youtu.be"@.len());
    assert(id_in_parts(parts) == main_site_id("/watch"@, query));
    if !valid_id(id) {
        assert("/watch"@ =~= seq!['/'] + "watch"@);
        lemma_one_segment("watch"@);
        let segs = path_segments("/watch"@);
        assert(segs == seq!["watch"@]);
        assert(path_keyword(segs[0]));
        assert(keyword_position(segs, 0) == 0);
        assert(id_after_keyword(segs) is None);
    }
}

/// `/ID` on the short-link domain names `ID` exactly when `ID` is a valid
/// identifier.
pub proof fn lemma_short_link(host: Seq<char>, id: Seq<char>)
    requires
        bare_host(host) == "youtu.be"@,
    ensures
        valid_id(id) <==> id_in_parts(
            UrlPartsView { host: Some(host), path: "/"@ + id, query: Seq::empty() },
        ) == Some(id),
{
    reveal_strlit("/");
    let parts = UrlPartsView { host: Some(host), path: "/"@ + id, query: Seq::empty() };
    lemma_id_in_parts_is_valid(parts);
    if valid_id(id) {
        lemma_id_is_one_segment(id);
        assert("/"@ + id =~= seq!['/'] + id);
        lemma_one_segment(id);
    }
}

/// `/shorts/ID` on the main domain names `ID` exactly when `ID` is a valid
/// identifier.
pub proof fn lemma_shorts_url(host: Seq<char>, id: Seq<char>)
    requires
        bare_host(host) == "youtube.com"@,
    ensures
        valid_id(id) <==> id_in_parts(
            UrlPartsView { host: Some(host), path: "/shorts/"@ + id, query: Seq::empty() },
        ) == Some(id),
{
    reveal_strlit("youtube.com");
    reveal_strlit("youtu.be");
    reveal_strlit("/shorts/");
    reveal_strlit("shorts");
    let parts = UrlPartsView { host: Some(host), path: "/shorts/"@ + id, query: Seq::empty() };
    lemma_id_in_parts_is_valid(parts);
    if valid_id(id) {
        lemma_id_is_one_segment(id);
        assert("/shorts/"@ + id =~= seq!['/'] + "shorts"@ + seq!['/'] + id);
        lemma_two_segments("shorts"@, id);
        let segs = path_segments("/shorts/"@ + id);
        assert(segs == seq!["shorts"@, id]);
        assert(path_keyword(segs[0]));
        assert(keyword_position(segs, 0) == 0);
        assert(query_value(parts.query, "v"@, 0) is None);
        assert("youtube.com"@.len() != "youtu.be"@.len());
        assert(id_in_parts(parts) == main_site_id(parts.path, parts.query));
        assert(id_after_keyword(segs) == Some(id));
    }
}

/// Whether a character may stand in an identifier.
fn is_id_char(c: char) -> (r: bool)
    ensures
        r == id_char(c),
{
    ('a' <= c && c <= 'z') || ('A' <= c && c <= 'Z') || ('0' <= c && c <= '9') || c == '_' || c
        == '-'
}

/// Whether `s` is a video identifier.
pub fn is_valid_id(s: &Vec<char>) -> (r: bool)
    ensures
        r == valid_id(s@),
{
    if s.len() != 11 {
        return false;
    }
    let mut i: usize = 0;
    while i < s.len()
        invariant
            i <= s.len(),
            forall|j: int| 0 <= j < i ==> id_char(#[trigger] s@[j]),
        decreases s.len() - i,
    {
        if !is_id_char(s[i]) {
            return false;
        }
        i += 1;
    }
    true
}

/// The host without one leading `www.`, `m.` or `music.` label.
fn strip_host_label(host: &Vec<char>) -> (out: Vec<char>)
    ensures
        out@ == bare_host(host@),
{
    proof {
        reveal_strlit("www.");
        reveal_strlit("m.");
        reveal_strlit("music.");
    }
    if starts_with(host, "www.") {
        slice_of(host, 4, host.len())
    } else if starts_with(host, "m.") {
        slice_of(host, 2, host.len())
    } else if starts_with(host, "music.") {
        slice_of(host, 6, host.len())
    } else {
        slice_of(host, 0, host.len())
    }
}

/// The path's segments that are not empty.
fn segments_of(path: &Vec<char>) -> (out: Vec<Vec<char>>)
    ensures
        rows(out@) == path_segments(path@),
{
    let pieces = split(path, '/');
    let mut out: Vec<Vec<char>> = Vec::new();
    let mut i: usize = 0;
    let ghost all = rows(pieces@);
    let ghost keep = |p: Seq<char>| p.len() > 0;
    assert(all.take(0).filter(keep) == Seq::<Seq<char>>::empty());
    while i < pieces.len()
        invariant
            i <= pieces.len(),
            all == rows(pieces@),
            keep == (|p: Seq<char>| p.len() > 0),
            rows(out@) == all.take(i as int).filter(keep),
        decreases pieces.len() - i,
    {
        proof {
            assert(all.take(i + 1) == all.take(i as int).push(all[i as int]));
            all.take(i as int).lemma_filter_push(all[i as int], keep);
        }
        if pieces[i].len() > 0 {
            let ghost before = rows(out@);
            let piece = slice_of(&pieces[i], 0, pieces[i].len());
            assert(piece@ == pieces@[i as int]@);
            out.push(piece);
            assert(rows(out@) == before.push(all[i as int]));
        }
        i += 1;
    }
    assert(all.take(pieces.len() as int) == all);
    out
}

/// Whether a segment is one of the path keywords.
fn is_path_keyword(seg: &Vec<char>) -> (r: bool)
    ensures
        r == path_keyword(seg@),
{
    is_word(seg, "watch") || is_word(seg, "embed") || is_word(seg, "v") || is_word(seg, "shorts")
        || is_word(seg, "live") || is_word(seg, "clip")
}

/// The segment after the first keyword, where it is a valid identifier.
fn find_after_keyword(segs: &Vec<Vec<char>>) -> (r: Option<String>)
    ensures
        opt_view(r) == id_after_keyword(rows(segs@)),
{
    let mut i: usize = 0;
    while i < segs.len()
        invariant
            i <= segs.len(),
            keyword_position(rows(segs@), 0) == keyword_position(rows(segs@), i as int),
        decreases segs.len() - i,
    {
        if is_path_keyword(&segs[i]) {
            if i + 1 < segs.len() && is_valid_id(&segs[i + 1]) {
                return Some(string_of(&segs[i + 1]));
            }
            return None;
        }
        i += 1;
    }
    None
}

/// The value of the first pair whose key is `key`.
fn find_query_value(query: &Vec<(String, String)>, key: &str) -> (r: Option<Vec<char>>)
    ensures
        match r {
            Some(v) => query_value(pairs_view(query@), key@, 0) == Some(v@),
            None => query_value(pairs_view(query@), key@, 0) is None,
        },
{
    let mut i: usize = 0;
    while i < query.len()
        invariant
            i <= query.len(),
            query_value(pairs_view(query@), key@, 0) == query_value(
                pairs_view(query@),
                key@,
                i as int,
            ),
        decreases query.len() - i,
    {
        let name = chars_of(query[i].0.as_str());
        if is_word(&name, key) {
            return Some(chars_of(query[i].1.as_str()));
        }
        i += 1;
    }
    None
}

/// The identifier that a parsed URL names.
///
/// A short-link host names it in its first path segment. The main domain
/// names it in its first `v` parameter or, failing that, in the segment after
/// the first keyword of its path. One leading `www.`, `m.` or `music.` label
/// of the host is ignored. Any other host names none.
pub fn video_id_from_parts(parts: &UrlParts) -> (r: Option<String>)
    ensures
        opt_view(r) == id_in_parts(parts@),
{
    let host = match &parts.host {
        Some(h) => strip_host_label(&chars_of(h.as_str())),
        None => {
            return None;
        },
    };
    let path = chars_of(parts.path.as_str());
    if is_word(&host, "youtu.be") {
        let segs = segments_of(&path);
        if segs.len() > 0 && is_valid_id(&segs[0]) {
            return Some(string_of(&segs[0]));
        }
        None
    } else if is_word(&host, "youtube.com") {
        match find_query_value(&parts.query, "v") {
            Some(v) => {
                if is_valid_id(&v) {
                    return Some(string_of(&v));
                }
            },
            None => {},
        }
        let segs = segments_of(&path);
        find_after_keyword(&segs)
    } else {
        None
    }
}

/// Resolves a bare identifier or a URL to a video identifier.
///
/// Surrounding whitespace is ignored. An input that is itself a valid
/// identifier is returned as it is, before any reading as a URL. Otherwise
/// the input is parsed as a URL and the identifier is taken from its parts;
/// an input that is no URL, or a URL that names no identifier, gives `None`.
pub fn extract_video_id(input: &str) -> (r: Option<String>)
    ensures
        opt_view(r) == resolved_id(input@),
{
    let t = trim(&chars_of(input));
    if is_valid_id(&t) {
        return Some(string_of(&t));
    }
    let text = string_of(&t);
    match parse_url(text.as_str()) {
        Some(parts) => video_id_from_parts(&parts),
        None => None,
    }
}

} // verus!
