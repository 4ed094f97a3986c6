//! What is fetched for a post and how its body is rewritten: addresses and
//! local file names of assets, avatars and emoji, special posts, polls.

use vstd::prelude::*;
use vstd::string::*;
use crate::archiver::utils::{
    calculate_hash, normalize_emoji, spec_calculate_hash, spec_normalize_emoji,
};
use crate::archiver::utils::{group_text, push_group};
use crate::error::Error;
use crate::middleware::{parse_digits, spec_parse_digits};
use crate::pattern::{captures, regex_captures};
use crate::html::{
    append_text, html_selected_attributes, html_with_appended_text, html_with_attributes,
    html_with_inner_text, select_attributes, set_attributes, set_inner_text,
};
use crate::models::{
    Category, RespCategory, RespCooked, RespPoll, RespPollOption, RespPost, RespRetort, RespTopic,
    TopicMeta,
};
use crate::preloaded_store::PreloadedStore;
use crate::text::{
    push_string,
    after_first, after_last, before_first, before_last, chars_eq_ignore_ascii_case, concat, concat3,
    decimal, decimal_string, eq_ignore_ascii_case, extend_chars, find_first, find_first_from,
    find_last, first_index_from, from_chars, last_index_of, lemma_decimal_digits,
    lemma_last_index_skips, push_pair, replace_chars, replaced, slice_chars, string_of, to_chars,
    trim_bounds, trim_end_index, trim_start_index, trimmed,
};

verus! {

/// Address of the forum.
pub open spec fn site() -> Seq<char> {
    "https://shuiyuan.sjtu.edu.cn"@
}

/// An address as a browser would resolve it against the forum: a
/// scheme-relative one gets the scheme, a site-relative one the site, any
/// other stays.
pub open spec fn spec_absolute_url(url: Seq<char>) -> Seq<char> {
    if url.len() >= 2 && url[0] == '/' && url[1] == '/' {
        "https:"@ + url
    } else if url.len() >= 1 && url[0] == '/' {
        site() + url
    } else {
        url
    }
}

/// Resolves an address against the forum.
pub fn absolute_url(url: &str) -> (r: String)
    ensures
        r@ == spec_absolute_url(url@),
{
    let v = to_chars(url);
    if v.len() >= 2 && v[0] == '/' && v[1] == '/' {
        let mut s = String::from_str("https:");
        s.append(url);
        s
    } else if v.len() >= 1 && v[0] == '/' {
        let mut s = String::from_str("https://shuiyuan.sjtu.edu.cn");
        s.append(url);
        s
    } else {
        String::from_str(url)
    }
}

/// The part of an address that names the file's kind: what follows the last
/// `.` of the last path segment, once the query (from the last `?`) and the
/// fragment (from the last `#`) are cut off.
pub open spec fn media_extension(url: Seq<char>) -> Seq<char> {
    after_last(after_last(before_last(before_last(url, '?'), '#'), '/'), '.')
}

/// Tells whether `ext` is one of the image and video suffixes that are
/// localized, whatever its case.
pub open spec fn is_media_suffix(ext: Seq<char>) -> bool {
    eq_ignore_ascii_case(ext, "mp4"@) || eq_ignore_ascii_case(ext, "mov"@) || eq_ignore_ascii_case(
        ext,
        "avi"@,
    ) || eq_ignore_ascii_case(ext, "jpg"@) || eq_ignore_ascii_case(ext, "jpeg"@)
        || eq_ignore_ascii_case(ext, "gif"@) || eq_ignore_ascii_case(ext, "png"@)
}

/// Tells whether an address names an image or a video.
pub open spec fn is_media(url: Seq<char>) -> bool {
    is_media_suffix(media_extension(url))
}

fn suffix_is(ext: &Vec<char>, suffix: &str) -> (r: bool)
    ensures
        r == eq_ignore_ascii_case(ext@, suffix@),
{
    let s = to_chars(suffix);
    chars_eq_ignore_ascii_case(ext, &s)
}

/// The part of `v` before its last `c`, all of `v` without one.
pub fn take_before_last(v: &Vec<char>, c: char) -> (r: Vec<char>)
    ensures
        r@ == before_last(v@, c),
{
    match find_last(v, c) {
        Some(i) => {
            let r = slice_chars(v, 0, i);
            assert(v@.subrange(0, i as int) == v@.take(i as int));
            r
        },
        None => {
            let r = slice_chars(v, 0, v.len());
            assert(v@.subrange(0, v.len() as int) == v@);
            r
        },
    }
}

/// The part of `v` after its last `c`, all of `v` without one.
pub fn take_after_last(v: &Vec<char>, c: char) -> (r: Vec<char>)
    ensures
        r@ == after_last(v@, c),
{
    match find_last(v, c) {
        Some(i) => {
            let r = slice_chars(v, i + 1, v.len());
            assert(v@.subrange(i + 1, v.len() as int) == v@.skip(i + 1));
            r
        },
        None => {
            let r = slice_chars(v, 0, v.len());
            assert(v@.subrange(0, v.len() as int) == v@.skip(0));
            r
        },
    }
}

/// The part of `v` before its first `c`, all of `v` without one.
pub fn take_before_first(v: &Vec<char>, c: char) -> (r: Vec<char>)
    ensures
        r@ == before_first(v@, c),
{
    match find_first(v, c) {
        Some(i) => {
            let r = slice_chars(v, 0, i);
            assert(v@.subrange(0, i as int) == v@.take(i as int));
            r
        },
        None => {
            let r = slice_chars(v, 0, v.len());
            assert(v@.subrange(0, v.len() as int) == v@.take(v.len() as int));
            r
        },
    }
}

/// The part of `v` after its first `c`, nothing without one.
pub fn take_after_first(v: &Vec<char>, c: char) -> (r: Vec<char>)
    ensures
        r@ == after_first(v@, c),
{
    match find_first(v, c) {
        Some(i) => {
            let r = slice_chars(v, i + 1, v.len());
            assert(v@.subrange(i + 1, v.len() as int) == v@.skip(i + 1));
            r
        },
        None => Vec::new(),
    }
}

fn chars_are_media(v: &Vec<char>) -> (r: bool)
    ensures
        r == is_media(v@),
{
    let no_query = take_before_last(v, '?');
    let no_fragment = take_before_last(&no_query, '#');
    let filename = take_after_last(&no_fragment, '/');
    let ext = take_after_last(&filename, '.');
    suffix_is(&ext, "mp4") || suffix_is(&ext, "mov") || suffix_is(&ext, "avi") || suffix_is(
        &ext,
        "jpg",
    ) || suffix_is(&ext, "jpeg") || suffix_is(&ext, "gif") || suffix_is(&ext, "png")
}

/// Tells whether an address names an image or a video, going by the suffix
/// of its file name.
pub fn filter_media(url: &str) -> (r: bool)
    ensures
        r == is_media(url@),
{
    let v = to_chars(url);
    chars_are_media(&v)
}

/// What follows the last `c` of `s`; nothing where `s` holds no `c`.
pub open spec fn suffix_after_last(s: Seq<char>, c: char) -> Seq<char> {
    if last_index_of(s, c) >= 0 {
        s.skip(last_index_of(s, c) + 1)
    } else {
        Seq::empty()
    }
}

/// `sep` and `part`, or nothing where `part` is empty.
pub open spec fn joined(sep: char, part: Seq<char>) -> Seq<char> {
    if part.len() > 0 {
        seq![sep] + part
    } else {
        Seq::empty()
    }
}

/// The file name that an address gets before it is made safe for the file
/// system: the stem of its last path segment, then the query and the
/// fragment, each after `_`, then the suffix after `.`; empty parts are left
/// out. The query starts at the first `?`, the fragment at the first `#`
/// before it.
pub open spec fn spec_raw_filename(url: Seq<char>) -> Seq<char> {
    let query = after_first(url, '?');
    let path = before_first(url, '?');
    let fragment = after_first(path, '#');
    let filename = after_last(before_first(path, '#'), '/');
    before_last(filename, '.') + joined('_', query) + joined('_', fragment) + joined(
        '.',
        suffix_after_last(filename, '.'),
    )
}

fn push_joined(out: &mut Vec<char>, sep: char, part: &Vec<char>)
    ensures
        final(out)@ == old(out)@ + joined(sep, part@),
{
    if part.len() > 0 {
        out.push(sep);
        extend_chars(out, part);
        assert(out@ == old(out)@ + (seq![sep] + part@));
    } else {
        assert(out@ == old(out)@ + Seq::<char>::empty());
    }
}

fn raw_filename_chars(v: &Vec<char>) -> (r: Vec<char>)
    ensures
        r@ == spec_raw_filename(v@),
{
    let query = take_after_first(v, '?');
    let path = take_before_first(v, '?');
    let fragment = take_after_first(&path, '#');
    let no_fragment = take_before_first(&path, '#');
    let filename = take_after_last(&no_fragment, '/');
    let ext = match find_last(&filename, '.') {
        Some(i) => {
            let e = slice_chars(&filename, i + 1, filename.len());
            assert(filename@.subrange(i + 1, filename.len() as int) == filename@.skip(i + 1));
            e
        },
        None => Vec::new(),
    };
    let mut out = take_before_last(&filename, '.');
    push_joined(&mut out, '_', &query);
    push_joined(&mut out, '_', &fragment);
    push_joined(&mut out, '.', &ext);
    out
}

/// The file name that an address gets before it is made safe for the file
/// system.
pub fn raw_filename(url: &str) -> (r: String)
    ensures
        r@ == spec_raw_filename(url@),
{
    let v = to_chars(url);
    let out = raw_filename_chars(&v);
    let r = from_chars(&out, 0, out.len());
    assert(out@.subrange(0, out.len() as int) == out@);
    r
}

/// A character that no sanitized file name holds: a path separator, a
/// character that a shell or a file system reserves, or a control character.
pub open spec fn is_reserved_char(c: char) -> bool {
    c == '/' || c == '?' || c == '<' || c == '>' || c == '\\' || c == ':' || c == '*' || c == '|'
        || c == '"' || (c as u32) <= 0x1f || (0x80 <= (c as u32) <= 0x9f)
}

/// What `sanitize_filename` makes of `name`, with or without the names that
/// Windows reserves also taken out.
pub uninterp spec fn sanitized(name: Seq<char>, windows: bool) -> Seq<char>;

/// Calls `sanitize_filename::sanitize_with_options`, with truncation on and
/// an empty replacement as `sanitize` has them. The contract gives the
/// result its name, `sanitized`, and adds what the crate's patterns show:
/// every reserved character is taken out.
#[verifier::external_body]
pub(crate) fn sanitize(name: &str, windows: bool) -> (r: String)
    ensures
        r@ == sanitized(name@, windows),
        is_safe_filename(r@),
{
    let options = sanitize_filename::Options { windows, truncate: true, replacement: "" };
    sanitize_filename::sanitize_with_options(name, options)
}

/// The local file name of the asset at `url`.
pub open spec fn spec_url_to_filename(url: Seq<char>, windows: bool) -> Seq<char> {
    sanitized(spec_raw_filename(url), windows)
}

/// The local file name of the asset at `url`; `windows` says whether names
/// that Windows reserves are taken out too.
pub fn url_to_filename(url: &str, windows: bool) -> (r: String)
    ensures
        r@ == spec_url_to_filename(url@, windows),
        is_safe_filename(r@),
{
    let raw = raw_filename(url);
    sanitize(raw.as_str(), windows)
}

/// Where a localized asset is referred to from a page.
pub open spec fn spec_resource_path(filename: Seq<char>) -> Seq<char> {
    "resources/"@ + filename
}

/// Tells whether a file name holds no reserved character.
pub open spec fn is_safe_filename(name: Seq<char>) -> bool {
    forall|i: int| 0 <= i < name.len() ==> !is_reserved_char(#[trigger] name[i])
}

/// A reference to a file with a safe name points directly into
/// `resources/`: what follows its last `/` is the file name.
pub proof fn lemma_resource_path_is_flat(filename: Seq<char>)
    requires
        is_safe_filename(filename),
    ensures
        after_last(spec_resource_path(filename), '/') == filename,
{
    let path = spec_resource_path(filename);
    reveal_strlit("resources/");
    assert(path.len() == 10 + filename.len());
    assert forall|j: int| 10 <= j < path.len() implies path[j] != '/' by {
        assert(path[j] == filename[j - 10]);
        assert(!is_reserved_char(filename[j - 10]));
    }
    lemma_last_index_skips(path, '/', 10, path.len() as int);
    assert(path[9] == '/');
    assert(last_index_of(path, '/') == 9);
    assert(path.skip(10) =~= filename);
}

/// The reference to a localized asset, relative to the page.
pub fn resource_path(filename: &str) -> (r: String)
    ensures
        r@ == spec_resource_path(filename@),
{
    let mut s = String::from_str("resources/");
    s.append(filename);
    s
}

/// One entry of a `srcset` with its address localized, and that address: the
/// white space around the entry stays, and so does the descriptor, which is
/// what follows the last space inside. `None` where the address names no
/// image or video.
pub open spec fn spec_srcset_entry(entry: Seq<char>, windows: bool) -> Option<
    (Seq<char>, Seq<char>),
> {
    let body = trimmed(entry);
    let cut = last_index_of(body, ' ');
    let url = if cut >= 0 {
        body.take(cut)
    } else {
        body
    };
    let descriptor = if cut >= 0 {
        body.skip(cut)
    } else {
        Seq::empty()
    };
    if is_media(url) {
        Some(
            (
                entry.take(trim_start_index(entry)) + spec_resource_path(
                    spec_url_to_filename(url, windows),
                ) + descriptor + entry.skip(trim_end_index(entry)),
                url,
            ),
        )
    } else {
        None
    }
}

/// The entries of a `srcset` from index `from` on, each localized and joined
/// by commas again, and their addresses in order. `None` where one of them
/// names no image or video.
pub open spec fn spec_srcset_from(attr: Seq<char>, from: int, windows: bool) -> Option<
    (Seq<char>, Seq<Seq<char>>),
>
    decreases attr.len() - from,
{
    let end = first_index_from(attr, ',', from);
    if from < 0 || from > attr.len() || end < from {
        None
    } else {
        match spec_srcset_entry(attr.subrange(from, end), windows) {
            None => None,
            Some((entry, url)) => if end >= attr.len() {
                Some((entry, seq![url]))
            } else {
                match spec_srcset_from(attr, end + 1, windows) {
                    None => None,
                    Some((rest, urls)) => Some((entry + seq![','] + rest, seq![url] + urls)),
                }
            },
        }
    }
}

/// A `srcset` with every address localized, and the addresses in order.
/// `None` where one entry names no image or video.
pub open spec fn spec_rewrite_srcset(attr: Seq<char>, windows: bool) -> Option<
    (Seq<char>, Seq<Seq<char>>),
> {
    spec_srcset_from(attr, 0, windows)
}

fn srcset_entry(entry: &Vec<char>, windows: bool) -> (r: Option<(Vec<char>, String)>)
    ensures
        match r {
            Some((out, url)) => spec_srcset_entry(entry@, windows) == Some((out@, url@)),
            None => spec_srcset_entry(entry@, windows) is None,
        },
{
    let (start, end) = trim_bounds(entry);
    let body = slice_chars(entry, start, end);
    let cut: usize = match find_last(&body, ' ') {
        Some(i) => i,
        None => body.len(),
    };
    let url_chars = slice_chars(&body, 0, cut);
    assert(body@.subrange(0, cut as int) == body@.take(cut as int));
    assert(body@.take(body.len() as int) == body@);
    if !chars_are_media(&url_chars) {
        return None;
    }
    let url = from_chars(&url_chars, 0, url_chars.len());
    assert(url_chars@.subrange(0, url_chars.len() as int) == url_chars@);
    let local = resource_path(url_to_filename(url.as_str(), windows).as_str());
    let local_chars = to_chars(local.as_str());
    let mut out = slice_chars(entry, 0, start);
    extend_chars(&mut out, &local_chars);
    let descriptor = slice_chars(&body, cut, body.len());
    extend_chars(&mut out, &descriptor);
    let trail = slice_chars(entry, end, entry.len());
    extend_chars(&mut out, &trail);
    proof {
        assert(entry@.subrange(0, start as int) == entry@.take(start as int));
        assert(entry@.subrange(end as int, entry.len() as int) == entry@.skip(end as int));
        assert(body@.subrange(cut as int, body.len() as int) == body@.skip(cut as int));
        assert(body@.skip(body.len() as int) == Seq::<char>::empty());
    }
    Some((out, url))
}

/// Localizes every address of a `srcset`: each becomes the reference to its
/// local file, and the commas, the descriptors and the white space around
/// the entries stay. Returns the new value and the addresses in order, or
/// `None` where one entry names no image or video.
pub fn rewrite_srcset(attr: &str, windows: bool) -> (r: Option<(String, Vec<String>)>)
    ensures
        match r {
            Some((value, urls)) => spec_rewrite_srcset(attr@, windows) == Some(
                (value@, urls.deep_view()),
            ),
            None => spec_rewrite_srcset(attr@, windows) is None,
        },
{
    let v = to_chars(attr);
    let mut out: Vec<char> = Vec::new();
    let mut urls: Vec<String> = Vec::new();
    let mut from: usize = 0;
    loop
        invariant
            from <= v.len(),
            v@ == attr@,
            spec_rewrite_srcset(attr@, windows) == match spec_srcset_from(v@, from as int, windows) {
                None => None,
                Some((rest, more)) => Some((out@ + rest, urls.deep_view() + more)),
            },
        decreases v.len() - from,
    {
        let end = find_first_from(&v, ',', from);
        let piece = slice_chars(&v, from, end);
        let ghost before = out@;
        let ghost before_urls = urls.deep_view();
        match srcset_entry(&piece, windows) {
            None => {
                return None;
            },
            Some((entry, url)) => {
                extend_chars(&mut out, &entry);
                urls.push(url);
                assert(urls.deep_view() =~= before_urls + seq![url@]);
                if end >= v.len() {
                    let value = from_chars(&out, 0, out.len());
                    assert(out@.subrange(0, out.len() as int) == out@);
                    return Some((value, urls));
                }
                out.push(',');
                from = end + 1;
                proof {
                    let next = spec_srcset_from(v@, from as int, windows);
                    if next is Some {
                        let (rest, more) = next->0;
                        assert(out@ + rest =~= before + (entry@ + seq![','] + rest));
                        assert(urls.deep_view() + more =~= before_urls + (seq![url@] + more));
                    }
                }
            },
        }
    }
}

/// What selects the anchors of a body.
pub open spec fn anchor_selector() -> Seq<char> {
    "a"@
}

/// What selects the images and sources of a body; avatars are left alone
/// when names are masked.
pub open spec fn media_selector(anonymous: bool) -> Seq<char> {
    if anonymous {
        "img:not(.avatar), source"@
    } else {
        "img, source"@
    }
}

/// The attributes that hold addresses of assets: `src` and `srcset`, and on
/// anchors `href` too.
pub open spec fn asset_attributes(with_href: bool) -> Seq<Seq<char>> {
    if with_href {
        seq!["src"@, "srcset"@, "href"@]
    } else {
        seq!["src"@, "srcset"@]
    }
}

/// The value of the `i`-th attribute that was read; none where fewer were.
pub open spec fn spec_attr(attrs: Seq<Option<Seq<char>>>, i: int) -> Option<Seq<char>> {
    if 0 <= i < attrs.len() {
        attrs[i]
    } else {
        None
    }
}

/// The new value of an attribute that holds one address: the reference to
/// the local file, where the address names an image or a video.
pub open spec fn spec_plain_edits(name: Seq<char>, value: Option<Seq<char>>, windows: bool) -> Seq<
    (Seq<char>, Seq<char>),
> {
    if value is Some && is_media(value->0) {
        seq![(name, spec_resource_path(spec_url_to_filename(value->0, windows)))]
    } else {
        Seq::empty()
    }
}

/// The address that an attribute with one address asks for.
pub open spec fn spec_plain_urls(value: Option<Seq<char>>) -> Seq<Seq<char>> {
    if value is Some && is_media(value->0) {
        seq![value->0]
    } else {
        Seq::empty()
    }
}

/// The new value of `srcset`, where every entry of it names an image or a
/// video.
pub open spec fn spec_srcset_edits(value: Option<Seq<char>>, windows: bool) -> Seq<
    (Seq<char>, Seq<char>),
> {
    if value is Some && spec_rewrite_srcset(value->0, windows) is Some {
        let rewritten = spec_rewrite_srcset(value->0, windows)->0;
        seq![("srcset"@, rewritten.0)]
    } else {
        Seq::empty()
    }
}

/// The addresses that `srcset` asks for, where it is rewritten.
pub open spec fn spec_srcset_urls(value: Option<Seq<char>>, windows: bool) -> Seq<Seq<char>> {
    if value is Some && spec_rewrite_srcset(value->0, windows) is Some {
        let rewritten = spec_rewrite_srcset(value->0, windows)->0;
        rewritten.1
    } else {
        Seq::empty()
    }
}

/// The attributes that one element gets, given the values of `src`,
/// `srcset` and, on an anchor, `href`: each that names an image or a video
/// is pointed at the local file.
pub open spec fn spec_element_edits(attrs: Seq<Option<Seq<char>>>, windows: bool) -> Seq<
    (Seq<char>, Seq<char>),
> {
    spec_plain_edits("src"@, spec_attr(attrs, 0), windows) + spec_srcset_edits(
        spec_attr(attrs, 1),
        windows,
    ) + spec_plain_edits("href"@, spec_attr(attrs, 2), windows)
}

/// The addresses that one element asks for: that of `src`, those of
/// `srcset`, that of `href`, each where the attribute is rewritten.
pub open spec fn spec_element_urls(attrs: Seq<Option<Seq<char>>>, windows: bool) -> Seq<
    Seq<char>,
> {
    spec_plain_urls(spec_attr(attrs, 0)) + spec_srcset_urls(spec_attr(attrs, 1), windows)
        + spec_plain_urls(spec_attr(attrs, 2))
}

/// The addresses that the first `n` elements ask for, in document order.
pub open spec fn spec_urls_upto(found: Seq<Seq<Option<Seq<char>>>>, n: int, windows: bool) -> Seq<
    Seq<char>,
>
    decreases n,
{
    if n <= 0 {
        Seq::empty()
    } else {
        spec_urls_upto(found, n - 1, windows) + spec_element_urls(found[n - 1], windows)
    }
}

/// The new attributes of each element.
pub open spec fn spec_asset_edits(found: Seq<Seq<Option<Seq<char>>>>, windows: bool) -> Seq<
    Seq<(Seq<char>, Seq<char>)>,
> {
    Seq::new(found.len(), |k: int| spec_element_edits(found[k], windows))
}

/// A body with its assets localized, and the addresses to download.
pub struct ExtractAssetResult {
    /// The addresses of the assets: those of the anchors, then those of the
    /// images and sources, each in document order.
    pub urls: Vec<String>,
    /// The body, referring to the local files.
    pub rewritten_content: String,
}

fn attr_at<'a>(attrs: &'a Vec<Option<String>>, i: usize) -> (r: Option<&'a String>)
    ensures
        match r {
            Some(value) => spec_attr(attrs.deep_view(), i as int) == Some(value@),
            None => spec_attr(attrs.deep_view(), i as int) is None,
        },
{
    if i < attrs.len() {
        assert(attrs.deep_view()[i as int] == attrs@[i as int].deep_view());
        match &attrs[i] {
            Some(value) => Some(value),
            None => None,
        }
    } else {
        None
    }
}

fn plan_plain(
    name: &str,
    value: Option<&String>,
    windows: bool,
    edits: &mut Vec<(String, String)>,
    urls: &mut Vec<String>,
)
    ensures
        final(edits).deep_view() == old(edits).deep_view() + spec_plain_edits(
            name@,
            match value {
                Some(url) => Some(url@),
                None => None,
            },
            windows,
        ),
        final(urls).deep_view() == old(urls).deep_view() + spec_plain_urls(
            match value {
                Some(url) => Some(url@),
                None => None,
            },
        ),
{
    match value {
        Some(url) => {
            if filter_media(url.as_str()) {
                let local = resource_path(url_to_filename(url.as_str(), windows).as_str());
                push_pair(edits, String::from_str(name), local);
                push_string(urls, url.clone());
                assert(edits.deep_view() =~= old(edits).deep_view() + seq![(name@, local@)]);
                assert(urls.deep_view() =~= old(urls).deep_view() + seq![url@]);
                return ;
            }
        },
        None => {},
    }
    assert(edits.deep_view() =~= old(edits).deep_view() + Seq::empty());
    assert(urls.deep_view() =~= old(urls).deep_view() + Seq::empty());
}

fn plan_srcset(
    value: Option<&String>,
    windows: bool,
    edits: &mut Vec<(String, String)>,
    urls: &mut Vec<String>,
)
    ensures
        final(edits).deep_view() == old(edits).deep_view() + spec_srcset_edits(
            match value {
                Some(srcset) => Some(srcset@),
                None => None,
            },
            windows,
        ),
        final(urls).deep_view() == old(urls).deep_view() + spec_srcset_urls(
            match value {
                Some(srcset) => Some(srcset@),
                None => None,
            },
            windows,
        ),
{
    match value {
        Some(srcset) => {
            match rewrite_srcset(srcset.as_str(), windows) {
                Some((rewritten, more)) => {
                    push_pair(edits, "srcset".to_string(), rewritten);
                    append_strings(urls, more);
                    assert(edits.deep_view() =~= old(edits).deep_view() + seq![
                        ("srcset"@, rewritten@),
                    ]);
                    return ;
                },
                None => {},
            }
        },
        None => {},
    }
    assert(edits.deep_view() =~= old(edits).deep_view() + Seq::empty());
    assert(urls.deep_view() =~= old(urls).deep_view() + Seq::empty());
}

/// Plans the rewriting of one element from the attributes that were read
/// of it: `src`, `srcset` and, on an anchor, `href`, in this order. Returns
/// the attributes to set and appends the addresses to download to `urls`.
pub fn element_plan(attrs: &Vec<Option<String>>, windows: bool, urls: &mut Vec<String>) -> (edits:
    Vec<(String, String)>)
    ensures
        edits.deep_view() == spec_element_edits(attrs.deep_view(), windows),
        final(urls).deep_view() == old(urls).deep_view() + spec_element_urls(
            attrs.deep_view(),
            windows,
        ),
{
    let mut edits: Vec<(String, String)> = Vec::new();
    let ghost view = attrs.deep_view();
    let ghost start = urls.deep_view();
    assert(edits.deep_view() =~= Seq::<(Seq<char>, Seq<char>)>::empty());
    plan_plain("src", attr_at(attrs, 0), windows, &mut edits, urls);
    plan_srcset(attr_at(attrs, 1), windows, &mut edits, urls);
    plan_plain("href", attr_at(attrs, 2), windows, &mut edits, urls);
    proof {
        assert(edits.deep_view() =~= spec_element_edits(view, windows));
        assert(urls.deep_view() =~= start + spec_element_urls(view, windows));
    }
    edits
}

/// Moves the strings of `more` to the end of `out`.
pub fn append_strings(out: &mut Vec<String>, more: Vec<String>)
    ensures
        final(out).deep_view() == old(out).deep_view() + more.deep_view(),
{
    let mut more = more;
    let ghost all = more.deep_view();
    let ghost start = out.deep_view();
    let mut tail: Vec<String> = Vec::new();
    while more.len() > 0
        invariant
            all == more.deep_view() + tail.deep_view().reverse(),
        decreases more.len(),
    {
        let ghost before = more.deep_view();
        let ghost done = tail.deep_view();
        let s = more.pop().unwrap();
        tail.push(s);
        assert(tail.deep_view() =~= done.push(s@));
        assert(before =~= more.deep_view().push(s@));
        assert(tail.deep_view().reverse() =~= seq![s@] + done.reverse());
        assert(all =~= more.deep_view() + tail.deep_view().reverse());
    }
    while tail.len() > 0
        invariant
            start + all == out.deep_view() + tail.deep_view().reverse(),
        decreases tail.len(),
    {
        let ghost before = tail.deep_view();
        let ghost done = out.deep_view();
        let s = tail.pop().unwrap();
        out.push(s);
        assert(out.deep_view() =~= done.push(s@));
        assert(before =~= tail.deep_view().push(s@));
        assert(before.reverse() =~= seq![s@] + tail.deep_view().reverse());
        assert(start + all =~= out.deep_view() + tail.deep_view().reverse());
    }
    assert(tail.deep_view().reverse() =~= Seq::<Seq<char>>::empty());
    assert(out.deep_view() + Seq::<Seq<char>>::empty() =~= out.deep_view());
}

/// The elements that `selector` matches localized, and their addresses in
/// document order, as far as the two passes over the document go: reading
/// the attributes, then setting the new ones.
pub open spec fn spec_localize_elements(
    content: Seq<char>,
    selector: Seq<char>,
    with_href: bool,
    windows: bool,
) -> Option<(Seq<Seq<char>>, Seq<char>)> {
    match html_selected_attributes(content, selector, asset_attributes(with_href)) {
        None => None,
        Some(found) => match html_with_attributes(
            content,
            selector,
            spec_asset_edits(found, windows),
        ) {
            None => None,
            Some(rewritten) => Some((spec_urls_upto(found, found.len() as int, windows), rewritten)),
        },
    }
}

/// A body with its assets localized and the addresses to download: the
/// anchors first, with `href`, then the images and sources.
pub open spec fn spec_extract_asset_url(content: Seq<char>, anonymous: bool, windows: bool) -> Option<
    (Seq<Seq<char>>, Seq<char>),
> {
    match spec_localize_elements(content, anchor_selector(), true, windows) {
        None => None,
        Some(anchors) => match spec_localize_elements(
            anchors.1,
            media_selector(anonymous),
            false,
            windows,
        ) {
            None => None,
            Some(media) => Some((anchors.0 + media.0, media.1)),
        },
    }
}

/// Plans the rewriting of every element from the attributes that were read
/// of them, one entry of `found` for each element in document order.
/// Returns the attributes to set on each and the addresses to download.
pub fn elements_plan(found: &Vec<Vec<Option<String>>>, windows: bool) -> (r: (
    Vec<Vec<(String, String)>>,
    Vec<String>,
))
    ensures
        r.0.deep_view() == spec_asset_edits(found.deep_view(), windows),
        r.1.deep_view() == spec_urls_upto(found.deep_view(), found.len() as int, windows),
{
    let ghost view = found.deep_view();
    let mut urls: Vec<String> = Vec::new();
    let mut edits: Vec<Vec<(String, String)>> = Vec::new();
    let mut k: usize = 0;
    assert(urls.deep_view() =~= spec_urls_upto(view, 0, windows));
    while k < found.len()
        invariant
            k <= found.len(),
            view == found.deep_view(),
            edits.len() == k,
            forall|i: int|
                0 <= i < k ==> (#[trigger] edits.deep_view()[i]) == spec_element_edits(
                    view[i],
                    windows,
                ),
            urls.deep_view() == spec_urls_upto(view, k as int, windows),
        decreases found.len() - k,
    {
        let ghost before = edits.deep_view();
        let ghost before_vec = edits@;
        assert(view[k as int] == found@[k as int].deep_view());
        let plan = element_plan(&found[k], windows, &mut urls);
        let ghost plan_view = plan.deep_view();
        edits.push(plan);
        assert forall|i: int| 0 <= i < k + 1 implies (#[trigger] edits.deep_view()[i])
            == spec_element_edits(view[i], windows) by {
            assert(edits.deep_view()[i] == edits@[i].deep_view());
            if i < k {
                assert(edits@[i] == before_vec[i]);
                assert(before[i] == before_vec[i].deep_view());
            } else {
                assert(edits@[i].deep_view() == plan_view);
            }
        }
        k += 1;
    }
    assert(edits.deep_view() =~= spec_asset_edits(view, windows));
    (edits, urls)
}

/// Localizes the elements of a body that `selector` matches: `src`,
/// `srcset` and, with `with_href`, `href` are pointed at `resources/` where
/// they name images or videos, and the addresses that they held are
/// returned in document order. Fails with `Error::Rewriting` where the
/// document cannot be rewritten.
pub fn localize_elements(content: &str, selector: &str, with_href: bool, windows: bool) -> (r:
    Result<ExtractAssetResult, Error>)
    ensures
        match r {
            Ok(found) => spec_localize_elements(content@, selector@, with_href, windows) == Some(
                (found.urls.deep_view(), found.rewritten_content@),
            ),
            Err(e) => e == Error::Rewriting && spec_localize_elements(
                content@,
                selector@,
                with_href,
                windows,
            ) is None,
        },
{
    let mut names: Vec<String> = Vec::new();
    push_string(&mut names, "src".to_string());
    push_string(&mut names, "srcset".to_string());
    if with_href {
        push_string(&mut names, "href".to_string());
    }
    assert(names.deep_view() =~= asset_attributes(with_href));
    let found = match select_attributes(content, selector, &names) {
        Some(found) => found,
        None => {
            return Err(Error::Rewriting);
        },
    };
    let (edits, urls) = elements_plan(&found, windows);
    match set_attributes(content, selector, &edits) {
        Some(rewritten_content) => Ok(ExtractAssetResult { urls, rewritten_content }),
        None => Err(Error::Rewriting),
    }
}

/// Localizes the assets of a body. In every anchor, `href`, `src` and
/// `srcset` are pointed at `resources/` where they name images or videos;
/// then the same is done with `src` and `srcset` of every image and source
/// (avatars left out when `anonymous`). The addresses that they held are
/// returned, those of the anchors first. Fails with `Error::Rewriting`
/// where the document cannot be rewritten.
pub fn extract_asset_url(content: &str, anonymous: bool, windows: bool) -> (r: Result<
    ExtractAssetResult,
    Error,
>)
    ensures
        match r {
            Ok(found) => spec_extract_asset_url(content@, anonymous, windows) == Some(
                (found.urls.deep_view(), found.rewritten_content@),
            ),
            Err(e) => e == Error::Rewriting && spec_extract_asset_url(content@, anonymous, windows)
                is None,
        },
{
    let anchors = match localize_elements(content, "a", true, windows) {
        Ok(anchors) => anchors,
        Err(_) => {
            return Err(Error::Rewriting);
        },
    };
    let selector = if anonymous {
        "img:not(.avatar), source"
    } else {
        "img, source"
    };
    let media = match localize_elements(
        anchors.rewritten_content.as_str(),
        selector,
        false,
        windows,
    ) {
        Ok(media) => media,
        Err(_) => {
            return Err(Error::Rewriting);
        },
    };
    let mut urls = anchors.urls;
    append_strings(&mut urls, media.urls);
    Ok(ExtractAssetResult { urls, rewritten_content: media.rewritten_content })
}

/// What selects a poll by its name.
pub open spec fn spec_poll_selector(name: Seq<char>) -> Seq<char> {
    "div.poll[data-poll-name=\""@ + name + "\"]"@
}

/// The edit that shows a poll's number of voters.
pub open spec fn spec_voters_edit(poll: RespPoll) -> (Seq<char>, Seq<char>) {
    (spec_poll_selector(poll.name@) + " span.info-number"@, decimal(poll.voters as nat))
}

/// The edit that shows an option's number of votes.
pub open spec fn spec_option_edit(poll: RespPoll, option: RespPollOption) -> (
    Seq<char>,
    Seq<char>,
) {
    (
        spec_poll_selector(poll.name@) + " li[data-poll-option-id=\""@ + option.id@ + "\"]"@,
        " - "@ + decimal(option.votes->0 as nat) + " 票"@,
    )
}

/// The voters' edits of the first `n` polls.
pub open spec fn spec_voters_edits(polls: Seq<RespPoll>, n: int) -> Seq<(Seq<char>, Seq<char>)>
    decreases n,
{
    if n <= 0 {
        Seq::empty()
    } else {
        spec_voters_edits(polls, n - 1).push(spec_voters_edit(polls[n - 1]))
    }
}

/// The votes' edits of the first `n` options of a poll; an option whose
/// votes are withheld has none.
pub open spec fn spec_option_edits(poll: RespPoll, n: int) -> Seq<(Seq<char>, Seq<char>)>
    decreases n,
{
    if n <= 0 {
        Seq::empty()
    } else if poll.options@[n - 1].votes is Some {
        spec_option_edits(poll, n - 1).push(spec_option_edit(poll, poll.options@[n - 1]))
    } else {
        spec_option_edits(poll, n - 1)
    }
}

/// The votes' edits of the first `n` polls.
pub open spec fn spec_votes_edits(polls: Seq<RespPoll>, n: int) -> Seq<(Seq<char>, Seq<char>)>
    decreases n,
{
    if n <= 0 {
        Seq::empty()
    } else {
        spec_votes_edits(polls, n - 1) + spec_option_edits(
            polls[n - 1],
            polls[n - 1].options@.len() as int,
        )
    }
}

/// A body with the results of its polls written in: the number of voters
/// replaces what each poll's counter holds, then each option gets its votes
/// appended. A body without polls stays as it is. `None` where the document
/// cannot be rewritten.
pub open spec fn spec_reify_vote(cooked: Seq<char>, polls: Seq<RespPoll>) -> Option<Seq<char>> {
    if polls.len() == 0 {
        Some(cooked)
    } else {
        match html_with_inner_text(cooked, spec_voters_edits(polls, polls.len() as int)) {
            None => None,
            Some(counted) => html_with_appended_text(
                counted,
                spec_votes_edits(polls, polls.len() as int),
            ),
        }
    }
}

fn poll_selector(name: &str) -> (r: String)
    ensures
        r@ == spec_poll_selector(name@),
{
    concat3("div.poll[data-poll-name=\"", name, "\"]")
}

/// The edits that show each poll's number of voters.
pub fn voters_edits(polls: &Vec<RespPoll>) -> (edits: Vec<(String, String)>)
    ensures
        edits.deep_view() == spec_voters_edits(polls@, polls.len() as int),
{
    let mut edits: Vec<(String, String)> = Vec::new();
    let mut i: usize = 0;
    assert(edits.deep_view() =~= spec_voters_edits(polls@, 0));
    while i < polls.len()
        invariant
            i <= polls.len(),
            edits.deep_view() == spec_voters_edits(polls@, i as int),
        decreases polls.len() - i,
    {
        let selector = concat(poll_selector(polls[i].name.as_str()).as_str(), " span.info-number");
        let text = decimal_string(polls[i].voters as u64);
        push_pair(&mut edits, selector, text);
        i += 1;
    }
    edits
}

fn push_option_edits(edits: &mut Vec<(String, String)>, poll: &RespPoll)
    ensures
        final(edits).deep_view() == old(edits).deep_view() + spec_option_edits(
            *poll,
            poll.options@.len() as int,
        ),
{
    let mut i: usize = 0;
    assert(edits.deep_view() =~= old(edits).deep_view() + spec_option_edits(*poll, 0));
    while i < poll.options.len()
        invariant
            i <= poll.options.len(),
            edits.deep_view() == old(edits).deep_view() + spec_option_edits(*poll, i as int),
        decreases poll.options.len() - i,
    {
        let ghost before = edits.deep_view();
        match poll.options[i].votes {
            Some(votes) => {
                let selector = concat3(
                    concat(poll_selector(poll.name.as_str()).as_str(), " li[data-poll-option-id=\"").as_str(),
                    poll.options[i].id.as_str(),
                    "\"]",
                );
                let text = concat3(" - ", decimal_string(votes as u64).as_str(), " 票");
                push_pair(edits, selector, text);
                assert(edits.deep_view() =~= old(edits).deep_view() + spec_option_edits(
                    *poll,
                    i + 1,
                ));
            },
            None => {},
        }
        i += 1;
    }
}

/// The edits that show the votes of every option that has them.
pub fn votes_edits(polls: &Vec<RespPoll>) -> (edits: Vec<(String, String)>)
    ensures
        edits.deep_view() == spec_votes_edits(polls@, polls.len() as int),
{
    let mut edits: Vec<(String, String)> = Vec::new();
    let mut i: usize = 0;
    assert(edits.deep_view() =~= spec_votes_edits(polls@, 0));
    while i < polls.len()
        invariant
            i <= polls.len(),
            edits.deep_view() == spec_votes_edits(polls@, i as int),
        decreases polls.len() - i,
    {
        push_option_edits(&mut edits, &polls[i]);
        i += 1;
    }
    edits
}

/// Writes the results of a post's polls into its body: the number of
/// voters into each poll's counter, the votes behind each option that shows
/// them. A post without polls is returned as it is. Fails with
/// `Error::Rewriting` where the body cannot be rewritten.
pub fn reify_vote(post: RespPost) -> (r: Result<RespPost, Error>)
    ensures
        match r {
            Ok(reified) => spec_reify_vote(post.cooked@, post.polls@) == Some(reified.cooked@)
                && reified == (RespPost { cooked: reified.cooked, ..post }),
            Err(e) => e == Error::Rewriting && spec_reify_vote(post.cooked@, post.polls@) is None,
        },
{
    if post.polls.len() == 0 {
        return Ok(post);
    }
    let voters = voters_edits(&post.polls);
    let counted = match set_inner_text(post.cooked.as_str(), &voters) {
        Some(counted) => counted,
        None => {
            return Err(Error::Rewriting);
        },
    };
    let votes = votes_edits(&post.polls);
    match append_text(counted.as_str(), &votes) {
        Some(cooked) => Ok(RespPost { cooked, ..post }),
        None => Err(Error::Rewriting),
    }
}

/// The message of the first entry of `codes` whose code is `code`.
pub open spec fn spec_system_message(codes: Seq<(String, String)>, code: Seq<char>, from: int) -> Option<
    Seq<char>,
>
    decreases codes.len() - from,
{
    if from < 0 || from >= codes.len() {
        None
    } else if codes[from].0@ == code {
        Some(codes[from].1@)
    } else {
        spec_system_message(codes, code, from + 1)
    }
}

/// The body that stands for a system notice.
pub open spec fn spec_system_body(message: Seq<char>) -> Seq<char> {
    "<p>系统消息："@ + message + "</p>"@
}

/// The body of a revealed post: a notice, then what the forum had folded.
pub open spec fn spec_revealed_body(cooked: Seq<char>) -> Seq<char> {
    "<p style=\"color: gray\">被折叠的内容</p>"@ + cooked
}

/// Where the folded body of post `id` is fetched.
pub open spec fn spec_cooked_url(id: nat) -> Seq<char> {
    site() + "/posts/"@ + decimal(id) + "/cooked.json"@
}

/// What is to be done with a post before its body is processed.
pub enum SpecialPost {
    /// The post is ready.
    Ready(RespPost),
    /// The post's body is folded: fetch it at `url`, then call
    /// `reveal_special_post`.
    Hidden { post: RespPost, url: String },
}

fn system_message<'a>(codes: &'a Vec<(String, String)>, code: &str) -> (r: Option<&'a str>)
    ensures
        match r {
            Some(message) => spec_system_message(codes@, code@, 0) == Some(message@),
            None => spec_system_message(codes@, code@, 0) is None,
        },
{
    let key = String::from_str(code);
    let mut i: usize = 0;
    while i < codes.len()
        invariant
            i <= codes.len(),
            key@ == code@,
            spec_system_message(codes@, code@, 0) == spec_system_message(codes@, code@, i as int),
        decreases codes.len() - i,
    {
        if codes[i].0 == key {
            return Some(codes[i].1.as_str());
        }
        i += 1;
    }
    None
}

/// Turns a system notice into its canned text and tells whether a folded
/// body has to be fetched. `codes` maps action codes to their texts; of
/// several entries for one code the first counts.
pub fn fetch_special_post(post: RespPost, codes: &Vec<(String, String)>) -> (r: SpecialPost)
    ensures
        match r {
            SpecialPost::Ready(ready) => {
                let message = if post.action_code is Some {
                    spec_system_message(codes@, post.action_code->0@, 0)
                } else {
                    None
                };
                if message is Some {
                    ready.cooked@ == spec_system_body(message->0) && ready == (RespPost {
                        cooked: ready.cooked,
                        ..post
                    })
                } else {
                    !post.cooked_hidden && ready == post
                }
            },
            SpecialPost::Hidden { post: hidden, url } => {
                &&& hidden == post
                &&& post.cooked_hidden
                &&& post.action_code is Some ==> spec_system_message(
                    codes@,
                    post.action_code->0@,
                    0,
                ) is None
                &&& url@ == spec_cooked_url(post.id as nat)
            },
        },
{
    let message: Option<&str> = match &post.action_code {
        Some(code) => system_message(codes, code.as_str()),
        None => None,
    };
    match message {
        Some(message) => {
            let cooked = concat3("<p>系统消息：", message, "</p>");
            SpecialPost::Ready(RespPost { cooked, ..post })
        },
        None => {
            if post.cooked_hidden {
                let url = concat3(
                    "https://shuiyuan.sjtu.edu.cn/posts/",
                    decimal_string(post.id as u64).as_str(),
                    "/cooked.json",
                );
                assert(url@ =~= spec_cooked_url(post.id as nat)) by {
                    assert("https://shuiyuan.sjtu.edu.cn/posts/"@ =~= site() + "/posts/"@) by {
                        reveal_strlit("https://shuiyuan.sjtu.edu.cn/posts/");
                        reveal_strlit("https://shuiyuan.sjtu.edu.cn");
                        reveal_strlit("/posts/");
                    }
                }
                SpecialPost::Hidden { post, url }
            } else {
                SpecialPost::Ready(post)
            }
        },
    }
}

/// Puts the fetched body into a folded post, behind a notice.
pub fn reveal_special_post(post: RespPost, revealed: RespCooked) -> (r: RespPost)
    ensures
        r.cooked@ == spec_revealed_body(revealed.cooked@),
        r == (RespPost { cooked: r.cooked, ..post }),
{
    let cooked = concat("<p style=\"color: gray\">被折叠的内容</p>", revealed.cooked.as_str());
    RespPost { cooked, ..post }
}

/// The address of a post's avatar at the size that the archive shows.
pub open spec fn spec_avatar_url(template: Seq<char>) -> Seq<char> {
    replaced(template, "{size}"@, "40"@)
}

/// The local file name of the avatar at `url`: the hash of the address,
/// `_`, and the last path segment made safe.
pub open spec fn spec_avatar_filename(url: Seq<char>, windows: bool) -> Seq<char> {
    decimal(spec_calculate_hash(url) as nat) + seq!['_'] + sanitized(after_last(url, '/'), windows)
}

/// A file to download and the name it gets below `resources/`.
#[derive(Debug, Clone)]
pub struct AssetRequest {
    pub url: String,
    pub filename: String,
}

/// Names the avatar of a post: where it is fetched and the file it goes to.
pub fn fetch_avatar(resp_post: &RespPost, windows: bool) -> (r: AssetRequest)
    ensures
        r.url@ == spec_avatar_url(resp_post.avatar_template@),
        r.filename@ == spec_avatar_filename(r.url@, windows),
        is_safe_filename(r.filename@),
{
    let template = to_chars(resp_post.avatar_template.as_str());
    let size = to_chars("{size}");
    let forty = to_chars("40");
    let url_chars = replace_chars(&template, &size, &forty);
    let url = string_of(&url_chars);
    let last = string_of(&take_after_last(&url_chars, '/'));
    let hash = calculate_hash(url.as_str());
    let mut filename = decimal_string(hash);
    filename.push('_');
    let safe = sanitize(last.as_str(), windows);
    filename.append(safe.as_str());
    proof {
        lemma_decimal_digits(hash as nat);
        let digits = decimal(hash as nat);
        assert forall|i: int| 0 <= i < filename@.len() implies !is_reserved_char(
            #[trigger] filename@[i],
        ) by {
            if i < digits.len() {
                assert(filename@[i] == digits[i]);
            } else if i == digits.len() {
                assert(filename@[i] == '_');
            } else {
                assert(filename@[i] == safe@[i - digits.len() - 1]);
            }
        }
    }
    AssetRequest { url, filename }
}

/// Where a reaction's image is fetched and the file it goes to: a custom
/// emoji at the address that the forum preloaded, under the last path
/// segment; any other below the standard emoji directory, under its own
/// name. `None` where the name cannot be normalized.
pub open spec fn spec_emoji_request(store: PreloadedStore, emoji: Seq<char>, windows: bool) -> Option<
    (Seq<char>, Seq<char>),
> {
    match store.spec_custom_emoji(emoji) {
        Some(path) => Some((spec_absolute_url(path), sanitized(after_last(path, '/'), windows))),
        None => match spec_normalize_emoji(emoji) {
            Some(name) => Some(
                (
                    spec_absolute_url("/images/emoji/google/"@ + name + ".png"@),
                    sanitized(emoji + ".png"@, windows),
                ),
            ),
            None => None,
        },
    }
}

/// Resolves a reaction: the image to download, and the local file name with
/// the number of users who reacted. Fails with `Error::Pattern` where the
/// emoji's name cannot be normalized.
pub fn fetch_emoji_from_retort(store: &PreloadedStore, r: &RespRetort, windows: bool) -> (res:
    Result<(AssetRequest, usize), Error>)
    ensures
        match res {
            Ok((request, count)) => spec_emoji_request(*store, r.emoji@, windows) == Some(
                (request.url@, request.filename@),
            ) && count == r.usernames.len() && is_safe_filename(request.filename@),
            Err(e) => e == Error::Pattern && spec_emoji_request(*store, r.emoji@, windows)
                is None,
        },
{
    let count: usize = r.usernames.len();
    match store.custom_emoji(r.emoji.as_str()) {
        Some(path) => {
            let chars = to_chars(path);
            let last = string_of(&take_after_last(&chars, '/'));
            let filename = sanitize(last.as_str(), windows);
            Ok((AssetRequest { url: absolute_url(path), filename }, count))
        },
        None => {
            let name = match normalize_emoji(r.emoji.as_str()) {
                Ok(name) => name,
                Err(_) => {
                    return Err(Error::Pattern);
                },
            };
            let filename = sanitize(concat(r.emoji.as_str(), ".png").as_str(), windows);
            let path = concat3("/images/emoji/google/", name.as_str(), ".png");
            Ok((AssetRequest { url: absolute_url(path.as_str()), filename }, count))
        },
    }
}

/// A body with its assets localized, and what to download for it.
pub struct AssetPlan {
    /// One download for each address of the body, in document order.
    pub requests: Vec<AssetRequest>,
    /// The body, referring to the local files.
    pub rewritten_content: String,
}

/// Localizes the assets of a body and lists the downloads: each address is
/// fetched in its absolute form and stored under its local file name.
/// Fails with `Error::Rewriting` where the body cannot be rewritten.
pub fn fetch_assets_of_content(content: &str, anonymous: bool, windows: bool) -> (r: Result<
    AssetPlan,
    Error,
>)
    ensures
        match r {
            Ok(plan) => {
                let extracted = spec_extract_asset_url(content@, anonymous, windows);
                &&& extracted is Some
                &&& plan.rewritten_content@ == (extracted->0).1
                &&& plan.requests.len() == (extracted->0).0.len()
                &&& forall|k: int|
                    0 <= k < plan.requests.len() ==> (#[trigger] plan.requests[k]).url@
                        == spec_absolute_url((extracted->0).0[k]) && plan.requests[k].filename@
                        == spec_url_to_filename((extracted->0).0[k], windows) && is_safe_filename(
                        plan.requests[k].filename@,
                    )
            },
            Err(e) => e == Error::Rewriting && spec_extract_asset_url(content@, anonymous, windows)
                is None,
        },
{
    let found = match extract_asset_url(content, anonymous, windows) {
        Ok(found) => found,
        Err(_) => {
            return Err(Error::Rewriting);
        },
    };
    let ghost urls = found.urls.deep_view();
    let mut requests: Vec<AssetRequest> = Vec::new();
    let mut k: usize = 0;
    while k < found.urls.len()
        invariant
            k <= found.urls.len(),
            urls == found.urls.deep_view(),
            requests.len() == k,
            forall|i: int|
                0 <= i < k ==> (#[trigger] requests[i]).url@ == spec_absolute_url(urls[i])
                    && requests[i].filename@ == spec_url_to_filename(urls[i], windows)
                    && is_safe_filename(requests[i].filename@),
        decreases found.urls.len() - k,
    {
        assert(urls[k as int] == found.urls@[k as int]@);
        let url = absolute_url(found.urls[k].as_str());
        let filename = url_to_filename(found.urls[k].as_str(), windows);
        requests.push(AssetRequest { url, filename });
        k += 1;
    }
    Ok(AssetPlan { requests, rewritten_content: found.rewritten_content })
}

/// Where the header of topic `id` is fetched.
pub open spec fn spec_topic_url(id: nat) -> Seq<char> {
    site() + "/t/"@ + decimal(id) + ".json"@
}

/// Where category `id` is fetched.
pub open spec fn spec_category_url(id: nat) -> Seq<char> {
    site() + "/c/"@ + decimal(id) + "/show.json"@
}

/// The address of a topic's header.
pub fn topic_url(topic_id: u32) -> (url: String)
    ensures
        url@ == spec_topic_url(topic_id as nat),
{
    let head = concat("https://shuiyuan.sjtu.edu.cn", "/t/");
    concat3(head.as_str(), decimal_string(topic_id as u64).as_str(), ".json")
}

/// The address of a category.
pub fn category_url(id: usize) -> (url: String)
    ensures
        url@ == spec_category_url(id as nat),
{
    let head = concat("https://shuiyuan.sjtu.edu.cn", "/c/");
    concat3(head.as_str(), decimal_string(id as u64).as_str(), "/show.json")
}

/// The body of a topic's first post, from which its description is made.
pub fn first_post_body(resp: &RespTopic) -> (body: Option<&str>)
    ensures
        match body {
            Some(cooked) => resp.post_stream.posts.len() > 0 && cooked@
                == resp.post_stream.posts[0].cooked@,
            None => resp.post_stream.posts.len() == 0,
        },
{
    if resp.post_stream.posts.len() > 0 {
        Some(resp.post_stream.posts[0].cooked.as_str())
    } else {
        None
    }
}

/// Builds a topic's header from the forum's answer, the plain-text summary
/// of its first post and its chain of categories. Fails with `Error::Json`
/// where the answer holds no post or no list of post ids.
pub fn fetch_topic_meta(
    topic_id: u32,
    resp: RespTopic,
    description: String,
    categories: Vec<Category>,
) -> (r: Result<TopicMeta, Error>)
    ensures
        match r {
            Ok(meta) => {
                &&& resp.post_stream.posts.len() > 0
                &&& resp.post_stream.stream == Some(meta.post_ids)
                &&& meta.id == topic_id
                &&& meta.title == resp.title
                &&& meta.description == description
                &&& meta.categories == categories
                &&& meta.tags == resp.tags
            },
            Err(e) => e == Error::Json && (resp.post_stream.posts.len() == 0
                || resp.post_stream.stream is None),
        },
{
    if resp.post_stream.posts.len() == 0 {
        return Err(Error::Json);
    }
    match resp.post_stream.stream {
        Some(post_ids) => Ok(
            TopicMeta {
                id: topic_id,
                title: resp.title,
                description,
                categories,
                tags: resp.tags,
                post_ids,
            },
        ),
        None => Err(Error::Json),
    }
}

/// One step up the chain of categories: the category that was fetched goes
/// in front of those below it, and the address of its parent is returned
/// where it has one. The chain is complete when there is none.
pub fn categories_from_id(chain: &mut Vec<Category>, resp: RespCategory) -> (next: Option<String>)
    ensures
        final(chain)@ == seq![resp.category.inner] + old(chain)@,
        match next {
            Some(url) => resp.category.parent_category_id is Some && url@ == spec_category_url(
                resp.category.parent_category_id->0 as nat,
            ),
            None => resp.category.parent_category_id is None,
        },
{
    chain.insert(0, resp.category.inner);
    assert(chain@ =~= seq![resp.category.inner] + old(chain)@);
    match resp.category.parent_category_id {
        Some(id) => Some(category_url(id)),
        None => None,
    }
}

/// The pattern that finds the id in the address of a topic.
pub open spec fn topic_pattern() -> Seq<char> {
    "https://shuiyuan.sjtu.edu.cn/t/topic/(\\d+)"@
}

/// The id that the matches of the topic pattern give: the number in group
/// 1 of the first match, where there is one and the number fits 32 bits.
pub open spec fn spec_topic_id_of_matches(found: Seq<Seq<Option<Seq<char>>>>) -> Option<u32> {
    if found.len() > 0 && spec_parse_digits(group_text(found[0], 1)) is Some && spec_parse_digits(
        group_text(found[0], 1),
    )->0 <= u32::MAX {
        Some(spec_parse_digits(group_text(found[0], 1))->0 as u32)
    } else {
        None
    }
}

/// The id of the topic that an address names: the number behind the first
/// place where the address of a topic stands in it, where that number fits
/// 32 bits. `None` where the pattern cannot be used either.
pub open spec fn spec_topic_id(url: Seq<char>) -> Option<u32> {
    match regex_captures(topic_pattern(), url) {
        Some(found) => spec_topic_id_of_matches(found),
        None => None,
    }
}

/// Reads the id of a topic from what the topic pattern has found: `found`
/// holds the groups of each match, the number in group 1.
pub fn topic_id_of_matches(found: &Vec<Vec<Option<String>>>) -> (id: Option<u32>)
    ensures
        id == spec_topic_id_of_matches(found.deep_view()),
{
    if found.len() == 0 {
        return None;
    }
    assert(found.deep_view()[0] == found@[0].deep_view());
    let mut digits = String::new();
    push_group(&mut digits, &found[0], 1);
    assert(digits@ =~= group_text(found.deep_view()[0], 1));
    match parse_digits(digits.as_str()) {
        Some(n) => if n <= u32::MAX as u64 {
            Some(n as u32)
        } else {
            None
        },
        None => None,
    }
}

/// Reads the id of a topic from its address.
pub fn topic_id_of_url(url: &str) -> (id: Option<u32>)
    ensures
        id == spec_topic_id(url@),
{
    match captures("https://shuiyuan.sjtu.edu.cn/t/topic/(\\d+)", url) {
        Some(found) => topic_id_of_matches(&found),
        None => None,
    }
}

} // verus!
