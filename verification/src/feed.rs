//! The feed parser: from the plain-value XML tree of a downloaded
//! document to normalized posts, across the two feed dialects (Atom
//! `entry` elements under `feed`; RSS/MRSS `item` elements under
//! `rss/channel`). Namespace URIs are read from the document's own
//! declarations, never assumed; missing optional fields become `None`;
//! a missing title or link becomes its documented placeholder.

use vstd::prelude::*;
use crate::dates::parse_rfc3339;
use crate::dates::parse_rfc822;
use crate::dates::spec_rfc3339_epoch;
use crate::dates::spec_rfc822_epoch;
use crate::post::Post;
use crate::text::chars_of;
use crate::text::last_index_of;
use crate::text::last_index_exec;
use crate::text::str_eq;
use crate::text::string_of;
use crate::xml::NsDecl;
use crate::xml::XmlAttr;
use crate::xml::XmlElement;
use crate::xml::parse_document;
use crate::xml::xml_root_of;

verus! {

/// Why a fetch cycle's document yielded no posts. Any of these aborts
/// the cycle for this feed only.
#[derive(Clone, Copy, Debug, PartialEq, Eq)]
pub enum ParseError {
    /// The body is not well-formed XML (or nests implausibly deep).
    NotXml,
    /// The root element is neither `rss` nor `feed`.
    UnsupportedRoot,
    /// An `rss` document with no `channel` element.
    MissingChannel,
}

/// The first element of `cs` whose local name is `name`.
pub open spec fn spec_find_first(cs: Seq<XmlElement>, name: Seq<char>) -> Option<XmlElement>
    decreases cs.len(),
{
    if cs.len() == 0 {
        None
    } else if cs[0].name@ == name {
        Some(cs[0])
    } else {
        spec_find_first(cs.drop_first(), name)
    }
}

proof fn lemma_find_first_at(cs: Seq<XmlElement>, name: Seq<char>, j: int)
    requires
        0 <= j < cs.len(),
        cs[j].name@ == name,
        forall|k: int| 0 <= k < j ==> #[trigger] cs[k].name@ != name,
    ensures
        spec_find_first(cs, name) == Some(cs[j]),
    decreases j,
{
    if j > 0 {
        assert forall|k: int| 0 <= k < j - 1 implies #[trigger] cs.drop_first()[k].name@
            != name by {
            assert(cs.drop_first()[k] == cs[k + 1]);
        }
        assert(cs.drop_first()[j - 1] == cs[j]);
        lemma_find_first_at(cs.drop_first(), name, j - 1);
    }
}

proof fn lemma_find_first_none(cs: Seq<XmlElement>, name: Seq<char>)
    requires
        forall|k: int| 0 <= k < cs.len() ==> #[trigger] cs[k].name@ != name,
    ensures
        spec_find_first(cs, name) is None,
    decreases cs.len(),
{
    if cs.len() > 0 {
        assert forall|k: int| 0 <= k < cs.drop_first().len()
            implies #[trigger] cs.drop_first()[k].name@ != name by {
            assert(cs.drop_first()[k] == cs[k + 1]);
        }
        lemma_find_first_none(cs.drop_first(), name);
    }
}

/// The first child of `e` whose local name is `name`.
fn find_child<'a>(e: &'a XmlElement, name: &str) -> (r: Option<&'a XmlElement>)
    ensures
        r is Some <==> spec_find_first(e.children@, name@) is Some,
        r matches Some(c) ==> spec_find_first(e.children@, name@) == Some(*c),
{
    let mut j: usize = 0;
    while j < e.children.len()
        invariant
            j <= e.children@.len(),
            forall|k: int| 0 <= k < j ==> #[trigger] e.children@[k].name@ != name@,
        decreases e.children@.len() - j,
    {
        if str_eq(e.children[j].name.as_str(), name) {
            proof {
                lemma_find_first_at(e.children@, name@, j as int);
            }
            return Some(&e.children[j]);
        }
        j = j + 1;
    }
    proof {
        lemma_find_first_none(e.children@, name@);
    }
    None
}

/// Whether the declaration binds `prefix` (`None`: the default
/// namespace).
pub open spec fn decl_matches(d: NsDecl, prefix: Option<Seq<char>>) -> bool {
    match (d.prefix, prefix) {
        (Some(p), Some(q)) => p@ == q,
        (None, None) => true,
        _ => false,
    }
}

/// The URI the innermost (last listed) declaration binds `prefix` to,
/// if any does.
pub open spec fn spec_ns_uri(decls: Seq<NsDecl>, prefix: Option<Seq<char>>) -> Option<Seq<char>>
    decreases decls.len(),
{
    if decls.len() == 0 {
        None
    } else if decl_matches(decls.last(), prefix) {
        Some(decls.last().uri@)
    } else {
        spec_ns_uri(decls.drop_last(), prefix)
    }
}

/// Looks up what `prefix` (`None`: the default namespace) is bound to
/// among the declarations in scope.
fn ns_uri_lookup(decls: &Vec<NsDecl>, prefix: Option<&str>) -> (r: Option<String>)
    ensures
        r.deep_view() == spec_ns_uri(
            decls@,
            match prefix {
                Some(p) => Some(p@),
                None => None,
            },
        ),
{
    let ghost want: Option<Seq<char>> = match prefix {
        Some(p) => Some(p@),
        None => None,
    };
    let mut j = decls.len();
    while j > 0
        invariant
            j <= decls@.len(),
            want == (match prefix {
                Some(p) => Some(p@),
                None => None,
            }),
            forall|k: int| j <= k < decls@.len() ==> !decl_matches(#[trigger] decls@[k], want),
        decreases j,
    {
        j = j - 1;
        let d = &decls[j];
        let hit = match (&d.prefix, prefix) {
            (Some(p), Some(q)) => str_eq(p.as_str(), q),
            (None, None) => true,
            _ => false,
        };
        assert(hit == decl_matches(decls@[j as int], want));
        if hit {
            proof {
                lemma_ns_uri_at(decls@, want, j as int);
            }
            return Some(d.uri.clone());
        }
    }
    proof {
        lemma_ns_uri_none(decls@, want);
    }
    None
}

proof fn lemma_ns_uri_at(decls: Seq<NsDecl>, prefix: Option<Seq<char>>, j: int)
    requires
        0 <= j < decls.len(),
        decl_matches(decls[j], prefix),
        forall|k: int| j < k < decls.len() ==> !decl_matches(#[trigger] decls[k], prefix),
    ensures
        spec_ns_uri(decls, prefix) == Some(decls[j].uri@),
    decreases decls.len(),
{
    if j == decls.len() - 1 {
    } else {
        assert(!decl_matches(decls.last(), prefix));
        assert(decls.drop_last()[j] == decls[j]);
        assert forall|k: int| j < k < decls.drop_last().len() implies !decl_matches(
            #[trigger] decls.drop_last()[k],
            prefix,
        ) by {
            assert(decls.drop_last()[k] == decls[k]);
        }
        lemma_ns_uri_at(decls.drop_last(), prefix, j);
    }
}

proof fn lemma_ns_uri_none(decls: Seq<NsDecl>, prefix: Option<Seq<char>>)
    requires
        forall|k: int| 0 <= k < decls.len() ==> !decl_matches(#[trigger] decls[k], prefix),
    ensures
        spec_ns_uri(decls, prefix) is None,
    decreases decls.len(),
{
    if decls.len() > 0 {
        assert forall|k: int| 0 <= k < decls.drop_last().len() implies !decl_matches(
            #[trigger] decls.drop_last()[k],
            prefix,
        ) by {
            assert(decls.drop_last()[k] == decls[k]);
        }
        lemma_ns_uri_none(decls.drop_last(), prefix);
    }
}

/// Whether the element's resolved namespace is `ns` (`None`: no
/// namespace).
pub open spec fn elem_ns_is(e: XmlElement, ns: Option<Seq<char>>) -> bool {
    match (e.ns, ns) {
        (Some(a), Some(b)) => a@ == b,
        (None, None) => true,
        _ => false,
    }
}

fn elem_ns_is_exec(e: &XmlElement, ns: &Option<String>) -> (r: bool)
    ensures
        r == elem_ns_is(*e, ns.deep_view()),
{
    match (&e.ns, ns) {
        (Some(a), Some(b)) => str_eq(a.as_str(), b.as_str()),
        (None, None) => true,
        _ => false,
    }
}

/// The value of the first attribute named `name` (local name), if
/// any.
pub open spec fn spec_attr(attrs: Seq<XmlAttr>, name: Seq<char>) -> Option<Seq<char>>
    decreases attrs.len(),
{
    if attrs.len() == 0 {
        None
    } else if attrs[0].name@ == name {
        Some(attrs[0].value@)
    } else {
        spec_attr(attrs.drop_first(), name)
    }
}

proof fn lemma_attr_at(attrs: Seq<XmlAttr>, name: Seq<char>, j: int)
    requires
        0 <= j < attrs.len(),
        attrs[j].name@ == name,
        forall|k: int| 0 <= k < j ==> #[trigger] attrs[k].name@ != name,
    ensures
        spec_attr(attrs, name) == Some(attrs[j].value@),
    decreases j,
{
    if j > 0 {
        assert forall|k: int| 0 <= k < j - 1 implies #[trigger] attrs.drop_first()[k].name@
            != name by {
            assert(attrs.drop_first()[k] == attrs[k + 1]);
        }
        assert(attrs.drop_first()[j - 1] == attrs[j]);
        lemma_attr_at(attrs.drop_first(), name, j - 1);
    }
}

proof fn lemma_attr_none(attrs: Seq<XmlAttr>, name: Seq<char>)
    requires
        forall|k: int| 0 <= k < attrs.len() ==> #[trigger] attrs[k].name@ != name,
    ensures
        spec_attr(attrs, name) is None,
    decreases attrs.len(),
{
    if attrs.len() > 0 {
        assert forall|k: int| 0 <= k < attrs.drop_first().len()
            implies #[trigger] attrs.drop_first()[k].name@ != name by {
            assert(attrs.drop_first()[k] == attrs[k + 1]);
        }
        lemma_attr_none(attrs.drop_first(), name);
    }
}

/// The value of the element's first attribute named `name`.
fn attr_value(e: &XmlElement, name: &str) -> (r: Option<String>)
    ensures
        r.deep_view() == spec_attr(e.attrs@, name@),
{
    let mut j: usize = 0;
    while j < e.attrs.len()
        invariant
            j <= e.attrs@.len(),
            forall|k: int| 0 <= k < j ==> #[trigger] e.attrs@[k].name@ != name@,
        decreases e.attrs@.len() - j,
    {
        if str_eq(e.attrs[j].name.as_str(), name) {
            proof {
                lemma_attr_at(e.attrs@, name@, j as int);
            }
            return Some(e.attrs[j].value.clone());
        }
        j = j + 1;
    }
    proof {
        lemma_attr_none(e.attrs@, name@);
    }
    None
}

/// An ASCII word character: a letter, a digit, or an underscore.
pub open spec fn is_word_char(c: char) -> bool {
    ||| ('a' as u32) <= (c as u32) <= ('z' as u32)
    ||| ('A' as u32) <= (c as u32) <= ('Z' as u32)
    ||| ('0' as u32) <= (c as u32) <= ('9' as u32)
    ||| c == '_'
}

/// The display name heuristically derived from a creator URL: its
/// trailing path segment, when the URL has a slash followed only by
/// word characters, at least one.
pub open spec fn spec_trailing_segment(s: Seq<char>) -> Option<Seq<char>> {
    let k = last_index_of(s, '/');
    if 0 <= k < s.len() - 1 && (forall|j: int| k < j < s.len() ==> is_word_char(#[trigger] s[j])) {
        Some(s.subrange(k + 1, s.len() as int))
    } else {
        None
    }
}

fn is_word_char_exec(c: char) -> (r: bool)
    ensures
        r == is_word_char(c),
{
    let u = c as u32;
    (97 <= u && u <= 122) || (65 <= u && u <= 90) || (48 <= u && u <= 57) || c == '_'
}

/// The trailing path segment of `s`, as the exec counterpart of
/// [`spec_trailing_segment`].
fn trailing_segment(s: &str) -> (r: Option<String>)
    ensures
        r.deep_view() == spec_trailing_segment(s@),
{
    let v = chars_of(s);
    let n = v.len();
    let k = match last_index_exec(&v, '/') {
        Some(k) => k,
        None => {
            return None;
        },
    };
    proof {
        crate::text::lemma_last_index_bounds(v@, '/');
    }
    if k + 1 >= n {
        return None;
    }
    let mut out: Vec<char> = Vec::new();
    let mut j = k + 1;
    while j < n
        invariant
            k + 1 <= j <= n,
            n == v@.len(),
            v@ == s@,
            last_index_of(s@, '/') == k,
            forall|i: int| k < i < j ==> is_word_char(#[trigger] v@[i]),
            out@ == v@.subrange(k + 1, j as int),
        decreases n - j,
    {
        if !is_word_char_exec(v[j]) {
            return None;
        }
        out.push(v[j]);
        proof {
            assert(out@ =~= v@.subrange(k + 1, j + 1));
        }
        j = j + 1;
    }
    Some(string_of(&out))
}

/// `p` occurs in `s` starting at `i`.
pub open spec fn starts_with_at(s: Seq<char>, p: Seq<char>, i: int) -> bool {
    0 <= i && i + p.len() <= s.len() && s.subrange(i, i + p.len() as int) == p
}

/// The length of the known-media-host URL prefix occurring at `i`, if
/// one does.
pub open spec fn host_prefix_len_at(s: Seq<char>, i: int) -> Option<int> {
    if starts_with_at(s, "https://i.redd.it/"@, i) {
        Some("https://i.redd.it/"@.len() as int)
    } else if starts_with_at(s, "https://i.imgur.com/"@, i) {
        Some("https://i.imgur.com/"@.len() as int)
    } else {
        None
    }
}

/// When a dot at `d` is followed by a known image extension: the index
/// just past that extension.
pub open spec fn ext_end_at(s: Seq<char>, d: int) -> Option<int> {
    if 0 <= d < s.len() && s[d] == '.' {
        if starts_with_at(s, "jpg"@, d + 1) {
            Some(d + 1 + "jpg"@.len())
        } else if starts_with_at(s, "jpeg"@, d + 1) {
            Some(d + 1 + "jpeg"@.len())
        } else if starts_with_at(s, "png"@, d + 1) {
            Some(d + 1 + "png"@.len())
        } else if starts_with_at(s, "webp"@, d + 1) {
            Some(d + 1 + "webp"@.len())
        } else if starts_with_at(s, "gif"@, d + 1) {
            Some(d + 1 + "gif"@.len())
        } else {
            None
        }
    } else {
        None
    }
}

/// The first newline at or after `i` (the length of `s` when none
/// follows): an image link never crosses a line.
pub open spec fn line_end(s: Seq<char>, i: int) -> int
    decreases s.len() - i,
{
    if i < 0 || i >= s.len() || s[i] == '\n' {
        i
    } else {
        line_end(s, i + 1)
    }
}

/// The last dot of `[lo, hi)` that a known image extension follows.
pub open spec fn last_ext_dot(s: Seq<char>, lo: int, hi: int) -> Option<int>
    decreases hi - lo,
{
    if hi <= lo {
        None
    } else if ext_end_at(s, hi - 1) is Some {
        Some(hi - 1)
    } else {
        last_ext_dot(s, lo, hi - 1)
    }
}

/// The image link matched at `i`, if one starts there: a known media
/// host's URL prefix, at least one further character, and a known
/// image extension, all within the line — extended to the last such
/// extension of the line.
pub open spec fn match_at(s: Seq<char>, i: int) -> Option<Seq<char>> {
    match host_prefix_len_at(s, i) {
        Some(plen) => match last_ext_dot(s, i + plen + 1, line_end(s, i)) {
            Some(d) => Some(s.subrange(i, ext_end_at(s, d).unwrap())),
            None => None,
        },
        None => None,
    }
}

pub open spec fn spec_image_link_from(s: Seq<char>, i: int) -> Option<Seq<char>>
    decreases s.len() - i,
{
    if i < 0 || i >= s.len() {
        None
    } else if match_at(s, i) is Some {
        match_at(s, i)
    } else {
        spec_image_link_from(s, i + 1)
    }
}

/// The best-effort image link of a free-text content body: the match
/// of [`match_at`] at the leftmost position where one exists.
pub open spec fn spec_image_link(s: Seq<char>) -> Option<Seq<char>> {
    spec_image_link_from(s, 0)
}

/// The timestamp an RSS item's children determine: the last `pubDate`
/// with text, parsed; 0 when none is present or it will not parse.
pub open spec fn rss_timestamp_of(cs: Seq<XmlElement>) -> int
    decreases cs.len(),
{
    if cs.len() == 0 {
        0
    } else if cs.last().name@ == "pubDate"@ && cs.last().text is Some {
        match spec_rfc822_epoch(cs.last().text.unwrap()@) {
            Some(t) => t,
            None => 0,
        }
    } else {
        rss_timestamp_of(cs.drop_last())
    }
}

/// The title: the last `title` child with text, or the placeholder.
pub open spec fn rss_title_of(cs: Seq<XmlElement>) -> Seq<char>
    decreases cs.len(),
{
    if cs.len() == 0 {
        "[Kein Titel]"@
    } else if cs.last().name@ == "title"@ && cs.last().text is Some {
        cs.last().text.unwrap()@
    } else {
        rss_title_of(cs.drop_last())
    }
}

/// The link: the last `link` child with text, or empty.
pub open spec fn rss_link_of(cs: Seq<XmlElement>) -> Seq<char>
    decreases cs.len(),
{
    if cs.len() == 0 {
        Seq::<char>::empty()
    } else if cs.last().name@ == "link"@ && cs.last().text is Some {
        cs.last().text.unwrap()@
    } else {
        rss_link_of(cs.drop_last())
    }
}

/// The creator URL: the last `creator` child in the `dc` namespace
/// (when that namespace is declared) with text.
pub open spec fn rss_creator_of(cs: Seq<XmlElement>, dc: Option<Seq<char>>) -> Option<Seq<char>>
    decreases cs.len(),
{
    if cs.len() == 0 {
        None
    } else if dc is Some && cs.last().name@ == "creator"@ && elem_ns_is(cs.last(), dc)
        && cs.last().text is Some {
        Some(cs.last().text.unwrap()@)
    } else {
        rss_creator_of(cs.drop_last(), dc)
    }
}

/// A media link: the `url` attribute of the last `tag` child in the
/// `media` namespace (when that namespace is declared) carrying one.
pub open spec fn media_url_of(
    cs: Seq<XmlElement>,
    media: Option<Seq<char>>,
    tag: Seq<char>,
) -> Option<Seq<char>>
    decreases cs.len(),
{
    if cs.len() == 0 {
        None
    } else if media is Some && cs.last().name@ == tag && elem_ns_is(cs.last(), media) && spec_attr(
        cs.last().attrs@,
        "url"@,
    ) is Some {
        spec_attr(cs.last().attrs@, "url"@)
    } else {
        media_url_of(cs.drop_last(), media, tag)
    }
}

/// What one RSS/MRSS item yields: each field of the post is what the
/// item's children determine under the `dc` and `media` namespaces in
/// scope, the author display name derived from the creator URL's
/// trailing segment.
pub open spec fn rss_post_matches(
    p: Post,
    item: XmlElement,
    dc: Option<Seq<char>>,
    media: Option<Seq<char>>,
) -> bool {
    &&& p.timestamp == rss_timestamp_of(item.children@)
    &&& p.title@ == rss_title_of(item.children@)
    &&& p.url@ == rss_link_of(item.children@)
    &&& p.author_url.deep_view() == rss_creator_of(item.children@, dc)
    &&& p.author.deep_view() == (match rss_creator_of(item.children@, dc) {
        Some(u) => spec_trailing_segment(u),
        None => None::<Seq<char>>,
    })
    &&& p.image_url.deep_view() == media_url_of(item.children@, media, "content"@)
    &&& p.thumbnail_url.deep_view() == media_url_of(item.children@, media, "thumbnail"@)
}

/// The text of the first `name` child of `e`.
pub open spec fn child_text(e: XmlElement, name: Seq<char>) -> Option<Seq<char>> {
    match spec_find_first(e.children@, name) {
        Some(c) => match c.text {
            Some(t) => Some(t@),
            None => None,
        },
        None => None,
    }
}

/// The timestamp an Atom entry's children determine: the last
/// `published` in the entry's namespace with text, parsed; 0 when none
/// is present or it will not parse.
pub open spec fn atom_timestamp_of(cs: Seq<XmlElement>, def: Option<Seq<char>>) -> int
    decreases cs.len(),
{
    if cs.len() == 0 {
        0
    } else if elem_ns_is(cs.last(), def) && cs.last().name@ == "published"@ && cs.last().text
        is Some {
        match spec_rfc3339_epoch(cs.last().text.unwrap()@) {
            Some(t) => t,
            None => 0,
        }
    } else {
        atom_timestamp_of(cs.drop_last(), def)
    }
}

/// The title: the last `title` child in the entry's namespace with
/// text, or the placeholder.
pub open spec fn atom_title_of(cs: Seq<XmlElement>, def: Option<Seq<char>>) -> Seq<char>
    decreases cs.len(),
{
    if cs.len() == 0 {
        "[Kein Titel]"@
    } else if elem_ns_is(cs.last(), def) && cs.last().name@ == "title"@ && cs.last().text is Some {
        cs.last().text.unwrap()@
    } else {
        atom_title_of(cs.drop_last(), def)
    }
}

/// Whether an element is a `link` carrying an `href` attribute.
pub open spec fn is_link_with_href(e: XmlElement) -> bool {
    e.name@ == "link"@ && spec_attr(e.attrs@, "href"@) is Some
}

/// The `href` of the first `link` child carrying one, if any does.
pub open spec fn first_link_href(cs: Seq<XmlElement>) -> Option<Seq<char>>
    decreases cs.len(),
{
    if cs.len() == 0 {
        None
    } else if is_link_with_href(cs[0]) {
        spec_attr(cs[0].attrs@, "href"@)
    } else {
        first_link_href(cs.drop_first())
    }
}

/// The link: the first `link` child's target attribute, or empty when
/// no `link` child carries one.
pub open spec fn atom_link_of(cs: Seq<XmlElement>) -> Seq<char> {
    match first_link_href(cs) {
        Some(h) => h,
        None => Seq::<char>::empty(),
    }
}

proof fn lemma_first_link_push(s: Seq<XmlElement>, x: XmlElement)
    ensures
        first_link_href(s.push(x)) == (if first_link_href(s) is Some {
            first_link_href(s)
        } else if is_link_with_href(x) {
            spec_attr(x.attrs@, "href"@)
        } else {
            None::<Seq<char>>
        }),
    decreases s.len(),
{
    if s.len() == 0 {
        assert(s.push(x).len() == 1);
        assert(s.push(x)[0] == x);
        assert(first_link_href(s) is None);
        if !is_link_with_href(x) {
            assert(s.push(x).drop_first() =~= s);
            assert(first_link_href(s.push(x)) == first_link_href(s));
        }
    } else {
        assert(s.push(x)[0] == s[0]);
        assert(s.push(x).drop_first() =~= s.drop_first().push(x));
        lemma_first_link_push(s.drop_first(), x);
        if is_link_with_href(s[0]) {
            assert(first_link_href(s.push(x)) == spec_attr(s[0].attrs@, "href"@));
            assert(first_link_href(s) == spec_attr(s[0].attrs@, "href"@));
        } else {
            assert(first_link_href(s.push(x)) == first_link_href(s.drop_first().push(x)));
            assert(first_link_href(s) == first_link_href(s.drop_first()));
        }
    }
}

/// The author's display name: the text of the first `name` child of
/// the last `author` child in the entry's namespace.
pub open spec fn atom_author_name_of(cs: Seq<XmlElement>, def: Option<Seq<char>>) -> Option<
    Seq<char>,
>
    decreases cs.len(),
{
    if cs.len() == 0 {
        None
    } else if elem_ns_is(cs.last(), def) && cs.last().name@ == "author"@ {
        child_text(cs.last(), "name"@)
    } else {
        atom_author_name_of(cs.drop_last(), def)
    }
}

/// The author's profile link: the text of the first `uri` child of the
/// last `author` child in the entry's namespace.
pub open spec fn atom_author_url_of(cs: Seq<XmlElement>, def: Option<Seq<char>>) -> Option<
    Seq<char>,
>
    decreases cs.len(),
{
    if cs.len() == 0 {
        None
    } else if elem_ns_is(cs.last(), def) && cs.last().name@ == "author"@ {
        child_text(cs.last(), "uri"@)
    } else {
        atom_author_url_of(cs.drop_last(), def)
    }
}

/// The best-effort image link: of the last `content` child in the
/// entry's namespace whose text carries one, the scanned link.
pub open spec fn atom_image_of(cs: Seq<XmlElement>, def: Option<Seq<char>>) -> Option<Seq<char>>
    decreases cs.len(),
{
    if cs.len() == 0 {
        None
    } else if elem_ns_is(cs.last(), def) && cs.last().name@ == "content"@ && cs.last().text is Some
        && spec_image_link(cs.last().text.unwrap()@) is Some {
        spec_image_link(cs.last().text.unwrap()@)
    } else {
        atom_image_of(cs.drop_last(), def)
    }
}

/// What one Atom entry yields, under the entry's own namespace and the
/// `media` namespace in scope.
pub open spec fn atom_post_matches(
    p: Post,
    entry: XmlElement,
    def: Option<Seq<char>>,
    media: Option<Seq<char>>,
) -> bool {
    &&& p.timestamp == atom_timestamp_of(entry.children@, def)
    &&& p.title@ == atom_title_of(entry.children@, def)
    &&& p.url@ == atom_link_of(entry.children@)
    &&& p.author.deep_view() == atom_author_name_of(entry.children@, def)
    &&& p.author_url.deep_view() == atom_author_url_of(entry.children@, def)
    &&& p.image_url.deep_view() == atom_image_of(entry.children@, def)
    &&& p.thumbnail_url.deep_view() == media_url_of(entry.children@, media, "thumbnail"@)
}

fn seq_at(v: &Vec<char>, i: usize, p: &Vec<char>) -> (r: bool)
    requires
        i <= v@.len(),
    ensures
        r == starts_with_at(v@, p@, i as int),
{
    let n = v.len();
    let m = p.len();
    if n - i < m {
        return false;
    }
    let mut k: usize = 0;
    while k < m
        invariant
            k <= m,
            i + m <= n,
            n == v@.len(),
            m == p@.len(),
            forall|j: int| 0 <= j < k ==> v@[i + j] == p@[j],
        decreases m - k,
    {
        if v[i + k] != p[k] {
            proof {
                assert(v@.subrange(i as int, i + p@.len())[k as int] == v@[i + k]);
            }
            return false;
        }
        k = k + 1;
    }
    proof {
        assert(v@.subrange(i as int, i + p@.len()) =~= p@);
    }
    true
}

proof fn lemma_line_end_at(s: Seq<char>, i: int, j: int)
    requires
        0 <= i <= j <= s.len(),
        forall|k: int| i <= k < j ==> s[k] != '\n',
        j == s.len() || s[j] == '\n',
    ensures
        line_end(s, i) == j,
    decreases j - i,
{
    if i < j {
        lemma_line_end_at(s, i + 1, j);
    }
}

fn line_end_exec(v: &Vec<char>, i: usize) -> (r: usize)
    requires
        i <= v@.len(),
    ensures
        r == line_end(v@, i as int),
        i <= r <= v@.len(),
{
    let n = v.len();
    let mut j = i;
    while j < n && v[j] != '\n'
        invariant
            i <= j <= n,
            n == v@.len(),
            forall|k: int| i <= k < j ==> v@[k] != '\n',
        decreases n - j,
    {
        j = j + 1;
    }
    proof {
        lemma_line_end_at(v@, i as int, j as int);
    }
    j
}

/// The known image extensions, as character vectors for matching.
struct ExtPatterns {
    jpg: Vec<char>,
    jpeg: Vec<char>,
    png: Vec<char>,
    webp: Vec<char>,
    gif: Vec<char>,
}

impl ExtPatterns {
    spec fn wf(self) -> bool {
        &&& self.jpg@ == "jpg"@
        &&& self.jpeg@ == "jpeg"@
        &&& self.png@ == "png"@
        &&& self.webp@ == "webp"@
        &&& self.gif@ == "gif"@
    }

    fn new() -> (r: ExtPatterns)
        ensures
            r.wf(),
    {
        ExtPatterns {
            jpg: chars_of("jpg"),
            jpeg: chars_of("jpeg"),
            png: chars_of("png"),
            webp: chars_of("webp"),
            gif: chars_of("gif"),
        }
    }
}

fn ext_end_exec(v: &Vec<char>, d: usize, pats: &ExtPatterns) -> (r: Option<usize>)
    requires
        d < v@.len(),
        pats.wf(),
    ensures
        r matches Some(e) ==> ext_end_at(v@, d as int) == Some(e as int) && e <= v@.len(),
        r is None ==> ext_end_at(v@, d as int) is None,
{
    let n = v.len();
    assert(d < n);
    if v[d] != '.' {
        return None;
    }
    if seq_at(v, d + 1, &pats.jpg) {
        return Some(d + 1 + pats.jpg.len());
    }
    if seq_at(v, d + 1, &pats.jpeg) {
        return Some(d + 1 + pats.jpeg.len());
    }
    if seq_at(v, d + 1, &pats.png) {
        return Some(d + 1 + pats.png.len());
    }
    if seq_at(v, d + 1, &pats.webp) {
        return Some(d + 1 + pats.webp.len());
    }
    if seq_at(v, d + 1, &pats.gif) {
        return Some(d + 1 + pats.gif.len());
    }
    None
}

proof fn lemma_last_ext_dot_some(s: Seq<char>, lo: int, hi: int)
    requires
        last_ext_dot(s, lo, hi) is Some,
    ensures
        lo <= last_ext_dot(s, lo, hi).unwrap() < hi,
        ext_end_at(s, last_ext_dot(s, lo, hi).unwrap()) is Some,
    decreases hi - lo,
{
    if hi <= lo {
    } else if ext_end_at(s, hi - 1) is Some {
    } else {
        lemma_last_ext_dot_some(s, lo, hi - 1);
    }
}

fn last_ext_dot_exec(v: &Vec<char>, lo: usize, hi: usize, pats: &ExtPatterns) -> (r: Option<
    usize,
>)
    requires
        lo <= hi <= v@.len(),
        pats.wf(),
    ensures
        r matches Some(d) ==> last_ext_dot(v@, lo as int, hi as int) == Some(d as int) && lo <= d
            < hi,
        r is None ==> last_ext_dot(v@, lo as int, hi as int) is None,
{
    let mut h = hi;
    while h > lo
        invariant
            lo <= h <= hi <= v@.len(),
            pats.wf(),
            last_ext_dot(v@, lo as int, hi as int) == last_ext_dot(v@, lo as int, h as int),
        decreases h,
    {
        h = h - 1;
        match ext_end_exec(v, h, pats) {
            Some(_) => {
                return Some(h);
            },
            None => {
            },
        }
    }
    None
}

/// Scans a free-text content body for a direct image link from a
/// known media host, as [`spec_image_link`] describes.
pub fn find_image_link(s: &str) -> (r: Option<String>)
    ensures
        r is Some <==> spec_image_link(s@) is Some,
        r matches Some(u) ==> spec_image_link(s@) matches Some(w) && u@ == w,
{
    let v = chars_of(s);
    let host1 = chars_of("https://i.redd.it/");
    let host2 = chars_of("https://i.imgur.com/");
    let pats = ExtPatterns::new();
    let n = v.len();
    let mut i: usize = 0;
    while i < n
        invariant
            i <= n,
            n == v@.len(),
            v@ == s@,
            host1@ == "https://i.redd.it/"@,
            host2@ == "https://i.imgur.com/"@,
            pats.wf(),
            spec_image_link(s@) == spec_image_link_from(s@, i as int),
        decreases n - i,
    {
        let plen_opt: Option<usize> = if seq_at(&v, i, &host1) {
            Some(host1.len())
        } else if seq_at(&v, i, &host2) {
            Some(host2.len())
        } else {
            None
        };
        proof {
            match plen_opt {
                Some(pl) => {
                    assert(host_prefix_len_at(v@, i as int) == Some(pl as int));
                },
                None => {
                    assert(host_prefix_len_at(v@, i as int) is None);
                },
            }
        }
        if let Some(plen) = plen_opt {
            let le = line_end_exec(&v, i);
            if le > i + plen {
                match last_ext_dot_exec(&v, i + plen + 1, le, &pats) {
                    Some(d) => {
                        proof {
                            lemma_last_ext_dot_some(v@, i + plen + 1 as int, le as int);
                        }
                        let e = match ext_end_exec(&v, d, &pats) {
                            Some(e) => e,
                            None => {
                                proof {
                                    assert(false);
                                }
                                0
                            },
                        };
                        assert(i < e <= n);
                        let mut out: Vec<char> = Vec::new();
                        let mut k = i;
                        while k < e
                            invariant
                                i <= k <= e <= n,
                                n == v@.len(),
                                out@ == v@.subrange(i as int, k as int),
                            decreases e - k,
                        {
                            out.push(v[k]);
                            proof {
                                assert(out@ =~= v@.subrange(i as int, k + 1));
                            }
                            k = k + 1;
                        }
                        proof {
                            assert(match_at(s@, i as int) == Some(
                                s@.subrange(i as int, e as int),
                            ));
                        }
                        return Some(string_of(&out));
                    },
                    None => {
                        proof {
                            assert(match_at(s@, i as int) is None);
                        }
                    },
                }
            } else {
                proof {
                    assert(last_ext_dot(s@, i + plen + 1 as int, le as int) is None);
                    assert(match_at(s@, i as int) is None);
                }
            }
        }
        i = i + 1;
    }
    None
}

/// Builds the post one RSS/MRSS item element yields.
fn rss_post_of_item(item: &XmlElement, dc: &Option<String>, media: &Option<String>) -> (p: Post)
    ensures
        rss_post_matches(p, *item, dc.deep_view(), media.deep_view()),
{
    let ghost gdc = dc.deep_view();
    let ghost gmedia = media.deep_view();
    let mut timestamp: i64 = 0;
    let mut title = String::from_str("[Kein Titel]");
    let mut url = String::new();
    let mut author_url: Option<String> = None;
    let mut image_url: Option<String> = None;
    let mut thumbnail_url: Option<String> = None;
    let mut i: usize = 0;
    while i < item.children.len()
        invariant
            i <= item.children@.len(),
            gdc == dc.deep_view(),
            gmedia == media.deep_view(),
            timestamp == rss_timestamp_of(item.children@.take(i as int)),
            title@ == rss_title_of(item.children@.take(i as int)),
            url@ == rss_link_of(item.children@.take(i as int)),
            author_url.deep_view() == rss_creator_of(item.children@.take(i as int), gdc),
            image_url.deep_view() == media_url_of(item.children@.take(i as int), gmedia, "content"@),
            thumbnail_url.deep_view() == media_url_of(
                item.children@.take(i as int),
                gmedia,
                "thumbnail"@,
            ),
        decreases item.children@.len() - i,
    {
        let c = &item.children[i];
        proof {
            assert(item.children@.take(i + 1).drop_last() =~= item.children@.take(i as int));
            assert(item.children@.take(i + 1).last() == item.children@[i as int]);
        }
        if dc.is_some() && str_eq(c.name.as_str(), "creator") && elem_ns_is_exec(c, dc) {
            if let Some(t) = &c.text {
                author_url = Some(t.clone());
            }
        }
        if str_eq(c.name.as_str(), "link") {
            if let Some(t) = &c.text {
                url = t.clone();
            }
        }
        if str_eq(c.name.as_str(), "pubDate") {
            if let Some(t) = &c.text {
                timestamp = match parse_rfc822(t.as_str()) {
                    Some(x) => x,
                    None => 0,
                };
            }
        }
        if str_eq(c.name.as_str(), "title") {
            if let Some(t) = &c.text {
                title = t.clone();
            }
        }
        if media.is_some() && elem_ns_is_exec(c, media) {
            if str_eq(c.name.as_str(), "content") {
                if let Some(u) = attr_value(c, "url") {
                    image_url = Some(u);
                }
            }
            if str_eq(c.name.as_str(), "thumbnail") {
                if let Some(u) = attr_value(c, "url") {
                    thumbnail_url = Some(u);
                }
            }
        }
        i = i + 1;
    }
    proof {
        assert(item.children@.take(item.children@.len() as int) =~= item.children@);
    }
    let author = match &author_url {
        Some(u) => trailing_segment(u.as_str()),
        None => None,
    };
    Post { timestamp, title, url, author, author_url, image_url, thumbnail_url }
}

/// Builds the post one Atom entry element yields.
fn atom_post_of_entry(entry: &XmlElement, def: &Option<String>, media: &Option<String>) -> (p:
    Post)
    ensures
        atom_post_matches(p, *entry, def.deep_view(), media.deep_view()),
{
    let ghost gdef = def.deep_view();
    let ghost gmedia = media.deep_view();
    let mut timestamp: i64 = 0;
    let mut title = String::from_str("[Kein Titel]");
    let mut url = String::new();
    let mut url_set: bool = false;
    let mut author: Option<String> = None;
    let mut author_url: Option<String> = None;
    let mut image_url: Option<String> = None;
    let mut thumbnail_url: Option<String> = None;
    let mut i: usize = 0;
    while i < entry.children.len()
        invariant
            i <= entry.children@.len(),
            gdef == def.deep_view(),
            gmedia == media.deep_view(),
            timestamp == atom_timestamp_of(entry.children@.take(i as int), gdef),
            title@ == atom_title_of(entry.children@.take(i as int), gdef),
            url_set == (first_link_href(entry.children@.take(i as int)) is Some),
            url_set ==> first_link_href(entry.children@.take(i as int)) == Some(url@),
            !url_set ==> url@ == Seq::<char>::empty(),
            author.deep_view() == atom_author_name_of(entry.children@.take(i as int), gdef),
            author_url.deep_view() == atom_author_url_of(entry.children@.take(i as int), gdef),
            image_url.deep_view() == atom_image_of(entry.children@.take(i as int), gdef),
            thumbnail_url.deep_view() == media_url_of(
                entry.children@.take(i as int),
                gmedia,
                "thumbnail"@,
            ),
        decreases entry.children@.len() - i,
    {
        let c = &entry.children[i];
        proof {
            assert(entry.children@.take(i + 1).drop_last() =~= entry.children@.take(i as int));
            assert(entry.children@.take(i + 1).last() == entry.children@[i as int]);
            assert(entry.children@.take(i + 1) =~= entry.children@.take(i as int).push(
                entry.children@[i as int],
            ));
            lemma_first_link_push(entry.children@.take(i as int), entry.children@[i as int]);
        }
        let in_def_ns = elem_ns_is_exec(c, def);
        if in_def_ns && str_eq(c.name.as_str(), "author") {
            author = match find_child(c, "name") {
                Some(e) => match &e.text {
                    Some(t) => Some(t.clone()),
                    None => None,
                },
                None => None,
            };
            author_url = match find_child(c, "uri") {
                Some(e) => match &e.text {
                    Some(t) => Some(t.clone()),
                    None => None,
                },
                None => None,
            };
        }
        if !url_set && str_eq(c.name.as_str(), "link") {
            if let Some(h) = attr_value(c, "href") {
                url = h;
                url_set = true;
            }
        }
        if in_def_ns && str_eq(c.name.as_str(), "published") {
            if let Some(t) = &c.text {
                timestamp = match parse_rfc3339(t.as_str()) {
                    Some(x) => x,
                    None => 0,
                };
            }
        }
        if in_def_ns && str_eq(c.name.as_str(), "title") {
            if let Some(t) = &c.text {
                title = t.clone();
            }
        }
        if in_def_ns && str_eq(c.name.as_str(), "content") {
            if let Some(t) = &c.text {
                match find_image_link(t.as_str()) {
                    Some(u) => {
                        image_url = Some(u);
                    },
                    None => {},
                }
            }
        }
        if media.is_some() && elem_ns_is_exec(c, media) && str_eq(c.name.as_str(), "thumbnail") {
            if let Some(u) = attr_value(c, "url") {
                thumbnail_url = Some(u);
            }
        }
        i = i + 1;
    }
    proof {
        assert(entry.children@.take(entry.children@.len() as int) =~= entry.children@);
    }
    Post { timestamp, title, url, author, author_url, image_url, thumbnail_url }
}

/// The children of `cs` whose local name is `tag`, in order.
pub open spec fn items_of(cs: Seq<XmlElement>, tag: Seq<char>) -> Seq<XmlElement>
    decreases cs.len(),
{
    if cs.len() == 0 {
        Seq::<XmlElement>::empty()
    } else {
        let rest = items_of(cs.drop_last(), tag);
        if cs.last().name@ == tag {
            rest.push(cs.last())
        } else {
            rest
        }
    }
}

/// The posts of an RSS/MRSS channel: one per `item` child, in feed
/// order, each extracted under the channel's `dc` and `media`
/// namespace declarations.
pub open spec fn rss_posts_match(posts: Seq<Post>, channel: XmlElement) -> bool {
    let dc = spec_ns_uri(channel.ns_decls@, Some("dc"@));
    let media = spec_ns_uri(channel.ns_decls@, Some("media"@));
    let items = items_of(channel.children@, "item"@);
    &&& posts.len() == items.len()
    &&& forall|k: int|
        0 <= k < items.len() ==> rss_post_matches(#[trigger] posts[k], items[k], dc, media)
}

/// The posts of an Atom feed: one per `entry` child, in feed order,
/// each extracted under the feed's default and `media` namespace
/// declarations.
pub open spec fn atom_posts_match(posts: Seq<Post>, feed_el: XmlElement) -> bool {
    let def = spec_ns_uri(feed_el.ns_decls@, None);
    let media = spec_ns_uri(feed_el.ns_decls@, Some("media"@));
    let entries = items_of(feed_el.children@, "entry"@);
    &&& posts.len() == entries.len()
    &&& forall|k: int|
        0 <= k < entries.len() ==> atom_post_matches(#[trigger] posts[k], entries[k], def, media)
}

fn rss_posts(channel: &XmlElement) -> (r: Vec<Post>)
    ensures
        rss_posts_match(r@, *channel),
{
    let dc = ns_uri_lookup(&channel.ns_decls, Some("dc"));
    let media = ns_uri_lookup(&channel.ns_decls, Some("media"));
    let ghost gdc = dc.deep_view();
    let ghost gmedia = media.deep_view();
    let mut posts: Vec<Post> = Vec::new();
    let mut i: usize = 0;
    while i < channel.children.len()
        invariant
            i <= channel.children@.len(),
            gdc == dc.deep_view(),
            gdc == spec_ns_uri(channel.ns_decls@, Some("dc"@)),
            gmedia == media.deep_view(),
            gmedia == spec_ns_uri(channel.ns_decls@, Some("media"@)),
            posts@.len() == items_of(channel.children@.take(i as int), "item"@).len(),
            forall|k: int|
                0 <= k < posts@.len() ==> rss_post_matches(
                    #[trigger] posts@[k],
                    items_of(channel.children@.take(i as int), "item"@)[k],
                    gdc,
                    gmedia,
                ),
        decreases channel.children@.len() - i,
    {
        proof {
            assert(channel.children@.take(i + 1).drop_last() =~= channel.children@.take(i as int));
            assert(channel.children@.take(i + 1).last() == channel.children@[i as int]);
        }
        if str_eq(channel.children[i].name.as_str(), "item") {
            posts.push(rss_post_of_item(&channel.children[i], &dc, &media));
        }
        i = i + 1;
    }
    proof {
        assert(channel.children@.take(channel.children@.len() as int) =~= channel.children@);
    }
    posts
}

fn atom_posts(feed_el: &XmlElement) -> (r: Vec<Post>)
    ensures
        atom_posts_match(r@, *feed_el),
{
    let def = ns_uri_lookup(&feed_el.ns_decls, None);
    let media = ns_uri_lookup(&feed_el.ns_decls, Some("media"));
    let ghost gdef = def.deep_view();
    let ghost gmedia = media.deep_view();
    let mut posts: Vec<Post> = Vec::new();
    let mut i: usize = 0;
    while i < feed_el.children.len()
        invariant
            i <= feed_el.children@.len(),
            gdef == def.deep_view(),
            gdef == spec_ns_uri(feed_el.ns_decls@, None),
            gmedia == media.deep_view(),
            gmedia == spec_ns_uri(feed_el.ns_decls@, Some("media"@)),
            posts@.len() == items_of(feed_el.children@.take(i as int), "entry"@).len(),
            forall|k: int|
                0 <= k < posts@.len() ==> atom_post_matches(
                    #[trigger] posts@[k],
                    items_of(feed_el.children@.take(i as int), "entry"@)[k],
                    gdef,
                    gmedia,
                ),
        decreases feed_el.children@.len() - i,
    {
        proof {
            assert(feed_el.children@.take(i + 1).drop_last() =~= feed_el.children@.take(i as int));
            assert(feed_el.children@.take(i + 1).last() == feed_el.children@[i as int]);
        }
        if str_eq(feed_el.children[i].name.as_str(), "entry") {
            posts.push(atom_post_of_entry(&feed_el.children[i], &def, &media));
        }
        i = i + 1;
    }
    proof {
        assert(feed_el.children@.take(feed_el.children@.len() as int) =~= feed_el.children@);
    }
    posts
}

/// What extraction promises of a parsed document: an Atom root yields
/// its entries' posts, an RSS root its channel's items' posts.
pub open spec fn extraction_matches(root: XmlElement, posts: Seq<Post>) -> bool {
    ||| (root.name@ == "feed"@ && atom_posts_match(posts, root))
    ||| (root.name@ == "rss"@ && (spec_find_first(root.children@, "channel"@) matches Some(ch)
        && rss_posts_match(posts, ch)))
}

/// Extracts the normalized posts of a parsed feed document, detecting
/// the dialect from the root element. Fails exactly on a root that is
/// neither `rss` nor `feed`, or an `rss` root without a `channel`.
pub fn extract_posts(root: &XmlElement) -> (r: Result<Vec<Post>, ParseError>)
    ensures
        r is Ok <==> (root.name@ == "feed"@ || (root.name@ == "rss"@ && spec_find_first(
            root.children@,
            "channel"@,
        ) is Some)),
        r matches Ok(posts) ==> extraction_matches(*root, posts@),
        r matches Err(e) ==> match e {
            ParseError::UnsupportedRoot => root.name@ != "rss"@ && root.name@ != "feed"@,
            ParseError::MissingChannel => root.name@ == "rss"@ && spec_find_first(
                root.children@,
                "channel"@,
            ) is None,
            ParseError::NotXml => false,
        },
{
    assert("rss"@ != "feed"@) by {
        reveal_strlit("rss");
        reveal_strlit("feed");
        assert("rss"@.len() == 3);
        assert("feed"@.len() == 4);
    }
    if str_eq(root.name.as_str(), "rss") {
        match find_child(root, "channel") {
            Some(channel) => Ok(rss_posts(channel)),
            None => Err(ParseError::MissingChannel),
        }
    } else if str_eq(root.name.as_str(), "feed") {
        Ok(atom_posts(root))
    } else {
        Err(ParseError::UnsupportedRoot)
    }
}

/// Parses a downloaded feed body: well-formedness through the XML
/// layer, then dialect-aware extraction. It succeeds exactly when the
/// body parses ([`xml_root_of`]) to a recognized root, the posts are
/// pinned by [`extraction_matches`] on that root, and each error names
/// what failed. Any failure aborts this feed's cycle only.
pub fn parse_feed(body: &str) -> (r: Result<Vec<Post>, ParseError>)
    ensures
        r is Ok <==> (xml_root_of(body@) matches Some(root) && (root.name@ == "feed"@ || (
        root.name@ == "rss"@ && spec_find_first(root.children@, "channel"@) is Some))),
        r matches Ok(posts) ==> extraction_matches(xml_root_of(body@).unwrap(), posts@),
        r matches Err(e) ==> match e {
            ParseError::NotXml => xml_root_of(body@) is None,
            ParseError::UnsupportedRoot => xml_root_of(body@) matches Some(root) && root.name@
                != "rss"@ && root.name@ != "feed"@,
            ParseError::MissingChannel => xml_root_of(body@) matches Some(root) && root.name@
                == "rss"@ && spec_find_first(root.children@, "channel"@) is None,
        },
{
    match parse_document(body) {
        Some(root) => extract_posts(&root),
        None => Err(ParseError::NotXml),
    }
}

} // verus!
