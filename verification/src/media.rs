//! Media persistence decisions: which link a post's media is fetched
//! from, and the sanitized on-disk name it is written under. The
//! actual download and write live in the unverified layer; their
//! outcome never affects the watermark (see
//! [`crate::run::FeedRun::record_media`]).

use vstd::prelude::*;
use crate::post::Post;
use crate::source::FeedSource;
use crate::text::chars_of;
use crate::text::last_index_exec;
use crate::text::last_index_of;
use crate::text::lemma_last_index_bounds;
use crate::text::string_of;

verus! {

/// The characters a filename may not carry (double quotes are handled
/// apart: they become apostrophes).
pub open spec fn is_illegal_filename_char(c: char) -> bool {
    c == '<' || c == '>' || c == ':' || c == '/' || c == '\\' || c == '|' || c == '?' || c == '*'
}

/// One character of a sanitized filename: a double quote becomes an
/// apostrophe, any other filesystem-illegal character an underscore,
/// and everything else stays.
pub open spec fn sanitize_char(c: char) -> char {
    if c == '"' {
        '\''
    } else if is_illegal_filename_char(c) {
        '_'
    } else {
        c
    }
}

/// `s` sanitized character by character.
pub open spec fn spec_sanitize(s: Seq<char>) -> Seq<char> {
    s.map_values(|c: char| sanitize_char(c))
}

fn sanitize_char_exec(c: char) -> (r: char)
    ensures
        r == sanitize_char(c),
{
    if c == '"' {
        '\''
    } else if c == '<' || c == '>' || c == ':' || c == '/' || c == '\\' || c == '|' || c == '?'
        || c == '*' {
        '_'
    } else {
        c
    }
}

/// Substitutes every filesystem-illegal character of `filename`:
/// double quotes become apostrophes, the others underscores.
pub fn sanitize_filename(filename: &str) -> (r: String)
    ensures
        r@ == spec_sanitize(filename@),
{
    let v = chars_of(filename);
    let mut out: Vec<char> = Vec::new();
    let mut i: usize = 0;
    while i < v.len()
        invariant
            i <= v@.len(),
            v@ == filename@,
            out@ == spec_sanitize(filename@.take(i as int)),
        decreases v@.len() - i,
    {
        out.push(sanitize_char_exec(v[i]));
        proof {
            assert(out@ =~= spec_sanitize(filename@.take(i + 1)));
        }
        i = i + 1;
    }
    proof {
        assert(filename@.take(filename@.len() as int) =~= filename@);
    }
    string_of(&out)
}

/// The segment of `url` after its last slash (all of it when it has
/// none): what stands for the source file's name.
pub open spec fn spec_file_name(url: Seq<char>) -> Seq<char> {
    url.subrange(last_index_of(url, '/') + 1, url.len() as int)
}

/// The file stem and extension of the name `url` ends in, split at the
/// name's last dot. `None` when the name has no dot past its first
/// character: no extension can be derived then.
pub open spec fn spec_stem_ext(url: Seq<char>) -> Option<(Seq<char>, Seq<char>)> {
    let name = spec_file_name(url);
    let d = last_index_of(name, '.');
    if d > 0 {
        Some((name.subrange(0, d), name.subrange(d + 1, name.len() as int)))
    } else {
        None
    }
}

/// Splits the file name at the end of `url` into stem and extension.
pub fn split_stem_ext(url: &str) -> (r: Option<(String, String)>)
    ensures
        r is Some <==> spec_stem_ext(url@) is Some,
        r matches Some((stem, ext)) ==> spec_stem_ext(url@) matches Some((s, e)) && stem@ == s
            && ext@ == e,
{
    let v = chars_of(url);
    proof {
        lemma_last_index_bounds(v@, '/');
    }
    let n = v.len();
    let start = match last_index_exec(&v, '/') {
        Some(j) => {
            assert(j < n);
            j + 1
        },
        None => 0,
    };
    let mut name: Vec<char> = Vec::new();
    let mut i = start;
    while i < v.len()
        invariant
            start <= i <= v@.len(),
            name@ == v@.subrange(start as int, i as int),
        decreases v@.len() - i,
    {
        name.push(v[i]);
        proof {
            assert(name@ =~= v@.subrange(start as int, i + 1));
        }
        i = i + 1;
    }
    proof {
        assert(name@ == spec_file_name(url@));
        lemma_last_index_bounds(name@, '.');
    }
    match last_index_exec(&name, '.') {
        Some(d) if d > 0 => {
            let mut stem: Vec<char> = Vec::new();
            let mut k: usize = 0;
            while k < d
                invariant
                    k <= d < name@.len(),
                    stem@ == name@.subrange(0, k as int),
                decreases d - k,
            {
                stem.push(name[k]);
                proof {
                    assert(stem@ =~= name@.subrange(0, k + 1));
                }
                k = k + 1;
            }
            let mut ext: Vec<char> = Vec::new();
            let mut k2: usize = d + 1;
            while k2 < name.len()
                invariant
                    d + 1 <= k2 <= name@.len(),
                    ext@ == name@.subrange(d + 1, k2 as int),
                decreases name@.len() - k2,
            {
                ext.push(name[k2]);
                proof {
                    assert(ext@ =~= name@.subrange(d + 1, k2 + 1));
                }
                k2 = k2 + 1;
            }
            Some((string_of(&stem), string_of(&ext)))
        },
        _ => None,
    }
}

/// The on-disk name for a post's media: the post title, the source
/// file's stem in brackets, and its extension, sanitized. `None` when
/// no extension can be derived from `url`.
pub open spec fn spec_media_filename(title: Seq<char>, url: Seq<char>) -> Option<Seq<char>> {
    match spec_stem_ext(url) {
        Some((stem, ext)) => Some(spec_sanitize(title + " - ["@ + stem + "]."@ + ext)),
        None => None,
    }
}

/// Derives the sanitized on-disk name for media fetched from `url`,
/// attached to a post titled `title`.
pub fn media_filename(title: &str, url: &str) -> (r: Option<String>)
    ensures
        r is Some <==> spec_media_filename(title@, url@) is Some,
        r matches Some(f) ==> spec_media_filename(title@, url@) matches Some(g) && f@ == g,
{
    match split_stem_ext(url) {
        Some((stem, ext)) => {
            let mut raw = String::from_str("");
            raw.append(title);
            raw.append(" - [");
            raw.append(stem.as_str());
            raw.append("].");
            raw.append(ext.as_str());
            proof {
                reveal_strlit("");
                assert(raw@ =~= title@ + " - ["@ + stem@ + "]."@ + ext@);
            }
            Some(sanitize_filename(raw.as_str()))
        },
        None => None,
    }
}

/// Which media link a post's save step uses: the direct image link
/// over the thumbnail, whichever is present.
pub open spec fn spec_media_source(post: Post) -> Option<String> {
    match (post.image_url, post.thumbnail_url) {
        (Some(image), _) => Some(image),
        (None, Some(thumb)) => Some(thumb),
        _ => None,
    }
}

/// The decision for the best-effort media side step of one post.
pub enum MediaPlan {
    /// No save directory is configured: nothing is written.
    NotConfigured,
    /// The post carries no media link: nothing to fetch.
    NoMediaUrl,
    /// A media link exists, but no usable file name could be derived
    /// from it; the step is reported failed and the cycle goes on.
    NoUsableName,
    /// Fetch `url` and write the result under `dir` as `filename`.
    Fetch { url: String, dir: String, filename: String },
}

/// Decides the media side step for one post: fetch exactly when a
/// save directory is configured, the post carries a media link, and a
/// file name can be derived from that link.
pub fn plan_media(feed: &FeedSource, post: &Post) -> (r: MediaPlan)
    ensures
        r is NotConfigured <==> feed.save_path is None,
        r is NoMediaUrl <==> (feed.save_path is Some && spec_media_source(*post) is None),
        r is NoUsableName <==> (feed.save_path is Some && (spec_media_source(*post) matches Some(u)
            && spec_media_filename(post.title@, u@) is None)),
        r is Fetch <==> (feed.save_path is Some && (spec_media_source(*post) matches Some(u)
            && spec_media_filename(post.title@, u@) is Some)),
        r matches MediaPlan::Fetch { url, dir, filename } ==> {
            &&& spec_media_source(*post) matches Some(u) && url@ == u@
            &&& feed.save_path matches Some(d) && dir@ == d@
            &&& spec_media_filename(post.title@, url@) matches Some(f) && filename@ == f
        },
{
    let dir = match &feed.save_path {
        Some(d) => d.clone(),
        None => {
            return MediaPlan::NotConfigured;
        },
    };
    let source = match (&post.image_url, &post.thumbnail_url) {
        (Some(image), _) => image.clone(),
        (None, Some(thumb)) => thumb.clone(),
        _ => {
            return MediaPlan::NoMediaUrl;
        },
    };
    match media_filename(post.title.as_str(), source.as_str()) {
        Some(filename) => MediaPlan::Fetch { url: source, dir, filename },
        None => MediaPlan::NoUsableName,
    }
}

} // verus!
