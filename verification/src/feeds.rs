//! News sources: Hacker News front-page hits, RSS/Atom feeds (read by
//! `feed-rs`), the configured feed list, and the URL fingerprint that marks
//! an article as already seen.

use vstd::prelude::*;
use crate::news::{Article, relevance_of, relevance_spec, norm_url, strip_slashes};
use crate::text::{chars_of, string_of, trim, trim_chars, push_char};

verus! {

// ── Hacker News ─────────────────────────────────────────────────────────────

/// One front-page hit of the Algolia search API.
#[derive(Debug, Clone, PartialEq)]
pub struct Hit {
    pub title: Option<String>,
    pub url: Option<String>,
    pub points: Option<i64>,
    pub created_at: Option<String>,
}

/// The candidate a hit becomes: only hits with both a title and a URL.
pub open spec fn hit_article_ok(h: Hit, a: Article) -> bool {
    &&& h.title matches Some(t) && a.title@ == t@ && a.relevance == relevance_spec(t@)
    &&& h.url matches Some(u) && a.url@ == u@
    &&& a.source@ == "HN"@
    &&& a.score == match h.points {
        Some(p) => p,
        None => 0,
    }
    &&& a.published_at == h.created_at
    &&& a.hn_object_id is None
}

/// The hits that become candidates (a title and a URL), in order.
pub open spec fn usable_hits(hs: Seq<Hit>) -> Seq<Hit>
    decreases hs.len(),
{
    if hs.len() == 0 {
        Seq::empty()
    } else if hs.last().title is Some && hs.last().url is Some {
        usable_hits(hs.drop_last()).push(hs.last())
    } else {
        usable_hits(hs.drop_last())
    }
}

/// Candidates from a front-page payload's hits. Hits without a `url` (Ask HN
/// / text posts) or without a title are dropped.
pub fn hits_to_articles(hits: Vec<Hit>) -> (r: Vec<Article>)
    ensures
        r@.len() == usable_hits(hits@).len(),
        forall|i: int| 0 <= i < r@.len() ==> hit_article_ok(usable_hits(hits@)[i], #[trigger] r@[i]),
{
    let ghost input = hits@;
    let ghost n = input.len();
    let mut rest = hits;
    let mut out: Vec<Article> = Vec::new();
    assert(input.skip(0) =~= input);
    while rest.len() > 0
        invariant
            n == input.len(),
            rest.len() <= n,
            rest@ == input.skip(n - rest.len()),
            out@.len() == usable_hits(input.take(n - rest.len())).len(),
            forall|i: int|
                0 <= i < out@.len() ==> hit_article_ok(
                    usable_hits(input.take(n - rest.len()))[i],
                    #[trigger] out@[i],
                ),
        decreases rest.len(),
    {
        let ghost k = n - rest.len();
        let h = rest.remove(0);
        proof {
            assert(h == input[k]);
            assert(rest@ =~= input.skip(k + 1));
            assert(input.take(k + 1).drop_last() =~= input.take(k));
            assert(input.take(k + 1).last() == h);
        }
        let ghost hv = h;
        match (h.title, h.url) {
            (Some(title), Some(url)) => {
                let relevance = relevance_of(title.as_str());
                let score = match h.points {
                    Some(p) => p,
                    None => 0,
                };
                let a = Article {
                    title,
                    url,
                    source: String::from_str("HN"),
                    score,
                    published_at: h.created_at,
                    relevance,
                    hn_object_id: None,
                };
                assert(hit_article_ok(hv, a));
                out.push(a);
            },
            _ => {},
        }
    }
    assert(input.take(n as int) =~= input);
    out
}

// ── RSS / Atom ──────────────────────────────────────────────────────────────

/// One feed entry as `feed-rs` reads it: title text, link targets in order,
/// and the published/updated times as RFC 3339.
#[derive(Debug, Clone, PartialEq)]
pub struct FeedEntry {
    pub title: Option<String>,
    pub links: Vec<String>,
    pub published: Option<String>,
    pub updated: Option<String>,
}

/// A feed as `feed-rs` reads it: its title text and its entries.
#[derive(Debug, Clone, PartialEq)]
pub struct Feed {
    pub title: Option<String>,
    pub entries: Vec<FeedEntry>,
}

pub open spec fn opt_chars(o: Option<String>) -> Option<Seq<char>> {
    match o {
        Some(s) => Some(s@),
        None => None,
    }
}

/// An entry as plain values.
pub open spec fn entry_view(e: FeedEntry) -> (
    Option<Seq<char>>,
    Seq<Seq<char>>,
    Option<Seq<char>>,
    Option<Seq<char>>,
) {
    (opt_chars(e.title), Seq::new(e.links@.len(), |i: int| e.links@[i]@), opt_chars(e.published), opt_chars(e.updated))
}

/// A feed as plain values.
pub open spec fn feed_view(f: Feed) -> (
    Option<Seq<char>>,
    Seq<(Option<Seq<char>>, Seq<Seq<char>>, Option<Seq<char>>, Option<Seq<char>>)>,
) {
    (opt_chars(f.title), Seq::new(f.entries@.len(), |i: int| entry_view(f.entries@[i])))
}

/// The feed `feed-rs` reads from a body, when it can.
pub uninterp spec fn feed_of_bytes(body: Seq<u8>) -> Option<
    (
        Option<Seq<char>>,
        Seq<(Option<Seq<char>>, Seq<Seq<char>>, Option<Seq<char>>, Option<Seq<char>>)>,
    ),
>;

/// `feed_rs::parser::parse` on the body, read back as plain values: the feed
/// title's text, and per entry its title text, its links' targets, and its
/// published and updated times (`to_rfc3339`). The contract names the result.
#[verifier::external_body]
fn parse_feed(body: &[u8]) -> (r: Option<Feed>)
    ensures
        r matches Some(f) ==> feed_of_bytes(body@) == Some(feed_view(f)),
        r is None ==> feed_of_bytes(body@) is None,
{
    let feed = match feed_rs::parser::parse(body) {
        Ok(f) => f,
        Err(_) => return None,
    };
    let entries = feed.entries.into_iter().map(|e| FeedEntry {
        title: e.title.map(|t| t.content),
        links: e.links.into_iter().map(|l| l.href).collect(),
        published: e.published.map(|d| d.to_rfc3339()),
        updated: e.updated.map(|d| d.to_rfc3339()),
    }).collect();
    Some(Feed { title: feed.title.map(|t| t.content), entries })
}

/// The source label of a feed's entries: the given label, or when it is empty
/// the feed's own title, or "RSS".
pub open spec fn feed_source(label: Seq<char>, feed_title: Option<Seq<char>>) -> Seq<char> {
    if label.len() > 0 {
        label
    } else {
        match feed_title {
            Some(t) => t,
            None => "RSS"@,
        }
    }
}

/// The entries that become candidates: a title and at least one link.
pub open spec fn usable_entries(es: Seq<FeedEntry>) -> Seq<FeedEntry>
    decreases es.len(),
{
    if es.len() == 0 {
        Seq::empty()
    } else if es.last().title is Some && es.last().links@.len() > 0 {
        usable_entries(es.drop_last()).push(es.last())
    } else {
        usable_entries(es.drop_last())
    }
}

/// The candidate an entry becomes: title, first link, the source label,
/// score 0, and the published time or else the updated time.
pub open spec fn entry_article_ok(e: FeedEntry, source: Seq<char>, a: Article) -> bool {
    &&& e.title matches Some(t) && a.title@ == t@ && a.relevance == relevance_spec(t@)
    &&& e.links@.len() > 0 && a.url@ == e.links@[0]@
    &&& a.source@ == source
    &&& a.score == 0
    &&& a.published_at == match e.published {
        Some(p) => Some(p),
        None => e.updated,
    }
    &&& a.hn_object_id is None
}

/// Candidates from a parsed feed. `source` labels every entry; when empty,
/// the feed's own title (or "RSS") is used.
pub fn feed_articles(feed: Feed, source: &str) -> (r: Vec<Article>)
    ensures
        r@.len() == usable_entries(feed.entries@).len(),
        forall|i: int|
            0 <= i < r@.len() ==> entry_article_ok(
                usable_entries(feed.entries@)[i],
                feed_source(source@, opt_chars(feed.title)),
                #[trigger] r@[i],
            ),
{
    let ghost src_view = feed_source(source@, opt_chars(feed.title));
    let source_chars = chars_of(source);
    let src: String = if source_chars.len() > 0 {
        String::from_str(source)
    } else {
        match feed.title {
            Some(t) => t,
            None => String::from_str("RSS"),
        }
    };
    proof {
        if source@.len() == 0 {
            reveal_strlit("RSS");
        }
    }
    assert(src@ == src_view);
    let ghost input = feed.entries@;
    let ghost n = input.len();
    let mut rest = feed.entries;
    let mut out: Vec<Article> = Vec::new();
    assert(input.skip(0) =~= input);
    while rest.len() > 0
        invariant
            n == input.len(),
            rest.len() <= n,
            rest@ == input.skip(n - rest.len()),
            src@ == src_view,
            out@.len() == usable_entries(input.take(n - rest.len())).len(),
            forall|i: int|
                0 <= i < out@.len() ==> entry_article_ok(
                    usable_entries(input.take(n - rest.len()))[i],
                    src_view,
                    #[trigger] out@[i],
                ),
        decreases rest.len(),
    {
        let ghost k = n - rest.len();
        let mut e = rest.remove(0);
        proof {
            assert(e == input[k]);
            assert(rest@ =~= input.skip(k + 1));
            assert(input.take(k + 1).drop_last() =~= input.take(k));
            assert(input.take(k + 1).last() == e);
        }
        let ghost ev = e;
        if e.links.len() > 0 {
            match e.title {
                Some(title) => {
                    let url = e.links.remove(0);
                    let relevance = relevance_of(title.as_str());
                    let published_at = match e.published {
                        Some(p) => Some(p),
                        None => e.updated,
                    };
                    let a = Article {
                        title,
                        url,
                        source: src.clone(),
                        score: 0,
                        published_at,
                        relevance,
                        hn_object_id: None,
                    };
                    assert(entry_article_ok(ev, src_view, a));
                    out.push(a);
                },
                None => {},
            }
        }
    }
    assert(input.take(n as int) =~= input);
    out
}

/// Parses one feed body into candidates; `None` when `feed-rs` cannot read
/// it.
pub fn parse_rss(body: &[u8], source: &str) -> (r: Option<Vec<Article>>)
    ensures
        r is None <==> feed_of_bytes(body@) is None,
        r matches Some(v) ==> exists|f: Feed|
            feed_of_bytes(body@) == Some(feed_view(f)) && v@.len() == usable_entries(f.entries@).len()
                && forall|i: int|
                0 <= i < v@.len() ==> entry_article_ok(
                    usable_entries(f.entries@)[i],
                    feed_source(source@, opt_chars(f.title)),
                    #[trigger] v@[i],
                ),
{
    match parse_feed(body) {
        Some(f) => {
            let ghost fv = f;
            let v = feed_articles(f, source);
            assert(feed_of_bytes(body@) == Some(feed_view(fv)));
            Some(v)
        },
        None => None,
    }
}

// ── configured feeds ────────────────────────────────────────────────────────

/// Default feeds, tailored to the owner's stack.
pub open spec fn default_feeds() -> Seq<Seq<char>> {
    seq![
        "https://feed.infoq.com/"@,
        "https://thenewstack.io/feed/"@,
        "https://www.reddit.com/r/rust/.rss"@,
        "https://www.reddit.com/r/programming/.rss"@,
    ]
}

/// The pieces of `s` between commas (`str::split(',')`).
pub open spec fn split_commas(s: Seq<char>) -> Seq<Seq<char>>
    decreases s.len(),
{
    if s.len() == 0 {
        seq![Seq::empty()]
    } else {
        let rest = split_commas(s.drop_last());
        if s.last() == ',' {
            rest.push(Seq::empty())
        } else {
            rest.update(rest.len() - 1, rest.last().push(s.last()))
        }
    }
}

proof fn lemma_split_nonempty(s: Seq<char>)
    ensures
        split_commas(s).len() >= 1,
    decreases s.len(),
{
    if s.len() > 0 {
        lemma_split_nonempty(s.drop_last());
    }
}

/// The trimmed pieces that are not empty, in order.
pub open spec fn nonempty_trimmed(ps: Seq<Seq<char>>) -> Seq<Seq<char>>
    decreases ps.len(),
{
    if ps.len() == 0 {
        Seq::empty()
    } else if trim(ps.last()).len() > 0 {
        nonempty_trimmed(ps.drop_last()).push(trim(ps.last()))
    } else {
        nonempty_trimmed(ps.drop_last())
    }
}

/// The configured feed list: the comma-separated list when it has any
/// non-blank text, else the defaults.
pub open spec fn feed_list(raw: Option<Seq<char>>) -> Seq<Seq<char>> {
    match raw {
        Some(v) => if trim(v).len() > 0 {
            nonempty_trimmed(split_commas(v))
        } else {
            default_feeds()
        },
        None => default_feeds(),
    }
}

pub open spec fn strings_view(v: Seq<String>) -> Seq<Seq<char>> {
    Seq::new(v.len(), |i: int| v[i]@)
}

fn default_feed_list() -> (r: Vec<String>)
    ensures
        strings_view(r@) == default_feeds(),
{
    let mut v: Vec<String> = Vec::new();
    v.push(String::from_str("https://feed.infoq.com/"));
    v.push(String::from_str("https://thenewstack.io/feed/"));
    v.push(String::from_str("https://www.reddit.com/r/rust/.rss"));
    v.push(String::from_str("https://www.reddit.com/r/programming/.rss"));
    assert(strings_view(v@) =~= default_feeds());
    v
}

/// Appends the trimmed piece when it is not empty.
fn push_piece(out: &mut Vec<String>, piece: &Vec<char>)
    ensures
        strings_view(final(out)@) == if trim(piece@).len() > 0 {
            strings_view(old(out)@).push(trim(piece@))
        } else {
            strings_view(old(out)@)
        },
{
    let t = trim_chars(piece);
    if t.len() > 0 {
        let s = string_of(t.as_slice());
        let ghost before = out@;
        out.push(s);
        assert(strings_view(out@) =~= strings_view(before).push(trim(piece@)));
    }
}

/// Configured feed URLs from the raw NEWS_RSS_FEEDS value (comma-separated),
/// or the defaults when it is unset or blank.
pub fn feeds_from(raw: Option<&str>) -> (r: Vec<String>)
    ensures
        strings_view(r@) == feed_list(
            match raw {
                Some(v) => Some(v@),
                None => None,
            },
        ),
{
    let v = match raw {
        Some(v) => v,
        None => return default_feed_list(),
    };
    let cs = chars_of(v);
    if trim_chars(&cs).len() == 0 {
        return default_feed_list();
    }
    let mut out: Vec<String> = Vec::new();
    let mut cur: Vec<char> = Vec::new();
    let mut i: usize = 0;
    proof {
        lemma_split_nonempty(cs@.take(0));
        assert(cs@.take(0) =~= Seq::<char>::empty());
    }
    while i < cs.len()
        invariant
            i <= cs.len(),
            cs@ == v@,
            split_commas(cs@.take(i as int)).len() >= 1,
            cur@ == split_commas(cs@.take(i as int)).last(),
            strings_view(out@) == nonempty_trimmed(split_commas(cs@.take(i as int)).drop_last()),
        decreases cs.len() - i,
    {
        let c = cs[i];
        let ghost pre = split_commas(cs@.take(i as int));
        proof {
            assert(cs@.take(i + 1).drop_last() =~= cs@.take(i as int));
            assert(cs@.take(i + 1).last() == c);
            lemma_split_nonempty(cs@.take(i + 1));
        }
        if c == ',' {
            push_piece(&mut out, &cur);
            cur = Vec::new();
            proof {
                let post = split_commas(cs@.take(i + 1));
                assert(post == pre.push(Seq::empty()));
                assert(post.drop_last() =~= pre);
                assert(pre =~= pre.drop_last().push(pre.last()));
                assert(cur@ =~= post.last());
            }
        } else {
            cur.push(c);
            proof {
                let post = split_commas(cs@.take(i + 1));
                assert(post.drop_last() =~= pre.drop_last());
            }
        }
        i += 1;
    }
    push_piece(&mut out, &cur);
    proof {
        assert(cs@.take(cs.len() as int) =~= cs@);
        let all = split_commas(cs@);
        assert(all =~= all.drop_last().push(all.last()));
    }
    out
}

// ── seen URLs ───────────────────────────────────────────────────────────────

/// Lowercase hex of the SHA-256 digest of a text's UTF-8 bytes.
pub uninterp spec fn sha256_hex_of(text: Seq<char>) -> Seq<char>;

pub open spec fn is_lower_hex(c: char) -> bool {
    ('0' <= c && c <= '9') || ('a' <= c && c <= 'f')
}

/// `sha2::Sha256::digest` of the text's bytes, formatted `{:x}`: 64 lowercase
/// hex digits. The contract names the digest.
#[verifier::external_body]
fn sha256_hex(text: &str) -> (r: String)
    ensures
        r@ == sha256_hex_of(text@),
        r@.len() == 64,
        forall|i: int| 0 <= i < 64 ==> is_lower_hex(#[trigger] r@[i]),
{
    format!("{:x}", <sha2::Sha256 as sha2::Digest>::digest(text.as_bytes()))
}

/// A URL and the same URL with trailing slashes added are remembered under
/// one fingerprint.
pub proof fn lemma_trailing_slashes_share_a_fingerprint(url: Seq<char>, extra: nat)
    ensures
        sha256_hex_of(strip_slashes(url + Seq::new(extra, |i: int| '/'))) == sha256_hex_of(strip_slashes(url)),
    decreases extra,
{
    if extra > 0 {
        let longer = url + Seq::new(extra, |i: int| '/');
        let shorter = url + Seq::new((extra - 1) as nat, |i: int| '/');
        assert(longer.drop_last() =~= shorter);
        assert(longer.last() == '/');
        lemma_trailing_slashes_share_a_fingerprint(url, (extra - 1) as nat);
    } else {
        assert(url + Seq::new(0, |i: int| '/') =~= url);
    }
}

/// The fingerprint under which a URL is remembered as seen: the SHA-256 of
/// its normalised form, so "…/x" and "…/x/" are one article.
pub fn url_hash(url: &str) -> (r: String)
    ensures
        r@ == sha256_hex_of(strip_slashes(url@)),
        r@.len() == 64,
{
    let n = norm_url(url);
    sha256_hex(n.as_str())
}

// ── digest and extraction records ───────────────────────────────────────────

/// An article of the persisted daily digest.
#[derive(Debug, Clone)]
pub struct DigestArticle {
    pub position: i64,
    pub title: String,
    pub url: String,
    pub source: String,
    pub summary: String,
    pub key_points: Vec<String>,
}

/// What an article page yields. All fields are best-effort.
#[derive(Debug, Default, Clone)]
pub struct Extracted {
    /// Main text, only when it's substantial (>= 200 chars).
    pub text: Option<String>,
    /// OpenGraph/meta description — a fallback when `text` is absent.
    pub og_description: Option<String>,
    /// OpenGraph image URL for a thumbnail.
    pub image_url: Option<String>,
}

} // verus!
