//! Link resolution.
//!
//! Sources write the links in their pages in every way that a browser accepts.
//! `normalize_url` turns each into an absolute URL, given the base URL of the
//! source; `extract_base_url` finds the base to use for the links of a detail
//! page.

use crate::text::{
    chars_of, concat2, concat3, lemma_strip_trailing_shape, starts_with, strip_trailing,
    trim_end_matches,
};
use vstd::prelude::*;
use vstd::string::*;

verus! {

/// `http://`
pub open spec fn http_scheme() -> Seq<char> {
    seq!['h', 't', 't', 'p', ':', '/', '/']
}

/// `https://`
pub open spec fn https_scheme() -> Seq<char> {
    seq!['h', 't', 't', 'p', 's', ':', '/', '/']
}

/// Whether `url` starts with `http://` or `https://`.
pub open spec fn is_absolute_url(url: Seq<char>) -> bool {
    http_scheme().is_prefix_of(url) || https_scheme().is_prefix_of(url)
}

/// Whether `href` names a host but no scheme: it starts with `//`.
pub open spec fn is_protocol_relative(href: Seq<char>) -> bool {
    seq!['/', '/'].is_prefix_of(href)
}

/// The URL that `href` stands for in a page of the source at `base_url`.
///
/// An absolute link stays as it is. A link that starts with `//` gets `https:`
/// in front. Any other link is appended to the base URL without its trailing
/// slashes, with one slash between the two.
pub open spec fn resolved_url(href: Seq<char>, base_url: Seq<char>) -> Seq<char> {
    if is_absolute_url(href) {
        href
    } else if is_protocol_relative(href) {
        seq!['h', 't', 't', 'p', 's', ':'] + href
    } else if href.len() > 0 && href[0] == '/' {
        strip_trailing(base_url, '/') + href
    } else {
        strip_trailing(base_url, '/') + seq!['/'] + href
    }
}

/// Whether links resolve to absolute URLs against `base_url`: the base URL is
/// absolute once its trailing slashes are taken away.
pub open spec fn is_absolute_base(base_url: Seq<char>) -> bool {
    is_absolute_url(strip_trailing(base_url, '/'))
}

/// Resolves `href` against `base_url`. The result is an absolute URL exactly
/// when the link is absolute itself, or names a host, or the base URL is
/// absolute.
pub fn normalize_url(href: &str, base_url: &str) -> (r: String)
    ensures
        r@ == resolved_url(href@, base_url@),
        is_absolute_url(r@) <==> (is_absolute_url(href@) || is_protocol_relative(href@)
            || is_absolute_base(base_url@)),
{
    proof {
        lemma_resolved_absolute_only_then(href@, base_url@);
        reveal_strlit("http://");
        reveal_strlit("https://");
        reveal_strlit("//");
        reveal_strlit("/");
        reveal_strlit("https:");
        assert("http://"@ =~= http_scheme());
        assert("https://"@ =~= https_scheme());
        assert("//"@ =~= seq!['/', '/']);
        assert("/"@ =~= seq!['/']);
        assert("https:"@ =~= seq!['h', 't', 't', 'p', 's', ':']);
    }
    if starts_with(href, "http://") || starts_with(href, "https://") {
        String::from_str(href)
    } else if starts_with(href, "//") {
        concat2("https:", href)
    } else if starts_with(href, "/") {
        assert(href@.subrange(0, 1)[0] == href@[0]);
        concat2(trim_end_matches(base_url, '/'), href)
    } else {
        assert(!(href@.len() > 0 && href@[0] == '/')) by {
            if href@.len() > 0 && href@[0] == '/' {
                assert(href@.subrange(0, 1) =~= seq!['/']);
            }
        }
        concat3(trim_end_matches(base_url, '/'), "/", href)
    }
}

/// Resolving a link never makes it shorter.
pub proof fn lemma_resolved_not_shorter(href: Seq<char>, base_url: Seq<char>)
    ensures
        resolved_url(href, base_url).len() >= href.len(),
{
}

/// Every link resolves to an absolute URL against an absolute base URL, and so
/// does a link that is absolute itself or names a host against any base URL.
pub proof fn lemma_resolved_is_absolute(href: Seq<char>, base_url: Seq<char>)
    requires
        is_absolute_url(href) || is_protocol_relative(href) || is_absolute_base(base_url),
    ensures
        is_absolute_url(resolved_url(href, base_url)),
{
    lemma_resolved_absolute_only_then(href, base_url);
}

/// A link resolves to an absolute URL in no other case: where it does, the link
/// is absolute itself, or names a host, or the base URL is absolute.
pub proof fn lemma_resolved_absolute_only_then(href: Seq<char>, base_url: Seq<char>)
    ensures
        is_absolute_url(resolved_url(href, base_url)) <==> (is_absolute_url(href)
            || is_protocol_relative(href) || is_absolute_base(base_url)),
{
    let base = strip_trailing(base_url, '/');
    let url = resolved_url(href, base_url);
    lemma_strip_trailing_shape(base_url, '/');
    if is_absolute_url(href) {
    } else if is_protocol_relative(href) {
        assert(href.subrange(0, 2)[0] == href[0]);
        assert(href.subrange(0, 2)[1] == href[1]);
        assert(url.subrange(0, 8) =~= https_scheme());
    } else {
        let n = base.len() as int;
        assert(url.len() > n && url[n] == '/');
        assert(url.len() > n + 1 ==> url[n + 1] != '/') by {
            if url.len() > n + 1 && url[n + 1] == '/' {
                if href.len() > 0 && href[0] == '/' {
                    assert(url[n + 1] == href[1]);
                    assert(href.subrange(0, 2) =~= seq!['/', '/']);
                } else {
                    assert(url[n + 1] == href[0]);
                }
            }
        }
        assert(forall|k: int| 0 <= k < n ==> url[k] == base[k]);
        if http_scheme().is_prefix_of(base) {
            assert(url.subrange(0, 7) =~= base.subrange(0, 7));
        }
        if https_scheme().is_prefix_of(base) {
            assert(url.subrange(0, 8) =~= base.subrange(0, 8));
        }
        if http_scheme().is_prefix_of(url) {
            let head = url.subrange(0, 7);
            assert(head[0] == url[0] && head[1] == url[1] && head[2] == url[2] && head[3]
                == url[3] && head[4] == url[4] && head[5] == url[5] && head[6] == url[6]);
            assert(n >= 7);
            assert(base.subrange(0, 7) =~= http_scheme());
        }
        if https_scheme().is_prefix_of(url) {
            let head = url.subrange(0, 8);
            assert(head[0] == url[0] && head[1] == url[1] && head[2] == url[2] && head[3]
                == url[3] && head[4] == url[4] && head[5] == url[5] && head[6] == url[6]
                && head[7] == url[7]);
            assert(n >= 8);
            assert(base.subrange(0, 8) =~= https_scheme());
        }
    }
}

/// `url` without its query: the text before the first `?`, and all of it where
/// there is none.
pub open spec fn without_query(url: Seq<char>) -> Seq<char>
    decreases url.len(),
{
    if url.len() == 0 || url[0] == '?' {
        Seq::empty()
    } else {
        seq![url[0]] + without_query(url.drop_first())
    }
}

proof fn lemma_without_query_is_take(url: Seq<char>, k: int)
    requires
        0 <= k <= url.len(),
        forall|i: int| 0 <= i < k ==> url[i] != '?',
        k < url.len() ==> url[k] == '?',
    ensures
        without_query(url) == url.take(k),
    decreases k,
{
    if k == 0 {
        assert(url.take(0) =~= Seq::<char>::empty());
    } else {
        let rest = url.drop_first();
        assert forall|i: int| 0 <= i < k - 1 implies rest[i] != '?' by {
            assert(rest[i] == url[i + 1]);
        }
        if k - 1 < rest.len() {
            assert(rest[k - 1] == url[k]);
        }
        lemma_without_query_is_take(rest, k - 1);
        assert(seq![url[0]] + rest.take(k - 1) =~= url.take(k));
    }
}

/// A URL without its query is the start of the URL, holds no `?`, and where it
/// is not the whole URL, a `?` follows it there.
pub proof fn lemma_without_query_shape(url: Seq<char>)
    ensures
        without_query(url).is_prefix_of(url),
        !without_query(url).contains('?'),
        without_query(url).len() < url.len() ==> url[without_query(url).len() as int] == '?',
        !url.contains('?') ==> without_query(url) == url,
    decreases url.len(),
{
    let short = without_query(url);
    if url.len() == 0 || url[0] == '?' {
        assert(short =~= url.subrange(0, 0));
    } else {
        let rest = url.drop_first();
        let inner = without_query(rest);
        lemma_without_query_shape(rest);
        assert(inner =~= rest.subrange(0, inner.len() as int));
        assert(short =~= url.subrange(0, short.len() as int));
        assert forall|i: int| 0 <= i < short.len() implies short[i] != '?' by {
            if i > 0 {
                assert(short[i] == inner[i - 1]);
                assert(inner.contains(inner[i - 1]));
            }
        }
        if short.len() < url.len() {
            assert(url[short.len() as int] == rest[inner.len() as int]);
        }
        if !url.contains('?') {
            assert forall|i: int| 0 <= i < rest.len() implies rest[i] != '?' by {
                assert(rest[i] == url[i + 1]);
            }
            assert(!rest.contains('?'));
            assert(short =~= url);
        }
    }
}

/// `url` without its query. The result is the start of `url` up to its first
/// `?`, which it does not hold.
pub fn strip_query(url: &str) -> (r: String)
    ensures
        r@ == without_query(url@),
        r@.is_prefix_of(url@),
        !r@.contains('?'),
        r@.len() < url@.len() ==> url@[r@.len() as int] == '?',
{
    let cs = chars_of(url);
    let mut end: usize = 0;
    while end < cs.len() && cs[end] != '?'
        invariant
            end <= cs.len(),
            forall|i: int| 0 <= i < end ==> cs@[i] != '?',
        decreases cs.len() - end,
    {
        end += 1;
    }
    proof {
        lemma_without_query_is_take(url@, end as int);
        lemma_without_query_shape(url@);
        assert(url@.take(end as int) =~= url@.subrange(0, end as int));
    }
    String::from_str(url.substring_char(0, end))
}

/// What the URL parser reads in an absolute URL: its scheme, its host if it has
/// one, and the pairs of its query string, decoded.
#[derive(Debug, PartialEq, Eq)]
pub struct UrlParts {
    pub scheme: String,
    pub host: Option<String>,
    pub query: Vec<(String, String)>,
}

pub ghost struct UrlPartsModel {
    pub scheme: Seq<char>,
    pub host: Option<Seq<char>>,
    pub query: Seq<(Seq<char>, Seq<char>)>,
}

impl DeepView for UrlParts {
    type V = UrlPartsModel;

    open spec fn deep_view(&self) -> UrlPartsModel {
        UrlPartsModel {
            scheme: self.scheme@,
            host: self.host.deep_view(),
            query: self.query.deep_view(),
        }
    }
}

impl View for UrlParts {
    type V = UrlPartsModel;

    open spec fn view(&self) -> UrlPartsModel {
        self.deep_view()
    }
}

/// What the URL parser makes of `input`: the parts of the URL, or the message of
/// the error with which it refuses the input.
pub uninterp spec fn parsed_url(input: Seq<char>) -> Result<UrlPartsModel, Seq<char>>;

/// The model of what parsing a URL gave.
pub open spec fn parse_model(parsed: Result<UrlParts, String>) -> Result<
    UrlPartsModel,
    Seq<char>,
> {
    match parsed {
        Ok(parts) => Ok(parts@),
        Err(message) => Err(message@),
    }
}

/// Parses `input` with `url::Url::parse` and reads the result with `scheme`,
/// `host_str` and `query_pairs`; an error is given as its `Display` text.
/// The contract only names what comes back: the same input gives the same parts.
#[verifier::external_body]
pub(crate) fn parse_url(input: &str) -> (r: Result<UrlParts, String>)
    ensures
        parse_model(r) == parsed_url(input@),
{
    match url::Url::parse(input) {
        Ok(u) => Ok(
            UrlParts {
                scheme: u.scheme().to_string(),
                host: u.host_str().map(str::to_string),
                query: u.query_pairs().into_owned().collect(),
            },
        ),
        Err(e) => Err(e.to_string()),
    }
}

/// Scheme and host of a URL: the scheme, `://`, and the host if there is one.
pub open spec fn origin_of(parts: UrlPartsModel) -> Seq<char> {
    parts.scheme + seq![':', '/', '/'] + match parts.host {
        Some(host) => host,
        None => Seq::<char>::empty(),
    }
}

/// The base for the links of a detail page: the origin of the page's own URL
/// where that URL parses, else the source's base URL without trailing slashes.
pub open spec fn base_url_of(
    detail: Result<UrlPartsModel, Seq<char>>,
    rule_base_url: Seq<char>,
) -> Seq<char> {
    match detail {
        Ok(parts) => origin_of(parts),
        Err(_) => strip_trailing(rule_base_url, '/'),
    }
}

/// Scheme and host of a parsed URL.
pub fn url_origin(parts: &UrlParts) -> (r: String)
    ensures
        r@ == origin_of(parts@),
{
    proof {
        reveal_strlit("://");
        reveal_strlit("");
        assert("://"@ =~= seq![':', '/', '/']);
        assert(""@ =~= Seq::<char>::empty());
    }
    let host = match &parts.host {
        Some(h) => h.as_str(),
        None => "",
    };
    concat3(parts.scheme.as_str(), "://", host)
}

/// The base for the links of a detail page, given what the parser made of the
/// page's URL.
pub fn base_url_from(detail: &Result<UrlParts, String>, rule_base_url: &str) -> (r: String)
    ensures
        r@ == base_url_of(parse_model(*detail), rule_base_url@),
{
    match detail {
        Ok(parts) => url_origin(parts),
        Err(_) => String::from_str(trim_end_matches(rule_base_url, '/')),
    }
}

/// The base for the links of the detail page at `detail_url`.
pub fn extract_base_url(detail_url: &str, rule_base_url: &str) -> (r: String)
    ensures
        r@ == base_url_of(parsed_url(detail_url@), rule_base_url@),
{
    let detail = parse_url(detail_url);
    base_url_from(&detail, rule_base_url)
}

} // verus!
