use vstd::prelude::*;

verus! {

/// What parsing a URL yields: serialization, scheme, host, and path segments
/// (absent for a URL that cannot be a base).
pub uninterp spec fn url_parts(text: Seq<char>) -> Option<
    (Seq<char>, Seq<char>, Option<Seq<char>>, Option<Seq<Seq<char>>>),
>;

/// A parsed URL of the hosted service, kept as the plain values the crawler
/// reads from it.
#[derive(Debug, Clone)]
pub struct WebUrl {
    text: String,
    scheme: String,
    host: Option<String>,
    segments: Option<Vec<String>>,
}

impl WebUrl {
    /// Serialization, scheme, host and path segments.
    pub closed spec fn parts(&self) -> (Seq<char>, Seq<char>, Option<Seq<char>>, Option<Seq<Seq<char>>>) {
        (self.text@, self.scheme@, self.host.deep_view(), self.segments.deep_view())
    }

    pub open spec fn text_view(&self) -> Seq<char> {
        self.parts().0
    }

    pub open spec fn segments_view(&self) -> Option<Seq<Seq<char>>> {
        self.parts().3
    }

    /// Parses `text`; `None` where it is no valid absolute URL.
    pub fn parse(text: &str) -> (r: Option<WebUrl>)
        ensures
            r is Some == url_parts(text@) is Some,
            r matches Some(u) ==> url_parts(text@) == Some(u.parts()),
            r matches Some(u) ==> (u.segments_view() matches Some(s) ==> s.len() >= 1),
    {
        parse_url(text)
    }

    /// The serialized URL.
    pub fn as_str(&self) -> (r: &str)
        ensures
            r@ == self.text_view(),
    {
        self.text.as_str()
    }

    /// The scheme, as in `https`.
    pub fn scheme(&self) -> (r: &str)
        ensures
            r@ == self.parts().1,
    {
        self.scheme.as_str()
    }

    /// The host, where the URL has one.
    pub fn host(&self) -> (r: Option<String>)
        ensures
            r.deep_view() == self.parts().2,
    {
        match &self.host {
            Some(h) => Some(h.clone()),
            None => None,
        }
    }

    /// Path segment `i`, where the path has that many.
    pub fn segment(&self, i: usize) -> (r: Option<String>)
        ensures
            r is Some == (self.segments_view() matches Some(s) && i < s.len()),
            r matches Some(x) ==> x@ == self.segments_view()->0[i as int],
    {
        match &self.segments {
            Some(s) => {
                if i < s.len() {
                    Some(s[i].clone())
                } else {
                    None
                }
            },
            None => None,
        }
    }
}

/// Relies on `reqwest::Url::parse` (the `url` crate) and on the accessors
/// `as_str`, `scheme`, `host_str` and `path_segments` of the parsed value;
/// `path_segments` splits the path, which yields at least one segment.
#[verifier::external_body]
fn parse_url(text: &str) -> (r: Option<WebUrl>)
    ensures
        r is Some == url_parts(text@) is Some,
        r matches Some(u) ==> url_parts(text@) == Some(u.parts()),
        r matches Some(u) ==> (u.segments_view() matches Some(s) ==> s.len() >= 1),
{
    let u = reqwest::Url::parse(text).ok()?;
    Some(WebUrl {
        text: u.as_str().to_string(),
        scheme: u.scheme().to_string(),
        host: u.host_str().map(|h| h.to_string()),
        segments: u.path_segments().map(|s| s.map(|x| x.to_string()).collect()),
    })
}

/// The URL's path has a first segment.
pub open spec fn has_first_segment(u: WebUrl) -> bool {
    u.segments_view() matches Some(s) && s.len() > 0
}

/// `input` with a trailing `/`, added where it lacks one.
pub open spec fn with_trailing_slash(input: Seq<char>) -> Seq<char> {
    if input.len() > 0 && input.last() == '/' {
        input
    } else {
        input.push('/')
    }
}

/// Makes a user-given URL end with `/`, so that later path segments append
/// to it.
pub fn fix_input_url(input_url: &str) -> (r: String)
    ensures
        r@ == with_trailing_slash(input_url@),
{
    let n = input_url.unicode_len();
    let mut url = String::from_str(input_url);
    if n == 0 || input_url.get_char(n - 1) != '/' {
        crate::text::push_char(&mut url, '/');
    }
    url
}

} // verus!
