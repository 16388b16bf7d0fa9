use vstd::prelude::*;
use vstd::string::*;
use crate::text::{parse_decimal, parsed_usize};

verus! {

/// The shape a link must have: an optional scheme, then a domain.
pub const URL_PATTERN: &'static str =
    r#"(https:\/\/www\.|http:\/\/www\.|https:\/\/|http:\/\/)?[a-zA-Z0-9]{2,}(\.[a-zA-Z0-9]{2,})(\.[a-zA-Z0-9]{2,})?"#;

/// The shape a name taken from a link's path must have: `name.ext`.
pub const FILENAME_PATTERN: &'static str = r#"^[\w,\s-]+\.[A-Za-z]{3}$"#;

/// Whether the regular expression `pattern` is valid and matches somewhere in `text`.
pub uninterp spec fn regex_finds(pattern: Seq<char>, text: Seq<char>) -> bool;

/// What `str::trim` leaves of a text.
pub uninterp spec fn trimmed(s: Seq<char>) -> Seq<char>;

/// The file name that `content_disposition` reads from a header value.
pub uninterp spec fn disposition_filename(header: Seq<char>) -> Option<Seq<char>>;

/// Relies on `regex::Regex::new` and `regex::Regex::is_match`: whether the
/// pattern compiles and matches the text; this depends on the two texts alone.
#[verifier::external_body]
fn regex_matches(pattern: &str, text: &str) -> (r: bool)
    ensures
        r == regex_finds(pattern@, text@),
{
    match regex::Regex::new(pattern) {
        Ok(re) => re.is_match(text),
        Err(_) => false,
    }
}

/// Relies on `str::trim`: the text without leading and trailing white space.
#[verifier::external_body]
fn trim_text(s: &str) -> (r: String)
    ensures
        r@ == trimmed(s@),
{
    s.trim().to_string()
}

/// Relies on `content_disposition::parse_content_disposition` and
/// `ParsedContentDisposition::filename_full`: the `filename` parameter of the
/// header, if it has one.
#[verifier::external_body]
fn filename_from_disposition(header: &str) -> (r: Option<String>)
    ensures
        r is Some <==> disposition_filename(header@) is Some,
        r is Some ==> r->0@ == disposition_filename(header@)->0,
{
    content_disposition::parse_content_disposition(header).filename_full()
}

/// Why a link was refused.
#[derive(Debug, Clone, Copy, PartialEq, Eq, Structural)]
pub enum UrlError {
    /// The link does not have the shape of a URL.
    InvalidUrl,
}

/// What a probe learnt of a remote file.
#[derive(Debug, Clone)]
pub struct Url {
    pub link: String,
    pub filename: String,
    pub content_length: usize,
    pub range_support: bool,
}

/// The headers of a probe response that matter here, each as its text when
/// the response had it (a value that is not visible ASCII reads as empty).
#[derive(Debug, Clone)]
pub struct ResponseHeaders {
    pub content_length: Option<String>,
    pub accept_ranges: Option<String>,
    pub content_disposition: Option<String>,
}

/// The one range unit that marks range support.
pub open spec fn bytes_unit() -> Seq<char> {
    seq!['b', 'y', 't', 'e', 's']
}

/// What the headers say of a transfer.
pub trait ParseHeaders {
    spec fn content_length_spec(&self) -> Option<usize>;

    spec fn accept_ranges_spec(&self) -> Option<bool>;

    spec fn content_dispo_spec(&self) -> Option<Seq<char>>;

    /// The announced size, when it is given and reads as a number.
    fn content_length(&self) -> (r: Option<usize>)
        ensures
            r == self.content_length_spec(),
    ;

    /// Whether the server announces byte ranges, when it says anything.
    fn accept_ranges(&self) -> (r: Option<bool>)
        ensures
            r == self.accept_ranges_spec(),
    ;

    /// The file name that the server suggests, if any.
    fn content_dispo(&self) -> (r: Option<String>)
        ensures
            r is Some <==> self.content_dispo_spec() is Some,
            r is Some ==> r->0@ == self.content_dispo_spec()->0,
    ;
}

impl ParseHeaders for ResponseHeaders {
    open spec fn content_length_spec(&self) -> Option<usize> {
        match self.content_length {
            Some(v) => parsed_usize(v@),
            None => None,
        }
    }

    open spec fn accept_ranges_spec(&self) -> Option<bool> {
        match self.accept_ranges {
            Some(v) => Some(trimmed(v@) == bytes_unit()),
            None => None,
        }
    }

    open spec fn content_dispo_spec(&self) -> Option<Seq<char>> {
        match self.content_disposition {
            Some(v) => disposition_filename(v@),
            None => None,
        }
    }

    fn content_length(&self) -> (r: Option<usize>) {
        match &self.content_length {
            Some(v) => parse_decimal(v.as_str()),
            None => None,
        }
    }

    fn accept_ranges(&self) -> (r: Option<bool>) {
        match &self.accept_ranges {
            Some(v) => {
                let t = trim_text(v.as_str());
                let unit = String::from_str("bytes");
                proof {
                    reveal_strlit("bytes");
                    assert(unit@ =~= bytes_unit());
                }
                Some(t == unit)
            },
            None => None,
        }
    }

    fn content_dispo(&self) -> (r: Option<String>) {
        match &self.content_disposition {
            Some(v) => filename_from_disposition(v.as_str()),
            None => None,
        }
    }
}

/// The part of a link after its last `/` (all of it when it has none).
pub open spec fn last_segment(s: Seq<char>) -> Seq<char>
    decreases s.len(),
{
    if s.len() == 0 {
        s
    } else if s.last() == '/' {
        Seq::empty()
    } else {
        last_segment(s.drop_last()).push(s.last())
    }
}

/// The file name that a link's path suggests, when its last segment has the
/// shape `name.ext`.
pub open spec fn name_from_url(link: Seq<char>) -> Option<Seq<char>> {
    if regex_finds(FILENAME_PATTERN@, last_segment(link)) {
        Some(last_segment(link))
    } else {
        None
    }
}

/// The name a probe settles on: the server's suggestion, else the link's, else empty.
pub open spec fn probed_filename(link: Seq<char>, suggested: Option<Seq<char>>) -> Seq<char> {
    match suggested {
        Some(f) => f,
        None => match name_from_url(link) {
            Some(f) => f,
            None => Seq::empty(),
        },
    }
}

/// Whether the answer to a two-byte range request confirms range support:
/// a body of exactly one byte.
pub open spec fn ranged_answer_confirms(body_len: Option<usize>) -> bool {
    body_len == Some(1usize)
}

proof fn lemma_last_segment_from(s: Seq<char>, p: int)
    requires
        0 <= p <= s.len(),
        p == 0 || s[p - 1] == '/',
        forall|k: int| p <= k < s.len() ==> s[k] != '/',
    ensures
        last_segment(s) == s.subrange(p, s.len() as int),
    decreases s.len(),
{
    if s.len() == p {
        if p > 0 {
            assert(s.last() == '/');
        }
        assert(s.subrange(p, s.len() as int) =~= Seq::<char>::empty());
    } else {
        lemma_last_segment_from(s.drop_last(), p);
        assert(s.subrange(p, s.len() as int) =~= s.drop_last().subrange(p, s.len() - 1).push(
            s.last(),
        ));
    }
}

/// The name that a link's path suggests, if its last segment has the shape `name.ext`.
pub fn parse_name_from_url(link: &str) -> (r: Option<String>)
    ensures
        r is Some <==> name_from_url(link@) is Some,
        r is Some ==> r->0@ == name_from_url(link@)->0,
{
    let n = link.unicode_len();
    let mut p: usize = n;
    while p > 0 && link.get_char(p - 1) != '/'
        invariant
            p <= n,
            n == link@.len(),
            forall|k: int| p <= k < n ==> link@[k] != '/',
        decreases p,
    {
        p = p - 1;
    }
    proof {
        lemma_last_segment_from(link@, p as int);
    }
    let last = link.substring_char(p, n);
    if regex_matches(FILENAME_PATTERN, last) {
        Some(String::from_str(last))
    } else {
        None
    }
}

/// Whether a two-byte range request was answered with exactly one byte.
pub fn range_probe_confirms(body_len: Option<usize>) -> (r: bool)
    ensures
        r == ranged_answer_confirms(body_len),
{
    match body_len {
        Some(n) => n == 1,
        None => false,
    }
}

impl Url {
    /// Checks a link's shape before anything is sent.
    pub fn is_valid_url(link: &str) -> (r: Result<(), UrlError>)
        ensures
            r is Ok <==> regex_finds(URL_PATTERN@, link@),
            r is Err ==> r == Err::<(), UrlError>(UrlError::InvalidUrl),
    {
        if !regex_matches(URL_PATTERN, link) {
            return Err(UrlError::InvalidUrl);
        }
        Ok(())
    }

    /// What a probe of `link` learnt, from the headers of its answer and the
    /// body length of a two-byte range request (`None` when that failed).
    pub fn new(link: &str, headers: &ResponseHeaders, ranged_body_len: Option<usize>) -> (r: Result<
        Url,
        UrlError,
    >)
        ensures
            r is Err <==> !regex_finds(URL_PATTERN@, link@),
            r is Err ==> r == Err::<Url, UrlError>(UrlError::InvalidUrl),
            r matches Ok(u) ==> {
                &&& u.link@ == link@
                &&& u.content_length == match headers.content_length_spec() {
                    Some(n) => n,
                    None => 0,
                }
                &&& u.filename@ == probed_filename(link@, headers.content_dispo_spec())
                &&& u.range_support == match headers.accept_ranges_spec() {
                    Some(b) => b,
                    None => ranged_answer_confirms(ranged_body_len),
                }
            },
    {
        Self::is_valid_url(link)?;
        let content_length = match headers.content_length() {
            Some(n) => n,
            None => 0,
        };
        let filename = match headers.content_dispo() {
            Some(f) => f,
            None => match parse_name_from_url(link) {
                Some(f) => f,
                None => String::new(),
            },
        };
        let range_support = match headers.accept_ranges() {
            Some(b) => b,
            None => range_probe_confirms(ranged_body_len),
        };
        Ok(Url { link: String::from_str(link), filename, content_length, range_support })
    }
}

} // verus!
