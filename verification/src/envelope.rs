//! The envelope records of the archive: the interaction list and its flat
//! structural fields — status, method, protocol version, URI, timestamp and
//! header mapping — with their document codecs.

use vstd::prelude::*;
use vstd::string::StrSliceExecFns;

use crate::body::Body;
use crate::body::BodyView;
use crate::body::Capabilities;
use crate::body::decode_body;
use crate::body::encode_body;
use crate::doc::DocValue;
use crate::doc::DocView;
use crate::doc::doc_entries_view;
use crate::doc::doc_seq_view;
use crate::doc::doc_view;
use crate::doc::lemma_doc_entries_view;
use crate::doc::lemma_doc_seq_view;
use crate::doc::str_eq;
use crate::body::field_list1;
use crate::errors::DecodeError;
use crate::errors::ErrView;

verus! {

/// Whether the text parses as an absolute URI.
///
/// Validity is decided by the URI parser and is a function of the text
/// alone; it is named here and never given a definition.
pub uninterp spec fn url_parses(s: Seq<char>) -> bool;

/// The normalized serialization of a URI text that parses.
///
/// The normalization rules are the URI parser's and are a function of the
/// text alone; they are named here and never given a definition.
pub uninterp spec fn url_normal(s: Seq<char>) -> Seq<char>;

/// Relies on `url::Url::parse` and `url::Url::as_str`: parsing succeeds
/// exactly for valid absolute URI text, and the parsed value serializes to
/// the normalized text; both are functions of the input text alone.
#[verifier::external_body]
fn parse_url_text(s: &str) -> (r: Option<String>)
    ensures
        r is Some <==> url_parses(s@),
        r is Some ==> r->0@ == url_normal(s@),
{
    url::Url::parse(s).ok().map(|u| u.as_str().to_owned())
}

/// Whether the text parses as a mail-date (RFC 2822) timestamp whose
/// instant the format can also represent (a year between 0 and 9999).
///
/// Validity is decided by the timestamp parser and is a function of the
/// text alone; it is named here and never given a definition.
pub uninterp spec fn rfc2822_ok(s: Seq<char>) -> bool;

/// The canonical mail-date formatting of a timestamp text that parses.
///
/// The formatting rules are the timestamp library's and are a function of
/// the text alone; they are named here and never given a definition.
pub uninterp spec fn rfc2822_normal(s: Seq<char>) -> Seq<char>;

/// Relies on `chrono::DateTime::parse_from_rfc2822` and
/// `chrono::DateTime::to_rfc2822`: parsing succeeds exactly for well-formed
/// mail-date text, and formatting the parsed instant (whose fixed offset
/// the parse preserves) is a function of the text alone.  The parser
/// accepts years of five or more digits, which the formatter panics on, so
/// exactly those are turned away here as unrepresentable; the whole
/// composition stays a function of the text.
#[verifier::external_body]
fn parse_rfc2822_text(s: &str) -> (r: Option<String>)
    ensures
        r is Some <==> rfc2822_ok(s@),
        r is Some ==> r->0@ == rfc2822_normal(s@),
{
    match chrono::DateTime::parse_from_rfc2822(s) {
        Ok(dt) if (0..=9999).contains(&chrono::Datelike::year(&dt)) => Some(dt.to_rfc2822()),
        _ => None,
    }
}

/// A request URI, held as the normalized text of a successfully parsed
/// absolute URI.
pub struct Uri {
    text: String,
}

impl Uri {
    /// Parses the text as an absolute URI; fails exactly when the text is
    /// not one.  The stored form is the parser's normalized serialization.
    pub fn parse(s: &str) -> (r: Result<Uri, DecodeError>)
        ensures
            r is Ok <==> url_parses(s@),
            r is Ok ==> r->Ok_0@ == url_normal(s@),
            r is Err ==> r->Err_0@ == (ErrView::InvalidUri { text: s@ }),
    {
        match parse_url_text(s) {
            Some(text) => Ok(Uri { text }),
            None => Err(DecodeError::InvalidUri { text: s.to_owned() }),
        }
    }

    /// The normalized URI text.
    pub fn as_str(&self) -> (r: &str)
        ensures
            r@ == self@,
    {
        self.text.as_str()
    }
}

impl View for Uri {
    type V = Seq<char>;

    closed spec fn view(&self) -> Seq<char> {
        self.text@
    }
}

/// A recording timestamp, held as the canonical mail-date text of a
/// successfully parsed instant.
pub struct Timestamp {
    text: String,
}

impl Timestamp {
    /// Parses the text as a mail-date timestamp; fails exactly when the
    /// text is not one.  The stored form is the canonical formatting of the
    /// parsed instant.
    pub fn parse(s: &str) -> (r: Result<Timestamp, DecodeError>)
        ensures
            r is Ok <==> rfc2822_ok(s@),
            r is Ok ==> r->Ok_0@ == rfc2822_normal(s@),
            r is Err ==> r->Err_0@ == (ErrView::InvalidTimestamp { text: s@ }),
    {
        match parse_rfc2822_text(s) {
            Some(text) => Ok(Timestamp { text }),
            None => Err(DecodeError::InvalidTimestamp { text: s.to_owned() }),
        }
    }

    /// The canonical timestamp text.
    pub fn as_str(&self) -> (r: &str)
        ensures
            r@ == self@,
    {
        self.text.as_str()
    }
}

impl View for Timestamp {
    type V = Seq<char>;

    closed spec fn view(&self) -> Seq<char> {
        self.text@
    }
}

/// The lower-case code point of a character, folding only the ASCII
/// letters.
pub open spec fn lower_code(c: char) -> int {
    let x = c as int;
    if 65 <= x <= 90 {
        x + 32
    } else {
        x
    }
}

/// Whether two texts are equal up to ASCII case.
pub open spec fn text_ci_eq(a: Seq<char>, b: Seq<char>) -> bool {
    a.len() == b.len() && forall|i: int| 0 <= i < a.len() ==> lower_code(#[trigger] a[i])
        == lower_code(b[i])
}

/// Whether two texts are equal up to ASCII case.
pub fn str_ci_eq(a: &str, b: &str) -> (r: bool)
    ensures
        r == text_ci_eq(a@, b@),
{
    let la = a.unicode_len();
    let lb = b.unicode_len();
    if la != lb {
        return false;
    }
    let mut i: usize = 0;
    while i < la
        invariant
            0 <= i <= la,
            la as nat == a@.len(),
            lb as nat == b@.len(),
            la == lb,
            forall|j: int| 0 <= j < i ==> lower_code(#[trigger] a@[j]) == lower_code(b@[j]),
        decreases la - i,
    {
        let ca = a.get_char(i) as u32;
        let cb = b.get_char(i) as u32;
        let fa = if 65 <= ca && ca <= 90 {
            ca + 32
        } else {
            ca
        };
        let fb = if 65 <= cb && cb <= 90 {
            cb + 32
        } else {
            cb
        };
        if fa != fb {
            return false;
        }
        i = i + 1;
    }
    true
}

/// An HTTP method: one of the standard verbs, or arbitrary text.
pub enum Method {
    /// The `CONNECT` method.
    Connect,
    /// The `DELETE` method.
    Delete,
    /// The `GET` method.
    Get,
    /// The `HEAD` method.
    Head,
    /// The `OPTIONS` method.
    Options,
    /// The `PATCH` method.
    Patch,
    /// The `POST` method.
    Post,
    /// The `PUT` method.
    Put,
    /// The `TRACE` method.
    Trace,
    /// Any other method, as written in the document.
    Other(String),
}

/// The mathematical shape of a method.
pub enum MethodView {
    /// See [`Method::Connect`].
    Connect,
    /// See [`Method::Delete`].
    Delete,
    /// See [`Method::Get`].
    Get,
    /// See [`Method::Head`].
    Head,
    /// See [`Method::Options`].
    Options,
    /// See [`Method::Patch`].
    Patch,
    /// See [`Method::Post`].
    Post,
    /// See [`Method::Put`].
    Put,
    /// See [`Method::Trace`].
    Trace,
    /// See [`Method::Other`].
    Other(Seq<char>),
}

impl View for Method {
    type V = MethodView;

    open spec fn view(&self) -> MethodView {
        match self {
            Method::Connect => MethodView::Connect,
            Method::Delete => MethodView::Delete,
            Method::Get => MethodView::Get,
            Method::Head => MethodView::Head,
            Method::Options => MethodView::Options,
            Method::Patch => MethodView::Patch,
            Method::Post => MethodView::Post,
            Method::Put => MethodView::Put,
            Method::Trace => MethodView::Trace,
            Method::Other(s) => MethodView::Other(s@),
        }
    }
}

impl DeepView for Method {
    type V = MethodView;

    open spec fn deep_view(&self) -> MethodView {
        self.view()
    }
}

/// The method a text denotes: a case-insensitive match against the closed
/// verb set, else the arbitrary-text fallback carrying the text as written.
pub open spec fn method_of_text(s: Seq<char>) -> MethodView {
    if text_ci_eq(s, "connect"@) {
        MethodView::Connect
    } else if text_ci_eq(s, "delete"@) {
        MethodView::Delete
    } else if text_ci_eq(s, "get"@) {
        MethodView::Get
    } else if text_ci_eq(s, "head"@) {
        MethodView::Head
    } else if text_ci_eq(s, "options"@) {
        MethodView::Options
    } else if text_ci_eq(s, "patch"@) {
        MethodView::Patch
    } else if text_ci_eq(s, "post"@) {
        MethodView::Post
    } else if text_ci_eq(s, "put"@) {
        MethodView::Put
    } else if text_ci_eq(s, "trace"@) {
        MethodView::Trace
    } else {
        MethodView::Other(s)
    }
}

/// The upper-case display text of a method.
pub open spec fn method_str(m: MethodView) -> Seq<char> {
    match m {
        MethodView::Connect => "CONNECT"@,
        MethodView::Delete => "DELETE"@,
        MethodView::Get => "GET"@,
        MethodView::Head => "HEAD"@,
        MethodView::Options => "OPTIONS"@,
        MethodView::Patch => "PATCH"@,
        MethodView::Post => "POST"@,
        MethodView::Put => "PUT"@,
        MethodView::Trace => "TRACE"@,
        MethodView::Other(s) => s,
    }
}

/// The lower-case document text of a method.
pub open spec fn method_doc_text(m: MethodView) -> Seq<char> {
    match m {
        MethodView::Connect => "connect"@,
        MethodView::Delete => "delete"@,
        MethodView::Get => "get"@,
        MethodView::Head => "head"@,
        MethodView::Options => "options"@,
        MethodView::Patch => "patch"@,
        MethodView::Post => "post"@,
        MethodView::Put => "put"@,
        MethodView::Trace => "trace"@,
        MethodView::Other(s) => s,
    }
}

impl Method {
    /// The method a text denotes, matching the closed verb set without
    /// regard to ASCII case.
    pub fn from_text(s: &str) -> (r: Method)
        ensures
            r@ == method_of_text(s@),
    {
        if str_ci_eq(s, "connect") {
            Method::Connect
        } else if str_ci_eq(s, "delete") {
            Method::Delete
        } else if str_ci_eq(s, "get") {
            Method::Get
        } else if str_ci_eq(s, "head") {
            Method::Head
        } else if str_ci_eq(s, "options") {
            Method::Options
        } else if str_ci_eq(s, "patch") {
            Method::Patch
        } else if str_ci_eq(s, "post") {
            Method::Post
        } else if str_ci_eq(s, "put") {
            Method::Put
        } else if str_ci_eq(s, "trace") {
            Method::Trace
        } else {
            Method::Other(s.to_owned())
        }
    }

    /// The method's display text, upper-case for the standard verbs.
    pub fn as_str(&self) -> (r: &str)
        ensures
            r@ == method_str(self@),
    {
        match self {
            Method::Connect => "CONNECT",
            Method::Delete => "DELETE",
            Method::Get => "GET",
            Method::Head => "HEAD",
            Method::Options => "OPTIONS",
            Method::Patch => "PATCH",
            Method::Post => "POST",
            Method::Put => "PUT",
            Method::Trace => "TRACE",
            Method::Other(s) => s.as_str(),
        }
    }

    /// The method's document text, lower-case for the standard verbs.
    pub fn to_doc_text(&self) -> (r: String)
        ensures
            r@ == method_doc_text(self@),
    {
        match self {
            Method::Connect => "connect".to_owned(),
            Method::Delete => "delete".to_owned(),
            Method::Get => "get".to_owned(),
            Method::Head => "head".to_owned(),
            Method::Options => "options".to_owned(),
            Method::Patch => "patch".to_owned(),
            Method::Post => "post".to_owned(),
            Method::Put => "put".to_owned(),
            Method::Trace => "trace".to_owned(),
            Method::Other(s) => s.clone(),
        }
    }
}

/// The version of the HTTP protocol in use.
#[derive(Clone, Copy, Debug, PartialEq, Eq, Structural)]
pub enum Version {
    /// HTTP/0.9.
    Http0_9,
    /// HTTP/1.0.
    Http1_0,
    /// HTTP/1.1.
    Http1_1,
    /// HTTP/2.
    Http2_0,
    /// HTTP/3.
    Http3_0,
}

/// The version a text denotes, if any; the match is exact.
pub open spec fn version_of_text(s: Seq<char>) -> Option<Version> {
    if s == "0.9"@ {
        Some(Version::Http0_9)
    } else if s == "1.0"@ {
        Some(Version::Http1_0)
    } else if s == "1.1"@ {
        Some(Version::Http1_1)
    } else if s == "2"@ {
        Some(Version::Http2_0)
    } else if s == "3"@ {
        Some(Version::Http3_0)
    } else {
        None
    }
}

/// The document text of a version.
pub open spec fn version_text(v: Version) -> Seq<char> {
    match v {
        Version::Http0_9 => "0.9"@,
        Version::Http1_0 => "1.0"@,
        Version::Http1_1 => "1.1"@,
        Version::Http2_0 => "2"@,
        Version::Http3_0 => "3"@,
    }
}

impl Version {
    /// The version a text denotes, if any; the match is exact.
    pub fn from_text(s: &str) -> (r: Option<Version>)
        ensures
            r == version_of_text(s@),
    {
        if str_eq(s, "0.9") {
            Some(Version::Http0_9)
        } else if str_eq(s, "1.0") {
            Some(Version::Http1_0)
        } else if str_eq(s, "1.1") {
            Some(Version::Http1_1)
        } else if str_eq(s, "2") {
            Some(Version::Http2_0)
        } else if str_eq(s, "3") {
            Some(Version::Http3_0)
        } else {
            None
        }
    }

    /// The version's document text.
    pub fn as_str(&self) -> (r: &'static str)
        ensures
            r@ == version_text(*self),
    {
        match self {
            Version::Http0_9 => "0.9",
            Version::Http1_0 => "1.0",
            Version::Http1_1 => "1.1",
            Version::Http2_0 => "2",
            Version::Http3_0 => "3",
        }
    }
}

/// A recorded HTTP status: code and message.
pub struct Status {
    /// The status code.
    pub code: u16,
    /// The status message.
    pub message: String,
}

/// The mathematical shape of a status.
pub struct StatusView {
    /// See [`Status::code`].
    pub code: u16,
    /// See [`Status::message`].
    pub message: Seq<char>,
}

impl View for Status {
    type V = StatusView;

    open spec fn view(&self) -> StatusView {
        StatusView { code: self.code, message: self.message@ }
    }
}

/// An HTTP header mapping: header names to their value sequences, in
/// document order.  The value order of each header is significant and is
/// preserved; a well-formed mapping has no repeated name.
pub type Headers = Vec<(String, Vec<String>)>;

/// The mathematical shape of a header mapping.
pub type HeadersView = Seq<(Seq<char>, Seq<Seq<char>>)>;

/// The first value bound to a key among a map node's entries, if any.
pub open spec fn lookup(entries: Seq<(Seq<char>, DocView)>, key: Seq<char>) -> Option<DocView>
    decreases entries.len(),
{
    if entries.len() == 0 {
        None
    } else if entries[0].0 == key {
        Some(entries[0].1)
    } else {
        lookup(entries.drop_first(), key)
    }
}

/// `lookup` finds the first entry bearing the key.
proof fn lemma_lookup_first(entries: Seq<(Seq<char>, DocView)>, key: Seq<char>, i: int)
    requires
        0 <= i < entries.len(),
        entries[i].0 == key,
        forall|t: int| 0 <= t < i ==> (#[trigger] entries[t]).0 != key,
    ensures
        lookup(entries, key) == Some(entries[i].1),
    decreases i,
{
    if i > 0 {
        assert(entries[0].0 != key);
        assert(entries.drop_first()[i - 1] == entries[i]);
        assert(forall|t: int|
            0 <= t < i - 1 ==> (#[trigger] entries.drop_first()[t]) == entries[t + 1]);
        lemma_lookup_first(entries.drop_first(), key, i - 1);
    }
}

/// `lookup` finds nothing when no entry bears the key.
proof fn lemma_lookup_none(entries: Seq<(Seq<char>, DocView)>, key: Seq<char>)
    requires
        forall|t: int| 0 <= t < entries.len() ==> (#[trigger] entries[t]).0 != key,
    ensures
        lookup(entries, key) is None,
    decreases entries.len(),
{
    if entries.len() > 0 {
        assert(forall|t: int|
            0 <= t < entries.drop_first().len() ==> (#[trigger] entries.drop_first()[t])
                == entries[t + 1]);
        lemma_lookup_none(entries.drop_first(), key);
    }
}

/// An owned copy of the value of the first entry bearing the key, if any.
#[verifier::loop_isolation(false)]
fn field_value(entries: &Vec<(String, DocValue)>, key: &str) -> (r: Option<DocValue>)
    ensures
        match r {
            Some(v) => lookup(doc_entries_view(entries@), key@) == Some(doc_view(v)),
            None => lookup(doc_entries_view(entries@), key@) is None,
        },
{
    let ghost e_view = doc_entries_view(entries@);
    proof {
        lemma_doc_entries_view(entries@);
    }
    let mut i: usize = 0;
    while i < entries.len()
        invariant
            0 <= i <= entries@.len(),
            forall|t: int| 0 <= t < i ==> (#[trigger] e_view[t]).0 != key@,
        decreases entries@.len() - i,
    {
        if str_eq(entries[i].0.as_str(), key) {
            let v = entries[i].1.deep_copy();
            proof {
                lemma_lookup_first(e_view, key@, i as int);
            }
            return Some(v);
        }
        i = i + 1;
    }
    proof {
        lemma_lookup_none(e_view, key@);
    }
    None
}

/// Whether a document node is a well-formed header value list: a sequence
/// of text scalars.
pub open spec fn header_value_ok(v: DocView) -> bool {
    v matches DocView::Arr(items) && forall|j: int|
        0 <= j < v->Arr_0.len() ==> (#[trigger] v->Arr_0[j]) matches DocView::Text(_)
}

/// The texts of a well-formed header value list, in order.
pub open spec fn header_values(v: DocView) -> Seq<Seq<char>> {
    Seq::new(v->Arr_0.len(), |j: int| v->Arr_0[j]->Text_0)
}

/// Whether no header name repeats among a map node's entries.
pub open spec fn header_keys_unique(entries: Seq<(Seq<char>, DocView)>) -> bool {
    forall|i: int, j: int|
        0 <= i < j < entries.len() ==> (#[trigger] entries[i]).0 != (#[trigger] entries[j]).0
}

/// Decoding a header mapping: the node must be a map, its names must not
/// repeat, and every value must be a sequence of text scalars.  The
/// repeated-name check precedes the value-shape check.
pub open spec fn decode_headers(d: DocView) -> Result<HeadersView, ErrView> {
    match d {
        DocView::Obj(entries) => if !header_keys_unique(entries) {
            Err(ErrView::DuplicateField)
        } else if !(forall|i: int|
            0 <= i < entries.len() ==> header_value_ok((#[trigger] entries[i]).1)) {
            Err(ErrView::Shape)
        } else {
            Ok(Seq::new(entries.len(), |i: int| (entries[i].0, header_values(entries[i].1))))
        },
        _ => Err(ErrView::Shape),
    }
}

/// The document entries of a header mapping, names and value sequences in
/// their stored order.
pub open spec fn encode_headers_entries(h: HeadersView) -> Seq<(Seq<char>, DocView)> {
    Seq::new(
        h.len(),
        |i: int| (h[i].0, DocView::Arr(Seq::new(h[i].1.len(), |j: int| DocView::Text(h[i].1[j])))),
    )
}

/// The document node of a header mapping.
pub open spec fn encode_headers_doc(h: HeadersView) -> DocView {
    DocView::Obj(encode_headers_entries(h))
}

/// Re-encoding a header mapping keeps every header's name and its value
/// sequence in order: the entry at each position carries the same name and
/// renders its values one-for-one, in the same order, as text scalars.
pub proof fn lemma_encode_headers_preserves_order(h: HeadersView, i: int)
    requires
        0 <= i < h.len(),
    ensures
        encode_headers_entries(h).len() == h.len(),
        encode_headers_entries(h)[i].0 == h[i].0,
        encode_headers_entries(h)[i].1 matches DocView::Arr(vs) && vs.len() == h[i].1.len()
            && forall|j: int| 0 <= j < h[i].1.len() ==> vs[j] == DocView::Text(h[i].1[j]),
{
}

/// The view of a headers decode result.
pub open spec fn headers_result_view(r: Result<Headers, DecodeError>) -> Result<
    HeadersView,
    ErrView,
> {
    match r {
        Ok(h) => Ok(h.deep_view()),
        Err(e) => Err(e@),
    }
}

/// Decodes a header mapping from a document node.
#[verifier::loop_isolation(false)]
pub fn headers_from_doc(d: &DocValue) -> (r: Result<Headers, DecodeError>)
    ensures
        headers_result_view(r) == decode_headers(d@),
{
    match d {
        DocValue::Obj(entries) => {
            let ghost e_view = doc_entries_view(entries@);
            proof {
                lemma_doc_entries_view(entries@);
            }
            let mut j: usize = 1;
            while j < entries.len()
                invariant
                    1 <= j <= entries@.len() || entries@.len() == 0,
                    forall|x: int, y: int|
                        0 <= x < y < j && y < entries@.len() ==> (#[trigger] e_view[x]).0 != (
                        #[trigger] e_view[y]).0,
                decreases entries@.len() - j,
            {
                let mut i: usize = 0;
                while i < j
                    invariant
                        0 <= i <= j < entries@.len(),
                        forall|x: int| 0 <= x < i ==> (#[trigger] e_view[x]).0 != e_view[j as int].0,
                    decreases j - i,
                {
                    if str_eq(entries[i].0.as_str(), entries[j].0.as_str()) {
                        proof {
                            assert(e_view[i as int].0 == e_view[j as int].0);
                            assert(!header_keys_unique(e_view));
                        }
                        return Err(DecodeError::DuplicateField);
                    }
                    i = i + 1;
                }
                j = j + 1;
            }
            assert(header_keys_unique(e_view));
            let mut out: Headers = Vec::new();
            let mut k: usize = 0;
            while k < entries.len()
                invariant
                    0 <= k <= entries@.len(),
                    out@.len() == k,
                    forall|x: int|
                        0 <= x < k ==> header_value_ok((#[trigger] e_view[x]).1)
                            && out.deep_view()[x] == (e_view[x].0, header_values(e_view[x].1)),
                decreases entries@.len() - k,
            {
                let values = match &entries[k].1 {
                    DocValue::Arr(items) => {
                        let ghost v_view = doc_seq_view(items@);
                        proof {
                            lemma_doc_seq_view(items@);
                        }
                        let mut vals: Vec<String> = Vec::new();
                        let mut t: usize = 0;
                        while t < items.len()
                            invariant
                                0 <= t <= items@.len(),
                                vals@.len() == t,
                                forall|y: int|
                                    0 <= y < t ==> ((#[trigger] v_view[y]) matches DocView::Text(
                                        _,
                                    ) && vals.deep_view()[y] == v_view[y]->Text_0),
                            decreases items@.len() - t,
                        {
                            match &items[t] {
                                DocValue::Text(s) => {
                                    vals.push(s.clone());
                                },
                                _ => {
                                    proof {
                                        assert(e_view[k as int].1 == DocView::Arr(v_view));
                                        assert(!(v_view[t as int] matches DocView::Text(_)));
                                        assert(!header_value_ok(e_view[k as int].1));
                                    }
                                    return Err(DecodeError::Shape);
                                },
                            }
                            t = t + 1;
                        }
                        vals
                    },
                    _ => {
                        proof {
                            assert(!header_value_ok(e_view[k as int].1));
                        }
                        return Err(DecodeError::Shape);
                    },
                };
                let name = entries[k].0.clone();
                out.push((name, values));
                proof {
                    assert(header_value_ok(e_view[k as int].1));
                    assert(out.deep_view()[k as int].1 =~= header_values(e_view[k as int].1));
                }
                k = k + 1;
            }
            proof {
                assert(out.deep_view() =~= decode_headers(d@)->Ok_0);
            }
            Ok(out)
        },
        _ => Err(DecodeError::Shape),
    }
}

/// Encodes a header mapping to a document node.
#[verifier::loop_isolation(false)]
pub fn headers_to_doc(h: &Headers) -> (r: DocValue)
    ensures
        r@ == encode_headers_doc(h.deep_view()),
{
    let mut entries: Vec<(String, DocValue)> = Vec::new();
    let mut i: usize = 0;
    while i < h.len()
        invariant
            0 <= i <= h@.len(),
            entries@.len() == i,
            forall|x: int|
                0 <= x < i ==> ((#[trigger] entries@[x]).0@ == encode_headers_entries(
                    h.deep_view(),
                )[x].0 && doc_view(entries@[x].1) == encode_headers_entries(h.deep_view())[x].1),
        decreases h@.len() - i,
    {
        let mut items: Vec<DocValue> = Vec::new();
        let mut j: usize = 0;
        while j < h[i].1.len()
            invariant
                0 <= j <= h@[i as int].1@.len(),
                0 <= i < h@.len(),
                items@.len() == j,
                forall|y: int|
                    0 <= y < j ==> doc_view(#[trigger] items@[y]) == DocView::Text(
                        h.deep_view()[i as int].1[y],
                    ),
            decreases h@[i as int].1@.len() - j,
        {
            items.push(DocValue::Text(h[i].1[j].clone()));
            proof {
                assert(h.deep_view()[i as int].1[j as int] == h@[i as int].1@[j as int]@);
                assert(doc_view(items@[j as int]) == DocView::Text(
                    h.deep_view()[i as int].1[j as int],
                ));
            }
            j = j + 1;
        }
        let ghost items_final = items@;
        let name = h[i].0.clone();
        entries.push((name, DocValue::Arr(items)));
        proof {
            let target = encode_headers_entries(h.deep_view());
            lemma_doc_seq_view(items_final);
            assert(doc_seq_view(items_final) =~= target[i as int].1->Arr_0);
            assert(entries@[i as int].0@ == target[i as int].0);
            assert(doc_view(entries@[i as int].1) == target[i as int].1);
        }
        i = i + 1;
    }
    proof {
        lemma_doc_entries_view(entries@);
        assert forall|x: int|
            0 <= x < entries@.len() implies #[trigger] doc_entries_view(entries@)[x]
            == encode_headers_entries(h.deep_view())[x] by {
            assert(doc_entries_view(entries@)[x] == (entries@[x].0@, doc_view(entries@[x].1)));
        }
        assert(doc_entries_view(entries@) =~= encode_headers_entries(h.deep_view()));
    }
    DocValue::Obj(entries)
}

/// A recorded HTTP request.
pub struct Request {
    /// The request URI.
    pub uri: Uri,
    /// The request body.
    pub body: Body,
    /// The request method.
    pub method: Method,
    /// The request headers.
    pub headers: Headers,
}

/// The mathematical shape of a request; the URI abstracts to its
/// normalized text.
pub struct RequestView {
    /// See [`Request::uri`].
    pub uri: Seq<char>,
    /// See [`Request::body`].
    pub body: BodyView,
    /// See [`Request::method`].
    pub method: MethodView,
    /// See [`Request::headers`].
    pub headers: HeadersView,
}

impl View for Request {
    type V = RequestView;

    open spec fn view(&self) -> RequestView {
        RequestView {
            uri: self.uri@,
            body: self.body@,
            method: self.method@,
            headers: self.headers.deep_view(),
        }
    }
}

/// A recorded HTTP response.
pub struct Response {
    /// The response body.
    pub body: Body,
    /// The protocol version of the response, if recorded.
    pub http_version: Option<Version>,
    /// The response status.
    pub status: Status,
    /// The response headers.
    pub headers: Headers,
}

/// The mathematical shape of a response.
pub struct ResponseView {
    /// See [`Response::body`].
    pub body: BodyView,
    /// See [`Response::http_version`].
    pub http_version: Option<Version>,
    /// See [`Response::status`].
    pub status: StatusView,
    /// See [`Response::headers`].
    pub headers: HeadersView,
}

impl View for Response {
    type V = ResponseView;

    open spec fn view(&self) -> ResponseView {
        ResponseView {
            body: self.body@,
            http_version: self.http_version,
            status: self.status@,
            headers: self.headers.deep_view(),
        }
    }
}

/// One recorded request/response pair with its recording time.
pub struct HttpInteraction {
    /// The recorded response.
    pub response: Response,
    /// The recorded request.
    pub request: Request,
    /// When the interaction was recorded.
    pub recorded_at: Timestamp,
}

/// The mathematical shape of an interaction; the timestamp abstracts to
/// its canonical text.
pub struct InteractionView {
    /// See [`HttpInteraction::response`].
    pub response: ResponseView,
    /// See [`HttpInteraction::request`].
    pub request: RequestView,
    /// See [`HttpInteraction::recorded_at`].
    pub recorded_at: Seq<char>,
}

impl View for HttpInteraction {
    type V = InteractionView;

    open spec fn view(&self) -> InteractionView {
        InteractionView {
            response: self.response@,
            request: self.request@,
            recorded_at: self.recorded_at@,
        }
    }
}

impl DeepView for HttpInteraction {
    type V = InteractionView;

    open spec fn deep_view(&self) -> InteractionView {
        self.view()
    }
}

/// An identifier of the library that created a recording.
pub type RecorderId = String;

/// The full archive: the recorded interactions plus the identifier of the
/// recording library.
pub struct Cassette {
    /// The recorded request/response pairs, in order.
    pub http_interactions: Vec<HttpInteraction>,
    /// The identifier of the library that made the recording.
    pub recorded_with: RecorderId,
}

/// The mathematical shape of an archive.
pub struct CassetteView {
    /// See [`Cassette::http_interactions`].
    pub http_interactions: Seq<InteractionView>,
    /// See [`Cassette::recorded_with`].
    pub recorded_with: Seq<char>,
}

impl View for Cassette {
    type V = CassetteView;

    open spec fn view(&self) -> CassetteView {
        CassetteView {
            http_interactions: self.http_interactions.deep_view(),
            recorded_with: self.recorded_with@,
        }
    }
}

/// Decoding a status record: a map with an integer `code` in the unsigned
/// 16-bit range and a text `message`.
pub open spec fn decode_status(d: DocView) -> Result<StatusView, ErrView> {
    match d {
        DocView::Obj(entries) => match lookup(entries, "code"@) {
            None => Err(ErrView::MissingField { accepted: seq!["code"@] }),
            Some(cv) => match cv {
                DocView::Int(n) => if 0 <= n <= 65535 {
                    match lookup(entries, "message"@) {
                        None => Err(ErrView::MissingField { accepted: seq!["message"@] }),
                        Some(mv) => match mv {
                            DocView::Text(msg) => Ok(StatusView { code: n as u16, message: msg }),
                            _ => Err(ErrView::Shape),
                        },
                    }
                } else {
                    Err(ErrView::InvalidStatusCode)
                },
                _ => Err(ErrView::Shape),
            },
        },
        _ => Err(ErrView::Shape),
    }
}

/// Decoding the optional protocol version of a response: an absent or null
/// field is no version; a text field must name a known version.
pub open spec fn decode_version_field(entries: Seq<(Seq<char>, DocView)>) -> Result<
    Option<Version>,
    ErrView,
> {
    match lookup(entries, "http_version"@) {
        None => Ok(None),
        Some(v) => match v {
            DocView::Null => Ok(None),
            DocView::Text(s) => match version_of_text(s) {
                Some(ver) => Ok(Some(ver)),
                None => Err(ErrView::InvalidVersion { text: s }),
            },
            _ => Err(ErrView::Shape),
        },
    }
}

/// Decoding a request record: fields are found by name, the first entry
/// bearing each name counts, and unknown names are ignored; the fields are
/// then checked in declaration order — `uri`, `body`, `method`, `headers`.
pub open spec fn decode_request(d: DocView, c: Capabilities) -> Result<RequestView, ErrView> {
    match d {
        DocView::Obj(entries) => match lookup(entries, "uri"@) {
            None => Err(ErrView::MissingField { accepted: seq!["uri"@] }),
            Some(un) => match un {
                DocView::Text(u) => if !url_parses(u) {
                    Err(ErrView::InvalidUri { text: u })
                } else {
                    match lookup(entries, "body"@) {
                        None => Err(ErrView::MissingField { accepted: seq!["body"@] }),
                        Some(bn) => match decode_body(bn, c) {
                            Err(e) => Err(e),
                            Ok(body) => match lookup(entries, "method"@) {
                                None => Err(ErrView::MissingField { accepted: seq!["method"@] }),
                                Some(mn) => match mn {
                                    DocView::Text(m) => match lookup(entries, "headers"@) {
                                        None => Err(
                                            ErrView::MissingField { accepted: seq!["headers"@] },
                                        ),
                                        Some(hn) => match decode_headers(hn) {
                                            Err(e) => Err(e),
                                            Ok(headers) => Ok(
                                                RequestView {
                                                    uri: url_normal(u),
                                                    body,
                                                    method: method_of_text(m),
                                                    headers,
                                                },
                                            ),
                                        },
                                    },
                                    _ => Err(ErrView::Shape),
                                },
                            },
                        },
                    }
                },
                _ => Err(ErrView::Shape),
            },
        },
        _ => Err(ErrView::Shape),
    }
}

/// Decoding a response record; the fields are checked in declaration
/// order — `body`, `http_version`, `status`, `headers`.
pub open spec fn decode_response(d: DocView, c: Capabilities) -> Result<ResponseView, ErrView> {
    match d {
        DocView::Obj(entries) => match lookup(entries, "body"@) {
            None => Err(ErrView::MissingField { accepted: seq!["body"@] }),
            Some(bn) => match decode_body(bn, c) {
                Err(e) => Err(e),
                Ok(body) => match decode_version_field(entries) {
                    Err(e) => Err(e),
                    Ok(http_version) => match lookup(entries, "status"@) {
                        None => Err(ErrView::MissingField { accepted: seq!["status"@] }),
                        Some(sn) => match decode_status(sn) {
                            Err(e) => Err(e),
                            Ok(status) => match lookup(entries, "headers"@) {
                                None => Err(ErrView::MissingField { accepted: seq!["headers"@] }),
                                Some(hn) => match decode_headers(hn) {
                                    Err(e) => Err(e),
                                    Ok(headers) => Ok(
                                        ResponseView { body, http_version, status, headers },
                                    ),
                                },
                            },
                        },
                    },
                },
            },
        },
        _ => Err(ErrView::Shape),
    }
}

/// Decoding one interaction record; the fields are checked in declaration
/// order — `response`, `request`, `recorded_at`.
pub open spec fn decode_interaction(d: DocView, c: Capabilities) -> Result<
    InteractionView,
    ErrView,
> {
    match d {
        DocView::Obj(entries) => match lookup(entries, "response"@) {
            None => Err(ErrView::MissingField { accepted: seq!["response"@] }),
            Some(rn) => match decode_response(rn, c) {
                Err(e) => Err(e),
                Ok(response) => match lookup(entries, "request"@) {
                    None => Err(ErrView::MissingField { accepted: seq!["request"@] }),
                    Some(qn) => match decode_request(qn, c) {
                        Err(e) => Err(e),
                        Ok(request) => match lookup(entries, "recorded_at"@) {
                            None => Err(ErrView::MissingField { accepted: seq!["recorded_at"@] }),
                            Some(tn) => match tn {
                                DocView::Text(t) => if !rfc2822_ok(t) {
                                    Err(ErrView::InvalidTimestamp { text: t })
                                } else {
                                    Ok(
                                        InteractionView {
                                            response,
                                            request,
                                            recorded_at: rfc2822_normal(t),
                                        },
                                    )
                                },
                                _ => Err(ErrView::Shape),
                            },
                        },
                    },
                },
            },
        },
        _ => Err(ErrView::Shape),
    }
}

/// Decoding a sequence of interaction records, left to right; the first
/// failing element decides the error.
pub open spec fn decode_interactions(s: Seq<DocView>, c: Capabilities) -> Result<
    Seq<InteractionView>,
    ErrView,
>
    decreases s.len(),
{
    if s.len() == 0 {
        Ok(Seq::empty())
    } else {
        match decode_interaction(s[0], c) {
            Err(e) => Err(e),
            Ok(first) => match decode_interactions(s.drop_first(), c) {
                Err(e) => Err(e),
                Ok(rest) => Ok(seq![first] + rest),
            },
        }
    }
}

/// Decoding a full archive: a map with the interaction sequence under
/// `http_interactions` and the recorder identifier under `recorded_with`.
pub open spec fn decode_cassette(d: DocView, c: Capabilities) -> Result<CassetteView, ErrView> {
    match d {
        DocView::Obj(entries) => match lookup(entries, "http_interactions"@) {
            None => Err(ErrView::MissingField { accepted: seq!["http_interactions"@] }),
            Some(inode) => match inode {
                DocView::Arr(items) => match decode_interactions(items, c) {
                    Err(e) => Err(e),
                    Ok(interactions) => match lookup(entries, "recorded_with"@) {
                        None => Err(ErrView::MissingField { accepted: seq!["recorded_with"@] }),
                        Some(rn) => match rn {
                            DocView::Text(rw) => Ok(
                                CassetteView {
                                    http_interactions: interactions,
                                    recorded_with: rw,
                                },
                            ),
                            _ => Err(ErrView::Shape),
                        },
                    },
                },
                _ => Err(ErrView::Shape),
            },
        },
        _ => Err(ErrView::Shape),
    }
}

/// The document node of a status record: `code` then `message`.
pub open spec fn encode_status(s: StatusView) -> DocView {
    DocView::Obj(
        seq![("code"@, DocView::Int(s.code as int)), ("message"@, DocView::Text(s.message))],
    )
}

/// The document node of a request record: `uri`, `body`, `method`,
/// `headers`, in that order.
pub open spec fn encode_request(r: RequestView) -> DocView {
    DocView::Obj(
        seq![
            ("uri"@, DocView::Text(r.uri)),
            ("body"@, encode_body(r.body)),
            ("method"@, DocView::Text(method_doc_text(r.method))),
            ("headers"@, encode_headers_doc(r.headers)),
        ],
    )
}

/// The document node of a response record: `body`, `http_version` (the
/// null scalar when absent), `status`, `headers`, in that order.
pub open spec fn encode_response(r: ResponseView) -> DocView {
    DocView::Obj(
        seq![
            ("body"@, encode_body(r.body)),
            (
                "http_version"@,
                match r.http_version {
                    Some(v) => DocView::Text(version_text(v)),
                    None => DocView::Null,
                },
            ),
            ("status"@, encode_status(r.status)),
            ("headers"@, encode_headers_doc(r.headers)),
        ],
    )
}

/// The document node of one interaction record: `response`, `request`,
/// `recorded_at`, in that order.
pub open spec fn encode_interaction(i: InteractionView) -> DocView {
    DocView::Obj(
        seq![
            ("response"@, encode_response(i.response)),
            ("request"@, encode_request(i.request)),
            ("recorded_at"@, DocView::Text(i.recorded_at)),
        ],
    )
}

/// The document nodes of a sequence of interactions, in order.
pub open spec fn encode_interactions(s: Seq<InteractionView>) -> Seq<DocView> {
    Seq::new(s.len(), |i: int| encode_interaction(s[i]))
}

/// The document node of a full archive: `http_interactions` then
/// `recorded_with`.
pub open spec fn encode_cassette(c: CassetteView) -> DocView {
    DocView::Obj(
        seq![
            ("http_interactions"@, DocView::Arr(encode_interactions(c.http_interactions))),
            ("recorded_with"@, DocView::Text(c.recorded_with)),
        ],
    )
}

/// Every successfully decoded interaction in a list decodes to the element
/// of the combined result at its position.
proof fn lemma_decode_interactions_ok(s: Seq<DocView>, c: Capabilities)
    requires
        forall|j: int| 0 <= j < s.len() ==> decode_interaction(#[trigger] s[j], c) is Ok,
    ensures
        decode_interactions(s, c) is Ok,
        decode_interactions(s, c)->Ok_0.len() == s.len(),
        forall|j: int|
            0 <= j < s.len() ==> decode_interactions(s, c)->Ok_0[j] == decode_interaction(
                #[trigger] s[j],
                c,
            )->Ok_0,
    decreases s.len(),
{
    if s.len() > 0 {
        assert(decode_interaction(s[0], c) is Ok);
        assert(forall|j: int|
            0 <= j < s.drop_first().len() ==> decode_interaction(
                #[trigger] s.drop_first()[j],
                c,
            ) is Ok) by {
            assert(forall|j: int|
                0 <= j < s.drop_first().len() ==> #[trigger] s.drop_first()[j] == s[j + 1]);
        }
        lemma_decode_interactions_ok(s.drop_first(), c);
        assert forall|j: int| 0 <= j < s.len() implies decode_interactions(s, c)->Ok_0[j]
            == decode_interaction(#[trigger] s[j], c)->Ok_0 by {
            if j > 0 {
                assert(s.drop_first()[j - 1] == s[j]);
            }
        }
    }
}

/// The first failing interaction of a list decides the error of the
/// combined decode.
proof fn lemma_decode_interactions_err(s: Seq<DocView>, c: Capabilities, k: int)
    requires
        0 <= k < s.len(),
        decode_interaction(s[k], c) is Err,
        forall|j: int| 0 <= j < k ==> decode_interaction(#[trigger] s[j], c) is Ok,
    ensures
        decode_interactions(s, c) == Result::<Seq<InteractionView>, ErrView>::Err(
            decode_interaction(s[k], c)->Err_0,
        ),
    decreases s.len(),
{
    if k > 0 {
        assert(decode_interaction(s[0], c) is Ok);
        assert(s.drop_first()[k - 1] == s[k]);
        assert(forall|j: int|
            0 <= j < k - 1 ==> decode_interaction(#[trigger] s.drop_first()[j], c) is Ok) by {
            assert(forall|j: int| 0 <= j < k - 1 ==> #[trigger] s.drop_first()[j] == s[j + 1]);
        }
        lemma_decode_interactions_err(s.drop_first(), c, k - 1);
    }
}

impl Status {
    /// Decodes a status record from a document node; the exact result is
    /// [`decode_status`].
    pub fn decode(d: &DocValue) -> (r: Result<Status, DecodeError>)
        ensures
            status_result_view(r) == decode_status(d@),
    {
        match d {
            DocValue::Obj(entries) => {
                let code_node = match field_value(entries, "code") {
                    Some(v) => v,
                    None => {
                        return Err(DecodeError::MissingField { accepted: field_list1("code") });
                    },
                };
                let code: u16 = match code_node {
                    DocValue::Int(n) => if 0 <= n && n <= 65535 {
                        n as u16
                    } else {
                        return Err(DecodeError::InvalidStatusCode);
                    },
                    DocValue::UInt(n) => if n <= 65535 {
                        n as u16
                    } else {
                        return Err(DecodeError::InvalidStatusCode);
                    },
                    _ => {
                        return Err(DecodeError::Shape);
                    },
                };
                let message = match field_value(entries, "message") {
                    Some(v) => match v {
                        DocValue::Text(s) => s,
                        _ => {
                            return Err(DecodeError::Shape);
                        },
                    },
                    None => {
                        return Err(DecodeError::MissingField { accepted: field_list1("message") });
                    },
                };
                Ok(Status { code, message })
            },
            _ => Err(DecodeError::Shape),
        }
    }

    /// The document node of this status.
    pub fn encode(&self) -> (r: DocValue)
        ensures
            r@ == encode_status(self@),
    {
        let mut entries: Vec<(String, DocValue)> = Vec::new();
        entries.push(("code".to_owned(), DocValue::UInt(self.code as u64)));
        entries.push(("message".to_owned(), DocValue::Text(self.message.clone())));
        proof {
            lemma_doc_entries_view(entries@);
            assert(doc_entries_view(entries@) =~= encode_status(self@)->Obj_0);
        }
        DocValue::Obj(entries)
    }
}

impl Request {
    /// Decodes a request record from a document node; fields are found by
    /// name, unknown names are ignored; the exact result is
    /// [`decode_request`].
    pub fn decode(d: &DocValue, caps: Capabilities) -> (r: Result<Request, DecodeError>)
        ensures
            request_result_view(r) == decode_request(d@, caps),
    {
        match d {
            DocValue::Obj(entries) => {
                let uri_node = match field_value(entries, "uri") {
                    Some(v) => v,
                    None => {
                        return Err(DecodeError::MissingField { accepted: field_list1("uri") });
                    },
                };
                let uri_text = match uri_node {
                    DocValue::Text(u) => u,
                    _ => {
                        return Err(DecodeError::Shape);
                    },
                };
                let uri = match Uri::parse(uri_text.as_str()) {
                    Ok(u) => u,
                    Err(e) => {
                        return Err(e);
                    },
                };
                let body_node = match field_value(entries, "body") {
                    Some(v) => v,
                    None => {
                        return Err(DecodeError::MissingField { accepted: field_list1("body") });
                    },
                };
                let body = match Body::decode(body_node, caps) {
                    Ok(b) => b,
                    Err(e) => {
                        return Err(e);
                    },
                };
                let method_node = match field_value(entries, "method") {
                    Some(v) => v,
                    None => {
                        return Err(DecodeError::MissingField { accepted: field_list1("method") });
                    },
                };
                let method = match method_node {
                    DocValue::Text(m) => Method::from_text(m.as_str()),
                    _ => {
                        return Err(DecodeError::Shape);
                    },
                };
                let headers_node = match field_value(entries, "headers") {
                    Some(v) => v,
                    None => {
                        return Err(DecodeError::MissingField { accepted: field_list1("headers") });
                    },
                };
                let headers = match headers_from_doc(&headers_node) {
                    Ok(h) => h,
                    Err(e) => {
                        return Err(e);
                    },
                };
                Ok(Request { uri, body, method, headers })
            },
            _ => Err(DecodeError::Shape),
        }
    }

    /// The document node of this request: `uri`, `body`, `method`,
    /// `headers`, in that order.
    pub fn encode(&self) -> (r: DocValue)
        ensures
            r@ == encode_request(self@),
    {
        let mut entries: Vec<(String, DocValue)> = Vec::new();
        entries.push(("uri".to_owned(), DocValue::Text(self.uri.as_str().to_owned())));
        entries.push(("body".to_owned(), self.body.encode()));
        entries.push(("method".to_owned(), DocValue::Text(self.method.to_doc_text())));
        entries.push(("headers".to_owned(), headers_to_doc(&self.headers)));
        proof {
            lemma_doc_entries_view(entries@);
            assert(doc_entries_view(entries@) =~= encode_request(self@)->Obj_0);
        }
        DocValue::Obj(entries)
    }
}

impl Response {
    /// Decodes a response record from a document node; fields are found by
    /// name, unknown names are ignored; the exact result is
    /// [`decode_response`].
    pub fn decode(d: &DocValue, caps: Capabilities) -> (r: Result<Response, DecodeError>)
        ensures
            response_result_view(r) == decode_response(d@, caps),
    {
        match d {
            DocValue::Obj(entries) => {
                let body_node = match field_value(entries, "body") {
                    Some(v) => v,
                    None => {
                        return Err(DecodeError::MissingField { accepted: field_list1("body") });
                    },
                };
                let body = match Body::decode(body_node, caps) {
                    Ok(b) => b,
                    Err(e) => {
                        return Err(e);
                    },
                };
                let http_version: Option<Version> = match field_value(entries, "http_version") {
                    None => None,
                    Some(v) => match v {
                        DocValue::Null => None,
                        DocValue::Text(s) => match Version::from_text(s.as_str()) {
                            Some(ver) => Some(ver),
                            None => {
                                return Err(DecodeError::InvalidVersion { text: s });
                            },
                        },
                        _ => {
                            return Err(DecodeError::Shape);
                        },
                    },
                };
                let status_node = match field_value(entries, "status") {
                    Some(v) => v,
                    None => {
                        return Err(DecodeError::MissingField { accepted: field_list1("status") });
                    },
                };
                let status = match Status::decode(&status_node) {
                    Ok(s) => s,
                    Err(e) => {
                        return Err(e);
                    },
                };
                let headers_node = match field_value(entries, "headers") {
                    Some(v) => v,
                    None => {
                        return Err(DecodeError::MissingField { accepted: field_list1("headers") });
                    },
                };
                let headers = match headers_from_doc(&headers_node) {
                    Ok(h) => h,
                    Err(e) => {
                        return Err(e);
                    },
                };
                Ok(Response { body, http_version, status, headers })
            },
            _ => Err(DecodeError::Shape),
        }
    }

    /// The document node of this response: `body`, `http_version` (null
    /// when absent), `status`, `headers`, in that order.
    pub fn encode(&self) -> (r: DocValue)
        ensures
            r@ == encode_response(self@),
    {
        let mut entries: Vec<(String, DocValue)> = Vec::new();
        entries.push(("body".to_owned(), self.body.encode()));
        let version_node = match &self.http_version {
            Some(v) => DocValue::Text(v.as_str().to_owned()),
            None => DocValue::Null,
        };
        entries.push(("http_version".to_owned(), version_node));
        entries.push(("status".to_owned(), self.status.encode()));
        entries.push(("headers".to_owned(), headers_to_doc(&self.headers)));
        proof {
            lemma_doc_entries_view(entries@);
            assert(doc_entries_view(entries@) =~= encode_response(self@)->Obj_0);
        }
        DocValue::Obj(entries)
    }
}

impl HttpInteraction {
    /// Decodes one interaction record from a document node; the exact
    /// result is [`decode_interaction`].
    pub fn decode(d: &DocValue, caps: Capabilities) -> (r: Result<HttpInteraction, DecodeError>)
        ensures
            interaction_result_view(r) == decode_interaction(d@, caps),
    {
        match d {
            DocValue::Obj(entries) => {
                let response_node = match field_value(entries, "response") {
                    Some(v) => v,
                    None => {
                        return Err(
                            DecodeError::MissingField { accepted: field_list1("response") },
                        );
                    },
                };
                let response = match Response::decode(&response_node, caps) {
                    Ok(p) => p,
                    Err(e) => {
                        return Err(e);
                    },
                };
                let request_node = match field_value(entries, "request") {
                    Some(v) => v,
                    None => {
                        return Err(DecodeError::MissingField { accepted: field_list1("request") });
                    },
                };
                let request = match Request::decode(&request_node, caps) {
                    Ok(q) => q,
                    Err(e) => {
                        return Err(e);
                    },
                };
                let time_node = match field_value(entries, "recorded_at") {
                    Some(v) => v,
                    None => {
                        return Err(
                            DecodeError::MissingField { accepted: field_list1("recorded_at") },
                        );
                    },
                };
                let recorded_at = match time_node {
                    DocValue::Text(t) => match Timestamp::parse(t.as_str()) {
                        Ok(ts) => ts,
                        Err(e) => {
                            return Err(e);
                        },
                    },
                    _ => {
                        return Err(DecodeError::Shape);
                    },
                };
                Ok(HttpInteraction { response, request, recorded_at })
            },
            _ => Err(DecodeError::Shape),
        }
    }

    /// The document node of this interaction: `response`, `request`,
    /// `recorded_at`, in that order.
    pub fn encode(&self) -> (r: DocValue)
        ensures
            r@ == encode_interaction(self@),
    {
        let mut entries: Vec<(String, DocValue)> = Vec::new();
        entries.push(("response".to_owned(), self.response.encode()));
        entries.push(("request".to_owned(), self.request.encode()));
        entries.push(
            ("recorded_at".to_owned(), DocValue::Text(self.recorded_at.as_str().to_owned())),
        );
        proof {
            lemma_doc_entries_view(entries@);
            assert(doc_entries_view(entries@) =~= encode_interaction(self@)->Obj_0);
        }
        DocValue::Obj(entries)
    }
}

impl Cassette {
    /// Decodes a full archive from a document node; the exact result is
    /// [`decode_cassette`].
    #[verifier::loop_isolation(false)]
    pub fn decode(d: &DocValue, caps: Capabilities) -> (r: Result<Cassette, DecodeError>)
        ensures
            cassette_result_view(r) == decode_cassette(d@, caps),
    {
        match d {
            DocValue::Obj(entries) => {
                let list_node = match field_value(entries, "http_interactions") {
                    Some(v) => v,
                    None => {
                        return Err(
                            DecodeError::MissingField {
                                accepted: field_list1("http_interactions"),
                            },
                        );
                    },
                };
                let http_interactions = match list_node {
                    DocValue::Arr(items) => {
                        let ghost s_view = doc_seq_view(items@);
                        proof {
                            lemma_doc_seq_view(items@);
                        }
                        let mut out: Vec<HttpInteraction> = Vec::new();
                        let mut i: usize = 0;
                        while i < items.len()
                            invariant
                                0 <= i <= items@.len(),
                                out@.len() == i,
                                forall|j: int|
                                    0 <= j < i ==> decode_interaction(
                                        #[trigger] s_view[j],
                                        caps,
                                    ) is Ok,
                                forall|j: int|
                                    0 <= j < i ==> #[trigger] out.deep_view()[j]
                                        == decode_interaction(s_view[j], caps)->Ok_0,
                            decreases items@.len() - i,
                        {
                            let ghost out_before = out.deep_view();
                            match HttpInteraction::decode(&items[i], caps) {
                                Ok(one) => {
                                    out.push(one);
                                },
                                Err(e) => {
                                    proof {
                                        assert(decode_interaction(s_view[i as int], caps) is Err);
                                        lemma_decode_interactions_err(s_view, caps, i as int);
                                    }
                                    return Err(e);
                                },
                            }
                            proof {
                                assert forall|j: int|
                                    0 <= j < i + 1 implies #[trigger] out.deep_view()[j]
                                    == decode_interaction(s_view[j], caps)->Ok_0 by {
                                    if j < i {
                                        assert(out.deep_view()[j] == out_before[j]);
                                    }
                                }
                            }
                            i = i + 1;
                        }
                        proof {
                            lemma_decode_interactions_ok(s_view, caps);
                            assert(out.deep_view() =~= decode_interactions(s_view, caps)->Ok_0);
                        }
                        out
                    },
                    _ => {
                        return Err(DecodeError::Shape);
                    },
                };
                let recorded_with = match field_value(entries, "recorded_with") {
                    Some(v) => match v {
                        DocValue::Text(s) => s,
                        _ => {
                            return Err(DecodeError::Shape);
                        },
                    },
                    None => {
                        return Err(
                            DecodeError::MissingField { accepted: field_list1("recorded_with") },
                        );
                    },
                };
                Ok(Cassette { http_interactions, recorded_with })
            },
            _ => Err(DecodeError::Shape),
        }
    }

    /// The document node of this archive: `http_interactions` then
    /// `recorded_with`.
    #[verifier::loop_isolation(false)]
    pub fn encode(&self) -> (r: DocValue)
        ensures
            r@ == encode_cassette(self@),
    {
        let mut items: Vec<DocValue> = Vec::new();
        let mut i: usize = 0;
        while i < self.http_interactions.len()
            invariant
                0 <= i <= self.http_interactions@.len(),
                items@.len() == i,
                forall|j: int|
                    0 <= j < i ==> doc_view(#[trigger] items@[j]) == encode_interaction(
                        self.http_interactions.deep_view()[j],
                    ),
            decreases self.http_interactions@.len() - i,
        {
            let node = self.http_interactions[i].encode();
            items.push(node);
            i = i + 1;
        }
        proof {
            lemma_doc_seq_view(items@);
            assert(doc_seq_view(items@) =~= encode_interactions(
                self.http_interactions.deep_view(),
            ));
        }
        let mut entries: Vec<(String, DocValue)> = Vec::new();
        entries.push(("http_interactions".to_owned(), DocValue::Arr(items)));
        entries.push(("recorded_with".to_owned(), DocValue::Text(self.recorded_with.clone())));
        proof {
            lemma_doc_entries_view(entries@);
            assert(doc_entries_view(entries@) =~= encode_cassette(self@)->Obj_0);
        }
        DocValue::Obj(entries)
    }
}

/// The view of a status decode result.
pub open spec fn status_result_view(r: Result<Status, DecodeError>) -> Result<
    StatusView,
    ErrView,
> {
    match r {
        Ok(s) => Ok(s@),
        Err(e) => Err(e@),
    }
}

/// The view of a request decode result.
pub open spec fn request_result_view(r: Result<Request, DecodeError>) -> Result<
    RequestView,
    ErrView,
> {
    match r {
        Ok(q) => Ok(q@),
        Err(e) => Err(e@),
    }
}

/// The view of a response decode result.
pub open spec fn response_result_view(r: Result<Response, DecodeError>) -> Result<
    ResponseView,
    ErrView,
> {
    match r {
        Ok(p) => Ok(p@),
        Err(e) => Err(e@),
    }
}

/// The view of an interaction decode result.
pub open spec fn interaction_result_view(r: Result<HttpInteraction, DecodeError>) -> Result<
    InteractionView,
    ErrView,
> {
    match r {
        Ok(i) => Ok(i@),
        Err(e) => Err(e@),
    }
}

/// The view of a cassette decode result.
pub open spec fn cassette_result_view(r: Result<Cassette, DecodeError>) -> Result<
    CassetteView,
    ErrView,
> {
    match r {
        Ok(cst) => Ok(cst@),
        Err(e) => Err(e@),
    }
}

} // verus!
