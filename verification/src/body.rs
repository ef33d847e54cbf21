//! The HTTP body value: a discriminated union over four wire shapes, its
//! decode/encode logic over the structured-document model, and the
//! asymmetric equivalence relation used during playback lookup.

use vstd::prelude::*;

use crate::doc::DocValue;
use crate::doc::DocView;
use crate::doc::doc_entries_view;
use crate::doc::doc_seq_view;
use crate::doc::doc_view;
use crate::doc::json_text;
use crate::doc::lemma_doc_entries_view;
use crate::doc::lemma_doc_seq_view;
use crate::doc::opt_string_eq;
use crate::doc::str_eq;
use crate::doc::string_eq;
use crate::errors::DecodeError;
use crate::errors::ErrView;
use crate::matcher::BodyMatcher;
use crate::matcher::CheckedRegex;
use crate::matcher::MatcherView;
use crate::matcher::all_match;
use crate::matcher::all_matchers_match;
use crate::matcher::regex_compiles;

verus! {

/// The optional body shapes that a build of the embedding application has
/// enabled.  The decoder accepts the matcher-list shape only when `matching`
/// is set and the structured-body shape only when `json` is set, and the
/// field sets it reports in errors are computed from these switches.
#[derive(Clone, Copy)]
pub struct Capabilities {
    /// Whether the matcher-list body shape is enabled.
    pub matching: bool,
    /// Whether the structured-document body shape is enabled.
    pub json: bool,
}

/// A recorded HTTP body, in one of four mutually exclusive shapes.
pub enum Body {
    /// A bare text body; appears in the document as a text scalar.
    PlainText(String),
    /// A text body tagged with an optional encoding name; appears as a map
    /// with keys `string` and `encoding`.
    EncodedText {
        /// The manner in which the text was encoded, if any.
        encoding: Option<String>,
        /// The encoded text.
        string: String,
    },
    /// A list of matching rules; appears as a map whose only key is
    /// `matches`.
    Matchers(Vec<BodyMatcher>),
    /// A full structured-document body; appears as a map whose only key is
    /// `json`.
    Json(DocValue),
}

/// The mathematical shape of a body.
pub enum BodyView {
    /// See [`Body::PlainText`].
    PlainText(Seq<char>),
    /// See [`Body::EncodedText`].
    EncodedText { encoding: Option<Seq<char>>, string: Seq<char> },
    /// See [`Body::Matchers`].
    Matchers(Seq<MatcherView>),
    /// See [`Body::Json`].
    Json(DocView),
}

impl View for Body {
    type V = BodyView;

    open spec fn view(&self) -> BodyView {
        match self {
            Body::PlainText(s) => BodyView::PlainText(s@),
            Body::EncodedText { encoding, string } => BodyView::EncodedText {
                encoding: encoding.deep_view(),
                string: string@,
            },
            Body::Matchers(ms) => BodyView::Matchers(ms.deep_view()),
            Body::Json(v) => BodyView::Json(doc_view(*v)),
        }
    }
}

impl DeepView for Body {
    type V = BodyView;

    open spec fn deep_view(&self) -> BodyView {
        self.view()
    }
}

/// The discriminator keys the decoder accepts under the given capability
/// set, in the order it reports them.
pub open spec fn accepted_fields(c: Capabilities) -> Seq<Seq<char>> {
    let base = seq!["encoding"@, "string"@];
    let with_matching = if c.matching {
        base.push("matches"@)
    } else {
        base
    };
    if c.json {
        with_matching.push("json"@)
    } else {
        with_matching
    }
}

/// Decoding an optional text value: the null scalar is an absent text, a
/// text scalar is a present one, and any other node is a shape mismatch.
pub open spec fn decode_opt_text(v: DocView) -> Result<Option<Seq<char>>, ErrView> {
    match v {
        DocView::Null => Ok(None),
        DocView::Text(s) => Ok(Some(s)),
        _ => Err(ErrView::Shape),
    }
}

/// Decoding one matching rule from a document node: a map with the single
/// entry `substring` (a text) or `regex` (a text that must compile).
pub open spec fn decode_matcher(d: DocView) -> Result<MatcherView, ErrView> {
    match d {
        DocView::Obj(entries) => if entries.len() == 0 {
            Err(ErrView::MissingField { accepted: seq!["substring"@, "regex"@] })
        } else {
            let k = entries[0].0;
            let v = entries[0].1;
            if k == "substring"@ {
                match v {
                    DocView::Text(s) => if entries.len() > 1 {
                        Err(
                            ErrView::UnrecognizedField {
                                field: entries[1].0,
                                accepted: Seq::empty(),
                            },
                        )
                    } else {
                        Ok(MatcherView::Substring(s))
                    },
                    _ => Err(ErrView::Shape),
                }
            } else if k == "regex"@ {
                match v {
                    DocView::Text(p) => if !regex_compiles(p) {
                        Err(ErrView::PatternSyntax { pattern: p })
                    } else if entries.len() > 1 {
                        Err(
                            ErrView::UnrecognizedField {
                                field: entries[1].0,
                                accepted: Seq::empty(),
                            },
                        )
                    } else {
                        Ok(MatcherView::Regex(p))
                    },
                    _ => Err(ErrView::Shape),
                }
            } else {
                Err(ErrView::UnrecognizedField { field: k, accepted: seq!["substring"@, "regex"@] })
            }
        },
        _ => Err(ErrView::Shape),
    }
}

/// Decoding a sequence of matching rules, left to right; the first failing
/// element decides the error.
pub open spec fn decode_matchers(s: Seq<DocView>) -> Result<Seq<MatcherView>, ErrView>
    decreases s.len(),
{
    if s.len() == 0 {
        Ok(Seq::empty())
    } else {
        match decode_matcher(s[0]) {
            Err(e) => Err(e),
            Ok(m) => match decode_matchers(s.drop_first()) {
                Err(e) => Err(e),
                Ok(rest) => Ok(seq![m] + rest),
            },
        }
    }
}

/// Decoding a body from a map node, discriminating on the first key in
/// encounter order.  Entries beyond the recognized key set are rejected
/// with an unrecognized-field error carrying an empty accepted set.
pub open spec fn decode_body_obj(entries: Seq<(Seq<char>, DocView)>, c: Capabilities) -> Result<
    BodyView,
    ErrView,
> {
    if entries.len() == 0 {
        Err(ErrView::MissingField { accepted: accepted_fields(c) })
    } else {
        let k0 = entries[0].0;
        let v0 = entries[0].1;
        if k0 == "encoding"@ {
            match decode_opt_text(v0) {
                Err(e) => Err(e),
                Ok(enc) => if entries.len() < 2 {
                    Err(ErrView::MissingField { accepted: seq!["string"@] })
                } else if entries[1].0 != "string"@ {
                    Err(
                        ErrView::UnrecognizedField {
                            field: entries[1].0,
                            accepted: seq!["string"@],
                        },
                    )
                } else {
                    match entries[1].1 {
                        DocView::Text(s) => if entries.len() > 2 {
                            Err(
                                ErrView::UnrecognizedField {
                                    field: entries[2].0,
                                    accepted: Seq::empty(),
                                },
                            )
                        } else {
                            Ok(BodyView::EncodedText { encoding: enc, string: s })
                        },
                        _ => Err(ErrView::Shape),
                    }
                },
            }
        } else if k0 == "string"@ {
            match v0 {
                DocView::Text(s) => if entries.len() < 2 {
                    Err(ErrView::MissingField { accepted: seq!["encoding"@] })
                } else if entries[1].0 != "encoding"@ {
                    Err(
                        ErrView::UnrecognizedField {
                            field: entries[1].0,
                            accepted: seq!["encoding"@],
                        },
                    )
                } else {
                    match decode_opt_text(entries[1].1) {
                        Err(e) => Err(e),
                        Ok(enc) => if entries.len() > 2 {
                            Err(
                                ErrView::UnrecognizedField {
                                    field: entries[2].0,
                                    accepted: Seq::empty(),
                                },
                            )
                        } else {
                            Ok(BodyView::EncodedText { encoding: enc, string: s })
                        },
                    }
                },
                _ => Err(ErrView::Shape),
            }
        } else if c.matching && k0 == "matches"@ {
            match v0 {
                DocView::Arr(items) => match decode_matchers(items) {
                    Err(e) => Err(e),
                    Ok(ms) => if entries.len() > 1 {
                        Err(
                            ErrView::UnrecognizedField {
                                field: entries[1].0,
                                accepted: Seq::empty(),
                            },
                        )
                    } else {
                        Ok(BodyView::Matchers(ms))
                    },
                },
                _ => Err(ErrView::Shape),
            }
        } else if c.json && k0 == "json"@ {
            if entries.len() > 1 {
                Err(ErrView::UnrecognizedField { field: entries[1].0, accepted: Seq::empty() })
            } else {
                Ok(BodyView::Json(v0))
            }
        } else {
            Err(ErrView::UnrecognizedField { field: k0, accepted: accepted_fields(c) })
        }
    }
}

/// Decoding a body from one document node.  A text scalar always succeeds
/// as a plain-text body; a map is discriminated on its first key; any other
/// node shape is rejected.
pub open spec fn decode_body(d: DocView, c: Capabilities) -> Result<BodyView, ErrView> {
    match d {
        DocView::Text(s) => Ok(BodyView::PlainText(s)),
        DocView::Obj(entries) => decode_body_obj(entries, c),
        _ => Err(ErrView::Shape),
    }
}

/// The document node for one matching rule.
pub open spec fn encode_matcher(m: MatcherView) -> DocView {
    match m {
        MatcherView::Substring(s) => DocView::Obj(seq![("substring"@, DocView::Text(s))]),
        MatcherView::Regex(p) => DocView::Obj(seq![("regex"@, DocView::Text(p))]),
    }
}

/// The document nodes for a list of matching rules, in order.
pub open spec fn encode_matchers(ms: Seq<MatcherView>) -> Seq<DocView> {
    Seq::new(ms.len(), |i: int| encode_matcher(ms[i]))
}

/// The document node for a body.  An encoded text always emits the two
/// entries `string` then `encoding`, in that order; an absent encoding is
/// emitted as the null scalar.
pub open spec fn encode_body(b: BodyView) -> DocView {
    match b {
        BodyView::PlainText(s) => DocView::Text(s),
        BodyView::EncodedText { encoding, string } => DocView::Obj(
            seq![
                ("string"@, DocView::Text(string)),
                (
                    "encoding"@,
                    match encoding {
                        Some(e) => DocView::Text(e),
                        None => DocView::Null,
                    },
                ),
            ],
        ),
        BodyView::Matchers(ms) => DocView::Obj(
            seq![("matches"@, DocView::Arr(encode_matchers(ms)))],
        ),
        BodyView::Json(j) => DocView::Obj(seq![("json"@, j)]),
    }
}

/// Whether a body shape can be produced by the decoder under the given
/// capability set: matcher lists need `matching` (and every
/// regular-expression rule carries a pattern that compiles), structured
/// bodies need `json`.
pub open spec fn body_constructible(b: BodyView, c: Capabilities) -> bool {
    match b {
        BodyView::PlainText(_) => true,
        BodyView::EncodedText { .. } => true,
        BodyView::Matchers(ms) => c.matching && forall|i: int|
            0 <= i < ms.len() ==> (#[trigger] ms[i] matches MatcherView::Regex(p)
                ==> regex_compiles(p)),
        BodyView::Json(_) => c.json,
    }
}

/// The recorded-matches-observed relation over two bodies: a deliberately
/// asymmetric rule table.  A structured body on the left defers to the
/// mirrored pair; the mirrored pair of two structured bodies has no rule of
/// its own, and like every combination without a rule it is false.
pub open spec fn body_equiv(a: BodyView, b: BodyView) -> bool {
    match a {
        BodyView::PlainText(s) => match b {
            BodyView::PlainText(o) => s == o,
            BodyView::EncodedText { encoding, string } => encoding is None && s == string,
            BodyView::Matchers(ms) => all_matchers_match(ms, s),
            BodyView::Json(j) => json_text(j) == s,
        },
        BodyView::EncodedText { encoding, string } => match b {
            BodyView::PlainText(o) => encoding is None && string == o,
            BodyView::EncodedText { encoding: e2, string: s2 } => encoding == e2 && string == s2,
            BodyView::Matchers(_) => false,
            BodyView::Json(_) => false,
        },
        BodyView::Matchers(ms) => match b {
            BodyView::PlainText(s) => all_matchers_match(ms, s),
            BodyView::EncodedText { .. } => false,
            BodyView::Matchers(_) => false,
            BodyView::Json(j) => all_matchers_match(ms, json_text(j)),
        },
        BodyView::Json(j) => match b {
            BodyView::PlainText(s) => json_text(j) == s,
            BodyView::EncodedText { .. } => false,
            BodyView::Matchers(ms) => all_matchers_match(ms, json_text(j)),
            BodyView::Json(_) => false,
        },
    }
}

/// The diagnostic rendering of one matching rule.
pub open spec fn matcher_render(m: MatcherView) -> Seq<char> {
    match m {
        MatcherView::Substring(s) => "substring("@ + s + ")"@,
        MatcherView::Regex(p) => "regex("@ + p + ")"@,
    }
}

/// The diagnostic rendering of a list of matching rules, comma-separated.
pub open spec fn matchers_render(ms: Seq<MatcherView>) -> Seq<char>
    decreases ms.len(),
{
    if ms.len() == 0 {
        Seq::empty()
    } else if ms.len() == 1 {
        matcher_render(ms[0])
    } else {
        matcher_render(ms[0]) + ", "@ + matchers_render(ms.drop_first())
    }
}

/// The human-readable rendering of a body, for diagnostics: plain text
/// renders as itself; encoded text as `(encoding)text` when an encoding is
/// present, else as the text; a matcher list as its bracketed rule list; a
/// structured body as its compact textual document form.
pub open spec fn body_render(b: BodyView) -> Seq<char> {
    match b {
        BodyView::PlainText(s) => s,
        BodyView::EncodedText { encoding, string } => match encoding {
            Some(e) => "("@ + e + ")"@ + string,
            None => string,
        },
        BodyView::Matchers(ms) => "["@ + matchers_render(ms) + "]"@,
        BodyView::Json(j) => json_text(j),
    }
}

/// The view of a decode result.
pub open spec fn body_result_view(r: Result<Body, DecodeError>) -> Result<BodyView, ErrView> {
    match r {
        Ok(b) => Ok(b@),
        Err(e) => Err(e@),
    }
}

/// The view of a matcher decode result.
pub open spec fn matcher_result_view(r: Result<BodyMatcher, DecodeError>) -> Result<
    MatcherView,
    ErrView,
> {
    match r {
        Ok(m) => Ok(m@),
        Err(e) => Err(e@),
    }
}

/// The view of a matcher-list decode result.
pub open spec fn matcher_list_result_view(r: Result<Vec<BodyMatcher>, DecodeError>) -> Result<
    Seq<MatcherView>,
    ErrView,
> {
    match r {
        Ok(ms) => Ok(ms.deep_view()),
        Err(e) => Err(e@),
    }
}

/// Every successfully decoded element in a list decodes to the element of
/// the combined result at its position.
proof fn lemma_decode_matchers_ok(s: Seq<DocView>)
    requires
        forall|j: int| 0 <= j < s.len() ==> decode_matcher(s[j]) is Ok,
    ensures
        decode_matchers(s) is Ok,
        decode_matchers(s)->Ok_0.len() == s.len(),
        forall|j: int|
            0 <= j < s.len() ==> decode_matchers(s)->Ok_0[j] == decode_matcher(s[j])->Ok_0,
    decreases s.len(),
{
    if s.len() > 0 {
        assert(decode_matcher(s[0]) is Ok);
        assert(forall|j: int|
            0 <= j < s.drop_first().len() ==> decode_matcher(s.drop_first()[j]) is Ok) by {
            assert(forall|j: int| 0 <= j < s.drop_first().len() ==> s.drop_first()[j] == s[j + 1]);
        }
        lemma_decode_matchers_ok(s.drop_first());
        assert forall|j: int| 0 <= j < s.len() implies decode_matchers(s)->Ok_0[j]
            == decode_matcher(s[j])->Ok_0 by {
            if j > 0 {
                assert(s.drop_first()[j - 1] == s[j]);
            }
        }
    }
}

/// The first failing element of a list decides the error of the combined
/// decode.
proof fn lemma_decode_matchers_err(s: Seq<DocView>, k: int)
    requires
        0 <= k < s.len(),
        decode_matcher(s[k]) is Err,
        forall|j: int| 0 <= j < k ==> decode_matcher(s[j]) is Ok,
    ensures
        decode_matchers(s) == Result::<Seq<MatcherView>, ErrView>::Err(
            decode_matcher(s[k])->Err_0,
        ),
    decreases s.len(),
{
    if k > 0 {
        assert(decode_matcher(s[0]) is Ok);
        assert(s.drop_first()[k - 1] == s[k]);
        assert(forall|j: int| 0 <= j < k - 1 ==> decode_matcher(s.drop_first()[j]) is Ok) by {
            assert(forall|j: int| 0 <= j < k - 1 ==> s.drop_first()[j] == s[j + 1]);
        }
        lemma_decode_matchers_err(s.drop_first(), k - 1);
    }
}

/// The accepted discriminator keys under the given capability set, as
/// owned text.
fn accepted_list(caps: Capabilities) -> (r: Vec<String>)
    ensures
        r.deep_view() == accepted_fields(caps),
{
    let mut v: Vec<String> = Vec::new();
    v.push("encoding".to_owned());
    v.push("string".to_owned());
    if caps.matching {
        v.push("matches".to_owned());
    }
    if caps.json {
        v.push("json".to_owned());
    }
    proof {
        assert(v.deep_view() =~= accepted_fields(caps));
    }
    v
}

/// An empty accepted-field list.
pub(crate) fn field_list0() -> (r: Vec<String>)
    ensures
        r.deep_view() == Seq::<Seq<char>>::empty(),
{
    let v: Vec<String> = Vec::new();
    proof {
        assert(v.deep_view() =~= Seq::<Seq<char>>::empty());
    }
    v
}

/// A one-element accepted-field list.
pub(crate) fn field_list1(a: &str) -> (r: Vec<String>)
    ensures
        r.deep_view() == seq![a@],
{
    let mut v: Vec<String> = Vec::new();
    v.push(a.to_owned());
    proof {
        assert(v.deep_view() =~= seq![a@]);
    }
    v
}

/// A two-element accepted-field list.
pub(crate) fn field_list2(a: &str, b: &str) -> (r: Vec<String>)
    ensures
        r.deep_view() == seq![a@, b@],
{
    let mut v: Vec<String> = Vec::new();
    v.push(a.to_owned());
    v.push(b.to_owned());
    proof {
        assert(v.deep_view() =~= seq![a@, b@]);
    }
    v
}

impl BodyMatcher {
    /// Decodes one matching rule from a document node: a map with the
    /// single entry `substring` or `regex`.  A regular expression is
    /// compiled eagerly here; an invalid pattern fails the decode.
    pub fn decode(d: DocValue) -> (r: Result<BodyMatcher, DecodeError>)
        ensures
            matcher_result_view(r) == decode_matcher(d@),
    {
        match d {
            DocValue::Obj(mut entries) => {
                let ghost ents0 = entries@;
                let ghost e_view = doc_entries_view(ents0);
                proof {
                    lemma_doc_entries_view(ents0);
                }
                if entries.len() == 0 {
                    return Err(
                        DecodeError::MissingField { accepted: field_list2("substring", "regex") },
                    );
                }
                let kv0 = entries.remove(0);
                if str_eq(kv0.0.as_str(), "substring") {
                    match kv0.1 {
                        DocValue::Text(s) => {
                            if entries.len() > 0 {
                                let kv1 = entries.remove(0);
                                proof {
                                    assert(kv1 == ents0[1]);
                                }
                                return Err(
                                    DecodeError::UnrecognizedField {
                                        field: kv1.0,
                                        accepted: field_list0(),
                                    },
                                );
                            }
                            Ok(BodyMatcher::Substring(s))
                        },
                        _ => Err(DecodeError::Shape),
                    }
                } else if str_eq(kv0.0.as_str(), "regex") {
                    match kv0.1 {
                        DocValue::Text(p) => {
                            let compiled = match CheckedRegex::new(p.as_str()) {
                                Ok(c) => c,
                                Err(e) => {
                                    return Err(e);
                                },
                            };
                            if entries.len() > 0 {
                                let kv1 = entries.remove(0);
                                proof {
                                    assert(kv1 == ents0[1]);
                                }
                                return Err(
                                    DecodeError::UnrecognizedField {
                                        field: kv1.0,
                                        accepted: field_list0(),
                                    },
                                );
                            }
                            Ok(BodyMatcher::Regex(compiled))
                        },
                        _ => Err(DecodeError::Shape),
                    }
                } else {
                    Err(
                        DecodeError::UnrecognizedField {
                            field: kv0.0,
                            accepted: field_list2("substring", "regex"),
                        },
                    )
                }
            },
            _ => Err(DecodeError::Shape),
        }
    }

    /// The document node for this rule.
    pub fn encode(&self) -> (r: DocValue)
        ensures
            r@ == encode_matcher(self@),
    {
        match self {
            BodyMatcher::Substring(s) => {
                let mut entries: Vec<(String, DocValue)> = Vec::new();
                entries.push(("substring".to_owned(), DocValue::Text(s.clone())));
                proof {
                    lemma_doc_entries_view(entries@);
                    assert(doc_entries_view(entries@) =~= seq![
                        ("substring"@, DocView::Text(s@)),
                    ]);
                }
                DocValue::Obj(entries)
            },
            BodyMatcher::Regex(re) => {
                let mut entries: Vec<(String, DocValue)> = Vec::new();
                entries.push(("regex".to_owned(), DocValue::Text(re.as_str().to_owned())));
                proof {
                    lemma_doc_entries_view(entries@);
                    assert(doc_entries_view(entries@) =~= seq![("regex"@, DocView::Text(re@))]);
                }
                DocValue::Obj(entries)
            },
        }
    }
}

/// Decodes a sequence of matching rules, left to right; the first failing
/// element decides the error.
#[verifier::loop_isolation(false)]
fn decode_matcher_list(items: Vec<DocValue>) -> (r: Result<Vec<BodyMatcher>, DecodeError>)
    ensures
        matcher_list_result_view(r) == decode_matchers(doc_seq_view(items@)),
{
    let ghost items0 = items@;
    let ghost s_view = doc_seq_view(items0);
    proof {
        lemma_doc_seq_view(items0);
        assert(items0.subrange(0, items0.len() as int) =~= items0);
    }
    let mut rest = items;
    let mut out: Vec<BodyMatcher> = Vec::new();
    while rest.len() > 0
        invariant
            out@.len() + rest@.len() == items0.len(),
            rest@ == items0.subrange(out@.len() as int, items0.len() as int),
            forall|j: int| 0 <= j < out@.len() ==> decode_matcher(#[trigger] s_view[j]) is Ok,
            forall|j: int|
                0 <= j < out@.len() ==> #[trigger] out.deep_view()[j] == decode_matcher(
                    s_view[j],
                )->Ok_0,
        decreases rest@.len(),
    {
        let ghost k = out@.len() as int;
        let d = rest.remove(0);
        proof {
            assert(d == items0[k]);
            assert(rest@ =~= items0.subrange(k + 1, items0.len() as int));
            assert(s_view[k] == doc_view(items0[k]));
            assert(d@ == s_view[k]);
        }
        match BodyMatcher::decode(d) {
            Err(e) => {
                proof {
                    assert(decode_matcher(s_view[k]) is Err);
                    lemma_decode_matchers_err(s_view, k);
                }
                return Err(e);
            },
            Ok(m) => {
                let ghost out_before = out.deep_view();
                out.push(m);
                proof {
                    assert(decode_matcher(s_view[k]) == Result::<MatcherView, ErrView>::Ok(m@));
                    assert(out@[k] == m);
                    assert(out.deep_view()[k] == m@);
                    assert forall|j: int|
                        0 <= j < out@.len() implies decode_matcher(#[trigger] s_view[j]) is Ok
                        && out.deep_view()[j] == decode_matcher(s_view[j])->Ok_0 by {
                        if j < k {
                            assert(out.deep_view()[j] == out_before[j]);
                            assert(decode_matcher(s_view[j]) is Ok);
                        } else {
                            assert(j == k);
                        }
                    }
                }
            },
        }
    }
    proof {
        lemma_decode_matchers_ok(s_view);
        assert(out.deep_view() =~= decode_matchers(s_view)->Ok_0);
    }
    Ok(out)
}

impl Body {
    /// Decodes a body from one document node under the given capability
    /// set.  A text scalar always succeeds as a plain-text body; a map is
    /// discriminated on its first key; any other node shape is rejected.
    /// The exact result, including every error, is given by
    /// [`decode_body`].
    pub fn decode(d: DocValue, caps: Capabilities) -> (r: Result<Body, DecodeError>)
        ensures
            body_result_view(r) == decode_body(d@, caps),
    {
        match d {
            DocValue::Text(s) => Ok(Body::PlainText(s)),
            DocValue::Obj(entries) => Self::decode_obj(entries, caps),
            _ => Err(DecodeError::Shape),
        }
    }

    /// Decodes a body from the entries of a map node.
    fn decode_obj(mut entries: Vec<(String, DocValue)>, caps: Capabilities) -> (r: Result<
        Body,
        DecodeError,
    >)
        ensures
            body_result_view(r) == decode_body_obj(doc_entries_view(entries@), caps),
    {
        let ghost ents0 = entries@;
        let ghost e_view = doc_entries_view(ents0);
        proof {
            lemma_doc_entries_view(ents0);
        }
        if entries.len() == 0 {
            return Err(DecodeError::MissingField { accepted: accepted_list(caps) });
        }
        let kv0 = entries.remove(0);
        let k0 = kv0.0;
        let v0 = kv0.1;
        if str_eq(k0.as_str(), "encoding") {
            let enc: Option<String> = match v0 {
                DocValue::Null => None,
                DocValue::Text(e) => Some(e),
                _ => {
                    return Err(DecodeError::Shape);
                },
            };
            if entries.len() == 0 {
                return Err(DecodeError::MissingField { accepted: field_list1("string") });
            }
            let kv1 = entries.remove(0);
            proof {
                assert(kv1 == ents0[1]);
            }
            if !str_eq(kv1.0.as_str(), "string") {
                return Err(
                    DecodeError::UnrecognizedField {
                        field: kv1.0,
                        accepted: field_list1("string"),
                    },
                );
            }
            let s = match kv1.1 {
                DocValue::Text(s) => s,
                _ => {
                    return Err(DecodeError::Shape);
                },
            };
            if entries.len() > 0 {
                let kv2 = entries.remove(0);
                proof {
                    assert(kv2 == ents0[2]);
                }
                return Err(DecodeError::UnrecognizedField { field: kv2.0, accepted: field_list0() });
            }
            Ok(Body::EncodedText { encoding: enc, string: s })
        } else if str_eq(k0.as_str(), "string") {
            let s = match v0 {
                DocValue::Text(s) => s,
                _ => {
                    return Err(DecodeError::Shape);
                },
            };
            if entries.len() == 0 {
                return Err(DecodeError::MissingField { accepted: field_list1("encoding") });
            }
            let kv1 = entries.remove(0);
            proof {
                assert(kv1 == ents0[1]);
            }
            if !str_eq(kv1.0.as_str(), "encoding") {
                return Err(
                    DecodeError::UnrecognizedField {
                        field: kv1.0,
                        accepted: field_list1("encoding"),
                    },
                );
            }
            let enc: Option<String> = match kv1.1 {
                DocValue::Null => None,
                DocValue::Text(e) => Some(e),
                _ => {
                    return Err(DecodeError::Shape);
                },
            };
            if entries.len() > 0 {
                let kv2 = entries.remove(0);
                proof {
                    assert(kv2 == ents0[2]);
                }
                return Err(DecodeError::UnrecognizedField { field: kv2.0, accepted: field_list0() });
            }
            Ok(Body::EncodedText { encoding: enc, string: s })
        } else if caps.matching && str_eq(k0.as_str(), "matches") {
            match v0 {
                DocValue::Arr(items) => {
                    let ms = match decode_matcher_list(items) {
                        Ok(ms) => ms,
                        Err(e) => {
                            return Err(e);
                        },
                    };
                    if entries.len() > 0 {
                        let kv1 = entries.remove(0);
                        proof {
                            assert(kv1 == ents0[1]);
                        }
                        return Err(
                            DecodeError::UnrecognizedField { field: kv1.0, accepted: field_list0() },
                        );
                    }
                    Ok(Body::Matchers(ms))
                },
                _ => Err(DecodeError::Shape),
            }
        } else if caps.json && str_eq(k0.as_str(), "json") {
            if entries.len() > 0 {
                let kv1 = entries.remove(0);
                proof {
                    assert(kv1 == ents0[1]);
                }
                return Err(DecodeError::UnrecognizedField { field: kv1.0, accepted: field_list0() });
            }
            Ok(Body::Json(v0))
        } else {
            Err(DecodeError::UnrecognizedField { field: k0, accepted: accepted_list(caps) })
        }
    }

    /// The document node for this body, per the stable wire contract: a
    /// plain text emits a text scalar; an encoded text a two-entry map,
    /// `string` then `encoding`; a matcher list and a structured body a
    /// one-entry map.
    #[verifier::loop_isolation(false)]
    pub fn encode(&self) -> (r: DocValue)
        ensures
            r@ == encode_body(self@),
    {
        match self {
            Body::PlainText(s) => DocValue::Text(s.clone()),
            Body::EncodedText { encoding, string } => {
                let mut entries: Vec<(String, DocValue)> = Vec::new();
                entries.push(("string".to_owned(), DocValue::Text(string.clone())));
                let encoding_node = match encoding {
                    Some(e) => DocValue::Text(e.clone()),
                    None => DocValue::Null,
                };
                entries.push(("encoding".to_owned(), encoding_node));
                proof {
                    lemma_doc_entries_view(entries@);
                    assert(doc_entries_view(entries@) =~= encode_body(self@)->Obj_0);
                }
                DocValue::Obj(entries)
            },
            Body::Matchers(ms) => {
                let mut items: Vec<DocValue> = Vec::new();
                let mut i: usize = 0;
                while i < ms.len()
                    invariant
                        items@.len() == i <= ms@.len(),
                        forall|j: int|
                            0 <= j < i ==> doc_view(items@[j]) == encode_matcher(
                                ms.deep_view()[j],
                            ),
                    decreases ms@.len() - i,
                {
                    let node = ms[i].encode();
                    items.push(node);
                    i = i + 1;
                }
                proof {
                    lemma_doc_seq_view(items@);
                    assert(doc_seq_view(items@) =~= encode_matchers(ms.deep_view()));
                }
                let mut entries: Vec<(String, DocValue)> = Vec::new();
                entries.push(("matches".to_owned(), DocValue::Arr(items)));
                proof {
                    lemma_doc_entries_view(entries@);
                    assert(doc_entries_view(entries@) =~= encode_body(self@)->Obj_0);
                }
                DocValue::Obj(entries)
            },
            Body::Json(j) => {
                let mut entries: Vec<(String, DocValue)> = Vec::new();
                entries.push(("json".to_owned(), j.deep_copy()));
                proof {
                    lemma_doc_entries_view(entries@);
                    assert(doc_entries_view(entries@) =~= encode_body(self@)->Obj_0);
                }
                DocValue::Obj(entries)
            },
        }
    }

    /// The recorded-matches-observed decision: whether this body, taken as
    /// the recorded expectation, is satisfied by `other`.  The relation is
    /// not symmetric in general; callers must pass the recorded body as
    /// `self`.  The exact rule table is [`body_equiv`].  The decision never
    /// fails: a non-matching pair simply yields false.
    pub fn is_equivalent_to(&self, other: &Body) -> (r: bool)
        ensures
            r == body_equiv(self@, other@),
    {
        match (self, other) {
            (Body::PlainText(s), Body::PlainText(o)) => string_eq(s, o),
            (Body::PlainText(s), Body::EncodedText { encoding, string }) => match encoding {
                Option::None => string_eq(s, string),
                Option::Some(_) => false,
            },
            (Body::PlainText(s), Body::Matchers(ms)) => all_match(ms, s.as_str()),
            (Body::PlainText(s), Body::Json(j)) => {
                let rendered = j.render();
                string_eq(&rendered, s)
            },
            (Body::EncodedText { encoding, string }, Body::PlainText(o)) => match encoding {
                Option::None => string_eq(string, o),
                Option::Some(_) => false,
            },
            (
                Body::EncodedText { encoding, string },
                Body::EncodedText { encoding: e2, string: s2 },
            ) => {
                let same_encoding = opt_string_eq(encoding, e2);
                same_encoding && string_eq(string, s2)
            },
            (Body::EncodedText { .. }, Body::Matchers(_)) => false,
            (Body::EncodedText { .. }, Body::Json(_)) => false,
            (Body::Matchers(ms), Body::PlainText(s)) => all_match(ms, s.as_str()),
            (Body::Matchers(_), Body::EncodedText { .. }) => false,
            (Body::Matchers(_), Body::Matchers(_)) => false,
            (Body::Matchers(ms), Body::Json(j)) => {
                let rendered = j.render();
                all_match(ms, rendered.as_str())
            },
            (Body::Json(j), Body::PlainText(s)) => {
                let rendered = j.render();
                string_eq(&rendered, s)
            },
            (Body::Json(_), Body::EncodedText { .. }) => false,
            (Body::Json(j), Body::Matchers(ms)) => {
                let rendered = j.render();
                all_match(ms, rendered.as_str())
            },
            (Body::Json(_), Body::Json(_)) => false,
        }
    }
}

/// Appending one rule to a list appends its rendering, preceded by a
/// comma and space when the list was not empty.
proof fn lemma_matchers_render_snoc(s: Seq<MatcherView>, x: MatcherView)
    ensures
        matchers_render(s.push(x)) == if s.len() == 0 {
            matcher_render(x)
        } else {
            matchers_render(s) + ", "@ + matcher_render(x)
        },
    decreases s.len(),
{
    let p = s.push(x);
    if s.len() == 0 {
        assert(p.len() == 1);
        assert(p[0] == x);
        assert(matchers_render(p) =~= matcher_render(x));
    } else if s.len() == 1 {
        assert(p.len() == 2);
        assert(p.drop_first() =~= seq![x]);
        assert(p.drop_first()[0] == x);
        assert(matchers_render(p.drop_first()) =~= matcher_render(x));
        assert(p[0] == s[0]);
        assert(matchers_render(s) =~= matcher_render(s[0]));
        assert(matchers_render(p) =~= matchers_render(s) + ", "@ + matcher_render(x));
    } else {
        assert(p.len() > 2);
        assert(p.drop_first() =~= s.drop_first().push(x));
        lemma_matchers_render_snoc(s.drop_first(), x);
        assert(p[0] == s[0]);
        assert(matcher_render(s[0]) + ", "@ + (matchers_render(s.drop_first()) + ", "@
            + matcher_render(x)) =~= (matcher_render(s[0]) + ", "@ + matchers_render(
            s.drop_first(),
        )) + ", "@ + matcher_render(x));
        assert(matchers_render(p) =~= matchers_render(s) + ", "@ + matcher_render(x));
    }
}

impl Body {
    /// The human-readable rendering of this body, for diagnostics rather
    /// than for the document format; the exact text is [`body_render`].
    #[verifier::loop_isolation(false)]
    pub fn render(&self) -> (r: String)
        ensures
            r@ == body_render(self@),
    {
        match self {
            Body::PlainText(s) => s.clone(),
            Body::EncodedText { encoding, string } => match encoding {
                Option::Some(e) => {
                    let mut out = "(".to_owned();
                    out.append(e.as_str());
                    out.append(")");
                    out.append(string.as_str());
                    out
                },
                Option::None => string.clone(),
            },
            Body::Matchers(ms) => {
                let ghost full = ms.deep_view();
                let mut out = "[".to_owned();
                proof {
                    assert(full.subrange(0, 0) =~= Seq::<MatcherView>::empty());
                    assert("["@ + matchers_render(full.subrange(0, 0)) =~= "["@);
                }
                let mut i: usize = 0;
                while i < ms.len()
                    invariant
                        0 <= i <= ms@.len(),
                        out@ == "["@ + matchers_render(full.subrange(0, i as int)),
                    decreases ms@.len() - i,
                {
                    if i > 0 {
                        out.append(", ");
                    }
                    match &ms[i] {
                        BodyMatcher::Substring(s) => {
                            out.append("substring(");
                            out.append(s.as_str());
                            out.append(")");
                        },
                        BodyMatcher::Regex(re) => {
                            out.append("regex(");
                            out.append(re.as_str());
                            out.append(")");
                        },
                    }
                    proof {
                        let pre = full.subrange(0, i as int);
                        assert(full[i as int] == ms@[i as int]@);
                        assert(full.subrange(0, i + 1 as int) =~= pre.push(full[i as int]));
                        lemma_matchers_render_snoc(pre, full[i as int]);
                        if i > 0 {
                            assert(("["@ + matchers_render(pre) + ", "@) + matcher_render(
                                full[i as int],
                            ) =~= "["@ + matchers_render(pre.push(full[i as int])));
                        } else {
                            assert(pre.len() == 0);
                            assert("["@ + matchers_render(pre) + matcher_render(full[i as int])
                                =~= "["@ + matchers_render(pre.push(full[i as int])));
                        }
                    }
                    i = i + 1;
                }
                proof {
                    assert(full.subrange(0, ms@.len() as int) =~= full);
                }
                out.append("]");
                out
            },
            Body::Json(j) => j.render(),
        }
    }
}

impl core::str::FromStr for Body {
    type Err = core::convert::Infallible;

    /// Wraps any text as a plain-text body; this can never fail.
    fn from_str(s: &str) -> Result<Body, core::convert::Infallible> {
        Ok(Body::PlainText(s.to_owned()))
    }
}

/// Decoding the document node that a body encodes to reproduces the body,
/// for every body shape constructible under the active capability set.
pub proof fn lemma_body_round_trip(b: BodyView, c: Capabilities)
    requires
        body_constructible(b, c),
    ensures
        decode_body(encode_body(b), c) == Result::<BodyView, ErrView>::Ok(b),
{
    reveal_strlit("encoding");
    reveal_strlit("string");
    reveal_strlit("matches");
    reveal_strlit("json");
    assert("encoding"@.len() == 8);
    assert("string"@.len() == 6);
    assert("matches"@.len() == 7);
    assert("json"@.len() == 4);
    match b {
        BodyView::PlainText(_) => {},
        BodyView::EncodedText { encoding, string } => {},
        BodyView::Matchers(ms) => {
            let encoded = encode_matchers(ms);
            assert forall|j: int| 0 <= j < encoded.len() implies decode_matcher(encoded[j]) is Ok
                && decode_matcher(encoded[j])->Ok_0 == ms[j] by {
                assert(ms[j] matches MatcherView::Regex(p) ==> regex_compiles(p));
                lemma_matcher_round_trip(ms[j]);
            }
            lemma_decode_matchers_ok(encoded);
            assert(decode_matchers(encoded)->Ok_0 =~= ms);
        },
        BodyView::Json(_) => {},
    }
}

/// Two matcher-list bodies are never equivalent to one another, whatever
/// rules they hold; likewise two structured bodies.  Only a textual body
/// can satisfy a matcher list, and a structured body compares only through
/// its rendering against textual bodies and matcher lists.
pub proof fn lemma_like_shapes_never_equivalent(
    a: Seq<MatcherView>,
    b: Seq<MatcherView>,
    x: DocView,
    y: DocView,
)
    ensures
        !body_equiv(BodyView::Matchers(a), BodyView::Matchers(b)),
        !body_equiv(BodyView::Json(x), BodyView::Json(y)),
{
}

/// Decoding the document node that one matching rule encodes to reproduces
/// the rule, provided a regular-expression rule carries a pattern that
/// compiles.
pub proof fn lemma_matcher_round_trip(m: MatcherView)
    requires
        m matches MatcherView::Regex(p) ==> regex_compiles(p),
    ensures
        decode_matcher(encode_matcher(m)) == Result::<MatcherView, ErrView>::Ok(m),
{
    reveal_strlit("substring");
    reveal_strlit("regex");
    assert("substring"@.len() == 9);
    assert("regex"@.len() == 5);
}

} // verus!

