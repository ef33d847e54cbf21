//! The abstract structured-document model: scalars, sequences and maps, the
//! shape in which archive documents reach and leave this library.  Map
//! entries keep the order in which the document reader encountered them.

use vstd::prelude::*;
use vstd::string::StrSliceExecFns;
use vstd::string::StringExecFns;

verus! {

/// Whether two texts are the same sequence of characters.
pub fn str_eq(a: &str, b: &str) -> (r: bool)
    ensures
        r == (a@ == b@),
{
    let la = a.unicode_len();
    let lb = b.unicode_len();
    if la != lb {
        return false;
    }
    let mut i: usize = 0;
    while i < la
        invariant
            0 <= i <= la,
            la as nat == a@.len(),
            lb as nat == b@.len(),
            la == lb,
            forall|j: int| 0 <= j < i ==> a@[j] == b@[j],
        decreases la - i,
    {
        if a.get_char(i) != b.get_char(i) {
            return false;
        }
        i = i + 1;
    }
    proof {
        assert(a@ =~= b@);
    }
    true
}

/// Whether two owned texts are the same sequence of characters.
pub fn string_eq(a: &String, b: &String) -> (r: bool)
    ensures
        r == (a@ == b@),
{
    a.eq(b)
}

/// Whether two optional texts are both absent or both the same text.
pub fn opt_string_eq(a: &Option<String>, b: &Option<String>) -> (r: bool)
    ensures
        r == (a.deep_view() == b.deep_view()),
{
    match (a, b) {
        (Option::None, Option::None) => true,
        (Option::Some(x), Option::Some(y)) => string_eq(x, y),
        _ => false,
    }
}

/// One structured-document node.  A document map is an ordered list of
/// key/value entries; the reader's encounter order is preserved because the
/// body decoder discriminates on the first key it sees.
pub enum DocValue {
    /// The document null scalar.
    Null,
    /// A boolean scalar.
    Bool(bool),
    /// A signed integer scalar.
    Int(i64),
    /// An unsigned integer scalar too large for `Int`.
    UInt(u64),
    /// A text scalar.
    Text(String),
    /// An ordered sequence of nodes.
    Arr(Vec<DocValue>),
    /// A map of text keys to nodes, in encounter order.
    Obj(Vec<(String, DocValue)>),
}

/// The mathematical shape of a document node.  Signed and unsigned integer
/// scalars both abstract to `Int`, since the document format does not
/// distinguish them.
pub enum DocView {
    /// The document null scalar.
    Null,
    /// A boolean scalar.
    Bool(bool),
    /// An integer scalar.
    Int(int),
    /// A text scalar.
    Text(Seq<char>),
    /// An ordered sequence of nodes.
    Arr(Seq<DocView>),
    /// A map of text keys to nodes, in encounter order.
    Obj(Seq<(Seq<char>, DocView)>),
}

/// The view of a document node.
pub open spec fn doc_view(v: DocValue) -> DocView
    decreases v,
{
    match v {
        DocValue::Null => DocView::Null,
        DocValue::Bool(b) => DocView::Bool(b),
        DocValue::Int(n) => DocView::Int(n as int),
        DocValue::UInt(n) => DocView::Int(n as int),
        DocValue::Text(s) => DocView::Text(s@),
        DocValue::Arr(items) => DocView::Arr(doc_seq_view(items@)),
        DocValue::Obj(entries) => DocView::Obj(doc_entries_view(entries@)),
    }
}

/// The views of the elements of a document sequence, in order.
pub open spec fn doc_seq_view(s: Seq<DocValue>) -> Seq<DocView>
    decreases s,
{
    if s.len() == 0 {
        Seq::empty()
    } else {
        seq![doc_view(s[0])] + doc_seq_view(s.drop_first())
    }
}

/// The views of the entries of a document map, in order.
pub open spec fn doc_entries_view(s: Seq<(String, DocValue)>) -> Seq<(Seq<char>, DocView)>
    decreases s,
{
    if s.len() == 0 {
        Seq::empty()
    } else {
        seq![(s[0].0@, doc_view(s[0].1))] + doc_entries_view(s.drop_first())
    }
}

/// `doc_seq_view` is the element-wise view: it keeps the length and views
/// each element in place.
pub proof fn lemma_doc_seq_view(s: Seq<DocValue>)
    ensures
        doc_seq_view(s).len() == s.len(),
        forall|i: int| 0 <= i < s.len() ==> doc_seq_view(s)[i] == doc_view(s[i]),
    decreases s.len(),
{
    if s.len() > 0 {
        lemma_doc_seq_view(s.drop_first());
    }
}

/// `doc_entries_view` is the entry-wise view: it keeps the length and views
/// each key/value entry in place.
pub proof fn lemma_doc_entries_view(s: Seq<(String, DocValue)>)
    ensures
        doc_entries_view(s).len() == s.len(),
        forall|i: int| 0 <= i < s.len() ==> doc_entries_view(s)[i] == (s[i].0@, doc_view(s[i].1)),
    decreases s.len(),
{
    if s.len() > 0 {
        lemma_doc_entries_view(s.drop_first());
    }
}

impl View for DocValue {
    type V = DocView;

    open spec fn view(&self) -> DocView {
        doc_view(*self)
    }
}

impl DeepView for DocValue {
    type V = DocView;

    open spec fn deep_view(&self) -> DocView {
        doc_view(*self)
    }
}

/// The compact JSON text of a text scalar: quoted and escaped.
///
/// This names the result of `serde_json::to_string` on a text value; the
/// escaping rules take pages to state, so only the name is given and
/// `json_quote` is trusted to return it.
pub uninterp spec fn json_quoted(s: Seq<char>) -> Seq<char>;

/// Relies on `serde_json::to_string` applied to a text scalar: it returns
/// the quoted, escaped JSON string literal for the text, a function of the
/// text alone.  Serializing a bare string cannot fail, so the error branch
/// of `to_string` is never taken.
#[verifier::external_body]
fn json_quote(s: &str) -> (r: String)
    ensures
        r@ == json_quoted(s@),
{
    serde_json::to_string(s).unwrap_or_default()
}

/// The decimal text of a digit, `0` through `9`.
pub open spec fn digit_text(d: nat) -> Seq<char> {
    if d == 0 {
        "0"@
    } else if d == 1 {
        "1"@
    } else if d == 2 {
        "2"@
    } else if d == 3 {
        "3"@
    } else if d == 4 {
        "4"@
    } else if d == 5 {
        "5"@
    } else if d == 6 {
        "6"@
    } else if d == 7 {
        "7"@
    } else if d == 8 {
        "8"@
    } else {
        "9"@
    }
}

/// The decimal text of a natural number, most significant digit first, with
/// no leading zeros (except for the number zero itself).
pub open spec fn dec_text(n: nat) -> Seq<char>
    decreases n,
{
    if n < 10 {
        digit_text(n)
    } else {
        dec_text(n / 10) + digit_text(n % 10)
    }
}

/// The decimal text of an integer: a minus sign for negative values,
/// followed by the decimal text of the magnitude.
pub open spec fn int_text(i: int) -> Seq<char> {
    if i < 0 {
        "-"@ + dec_text((-i) as nat)
    } else {
        dec_text(i as nat)
    }
}

/// The compact textual document form of a node: JSON with no extra
/// whitespace, exactly as the document serializer emits it.
pub open spec fn json_text(v: DocView) -> Seq<char>
    decreases v,
{
    match v {
        DocView::Null => "null"@,
        DocView::Bool(b) => if b {
            "true"@
        } else {
            "false"@
        },
        DocView::Int(i) => int_text(i),
        DocView::Text(s) => json_quoted(s),
        DocView::Arr(items) => "["@ + arr_text(items) + "]"@,
        DocView::Obj(entries) => "{"@ + obj_text(entries) + "}"@,
    }
}

/// The comma-separated rendering of the elements of a sequence node.
pub open spec fn arr_text(s: Seq<DocView>) -> Seq<char>
    decreases s,
{
    if s.len() == 0 {
        Seq::empty()
    } else if s.len() == 1 {
        json_text(s[0])
    } else {
        json_text(s[0]) + ","@ + arr_text(s.drop_first())
    }
}

/// The rendering of one map entry: quoted key, colon, value.
pub open spec fn entry_text(e: (Seq<char>, DocView)) -> Seq<char>
    decreases e,
{
    json_quoted(e.0) + ":"@ + json_text(e.1)
}

/// The comma-separated rendering of the entries of a map node.
pub open spec fn obj_text(s: Seq<(Seq<char>, DocView)>) -> Seq<char>
    decreases s,
{
    if s.len() == 0 {
        Seq::empty()
    } else if s.len() == 1 {
        entry_text(s[0])
    } else {
        entry_text(s[0]) + ","@ + obj_text(s.drop_first())
    }
}

/// Appending one element to a sequence appends its rendering, preceded by a
/// comma when the sequence was not empty.
pub proof fn lemma_arr_text_snoc(s: Seq<DocView>, x: DocView)
    ensures
        arr_text(s.push(x)) == if s.len() == 0 {
            json_text(x)
        } else {
            arr_text(s) + ","@ + json_text(x)
        },
    decreases s.len(),
{
    let p = s.push(x);
    if s.len() == 0 {
        assert(p.len() == 1);
        assert(p[0] == x);
        assert(arr_text(p) =~= json_text(x));
    } else if s.len() == 1 {
        assert(p.len() == 2);
        assert(p.drop_first() =~= seq![x]);
        assert(p.drop_first()[0] == x);
        assert(arr_text(p.drop_first()) =~= json_text(x));
        assert(p[0] == s[0]);
        assert(arr_text(s) =~= json_text(s[0]));
        assert(arr_text(p) =~= arr_text(s) + ","@ + json_text(x));
    } else {
        assert(p.len() > 2);
        assert(p.drop_first() =~= s.drop_first().push(x));
        lemma_arr_text_snoc(s.drop_first(), x);
        assert(p[0] == s[0]);
        assert(json_text(s[0]) + ","@ + (arr_text(s.drop_first()) + ","@ + json_text(x)) =~= (
        json_text(s[0]) + ","@ + arr_text(s.drop_first())) + ","@ + json_text(x));
        assert(arr_text(p) =~= arr_text(s) + ","@ + json_text(x));
    }
}

/// Appending one entry to a map appends its rendering, preceded by a comma
/// when the map was not empty.
pub proof fn lemma_obj_text_snoc(s: Seq<(Seq<char>, DocView)>, x: (Seq<char>, DocView))
    ensures
        obj_text(s.push(x)) == if s.len() == 0 {
            entry_text(x)
        } else {
            obj_text(s) + ","@ + entry_text(x)
        },
    decreases s.len(),
{
    let p = s.push(x);
    if s.len() == 0 {
        assert(p.len() == 1);
        assert(p[0] == x);
        assert(obj_text(p) =~= entry_text(x));
    } else if s.len() == 1 {
        assert(p.len() == 2);
        assert(p.drop_first() =~= seq![x]);
        assert(p.drop_first()[0] == x);
        assert(obj_text(p.drop_first()) =~= entry_text(x));
        assert(p[0] == s[0]);
        assert(obj_text(s) =~= entry_text(s[0]));
        assert(obj_text(p) =~= obj_text(s) + ","@ + entry_text(x));
    } else {
        assert(p.len() > 2);
        assert(p.drop_first() =~= s.drop_first().push(x));
        lemma_obj_text_snoc(s.drop_first(), x);
        assert(p[0] == s[0]);
        assert(entry_text(s[0]) + ","@ + (obj_text(s.drop_first()) + ","@ + entry_text(x)) =~= (
        entry_text(s[0]) + ","@ + obj_text(s.drop_first())) + ","@ + entry_text(x));
        assert(obj_text(p) =~= obj_text(s) + ","@ + entry_text(x));
    }
}

/// The decimal text of a digit.
fn digit_str(d: u64) -> (r: &'static str)
    requires
        d < 10,
    ensures
        r@ == digit_text(d as nat),
{
    if d == 0 {
        "0"
    } else if d == 1 {
        "1"
    } else if d == 2 {
        "2"
    } else if d == 3 {
        "3"
    } else if d == 4 {
        "4"
    } else if d == 5 {
        "5"
    } else if d == 6 {
        "6"
    } else if d == 7 {
        "7"
    } else if d == 8 {
        "8"
    } else {
        "9"
    }
}

/// The decimal text of an unsigned integer.
fn u64_text(n: u64) -> (r: String)
    ensures
        r@ == dec_text(n as nat),
    decreases n,
{
    if n < 10 {
        digit_str(n).to_owned()
    } else {
        let mut s = u64_text(n / 10);
        s.append(digit_str(n % 10));
        s
    }
}

/// The decimal text of a signed integer.
fn i64_text(n: i64) -> (r: String)
    ensures
        r@ == int_text(n as int),
{
    if n >= 0 {
        u64_text(n as u64)
    } else {
        let m: u64 = if n == i64::MIN {
            9223372036854775808u64
        } else {
            (-n) as u64
        };
        assert(m as nat == (-(n as int)) as nat);
        let mut s = "-".to_owned();
        s.append(u64_text(m).as_str());
        s
    }
}

impl DocValue {
    /// The compact textual document form of this node.
    #[verifier::loop_isolation(false)]
    pub fn render(&self) -> (r: String)
        ensures
            r@ == json_text(self@),
        decreases *self, 2int,
    {
        match self {
            DocValue::Null => "null".to_owned(),
            DocValue::Bool(b) => if *b {
                "true".to_owned()
            } else {
                "false".to_owned()
            },
            DocValue::Int(n) => i64_text(*n),
            DocValue::UInt(n) => u64_text(*n),
            DocValue::Text(s) => json_quote(s.as_str()),
            DocValue::Arr(items) => {
                let ghost full = doc_seq_view(items@);
                proof {
                    lemma_doc_seq_view(items@);
                }
                let mut out = "[".to_owned();
                proof {
                    assert(full.subrange(0, 0) =~= Seq::<DocView>::empty());
                    assert("["@ + arr_text(full.subrange(0, 0)) =~= "["@);
                }
                let mut i: usize = 0;
                while i < items.len()
                    invariant
                        0 <= i <= items@.len(),
                        out@ == "["@ + arr_text(full.subrange(0, i as int)),
                    decreases items@.len() - i,
                {
                    if i > 0 {
                        out.append(",");
                    }
                    let piece = self.render_element(items, i);
                    out.append(piece.as_str());
                    proof {
                        let pre = full.subrange(0, i as int);
                        assert(full.subrange(0, i + 1 as int) =~= pre.push(full[i as int]));
                        lemma_arr_text_snoc(pre, full[i as int]);
                        if i > 0 {
                            assert(("["@ + arr_text(pre) + ","@) + json_text(full[i as int]) =~= "["@
                                + arr_text(pre.push(full[i as int])));
                        } else {
                            assert(pre.len() == 0);
                            assert("["@ + arr_text(pre) + json_text(full[i as int]) =~= "["@
                                + arr_text(pre.push(full[i as int])));
                        }
                    }
                    i = i + 1;
                }
                proof {
                    assert(full.subrange(0, items@.len() as int) =~= full);
                }
                out.append("]");
                out
            },
            DocValue::Obj(entries) => {
                let ghost full = doc_entries_view(entries@);
                proof {
                    lemma_doc_entries_view(entries@);
                }
                let mut out = "{".to_owned();
                proof {
                    assert(full.subrange(0, 0) =~= Seq::<(Seq<char>, DocView)>::empty());
                    assert("{"@ + obj_text(full.subrange(0, 0)) =~= "{"@);
                }
                let mut i: usize = 0;
                while i < entries.len()
                    invariant
                        0 <= i <= entries@.len(),
                        out@ == "{"@ + obj_text(full.subrange(0, i as int)),
                    decreases entries@.len() - i,
                {
                    if i > 0 {
                        out.append(",");
                    }
                    let key = json_quote(entries[i].0.as_str());
                    out.append(key.as_str());
                    out.append(":");
                    let piece = self.render_entry_value(entries, i);
                    out.append(piece.as_str());
                    proof {
                        let pre = full.subrange(0, i as int);
                        assert(full.subrange(0, i + 1 as int) =~= pre.push(full[i as int]));
                        lemma_obj_text_snoc(pre, full[i as int]);
                        if i > 0 {
                            assert(("{"@ + obj_text(pre) + ","@) + entry_text(full[i as int]) =~= "{"@
                                + obj_text(pre.push(full[i as int])));
                        } else {
                            assert(pre.len() == 0);
                            assert("{"@ + obj_text(pre) + entry_text(full[i as int]) =~= "{"@
                                + obj_text(pre.push(full[i as int])));
                        }
                    }
                    i = i + 1;
                }
                proof {
                    assert(full.subrange(0, entries@.len() as int) =~= full);
                }
                out.append("}");
                out
            },
        }
    }

    /// An owned copy of this node with the same view.
    #[verifier::loop_isolation(false)]
    pub fn deep_copy(&self) -> (r: DocValue)
        ensures
            r@ == self@,
        decreases *self, 2int,
    {
        match self {
            DocValue::Null => DocValue::Null,
            DocValue::Bool(b) => DocValue::Bool(*b),
            DocValue::Int(n) => DocValue::Int(*n),
            DocValue::UInt(n) => DocValue::UInt(*n),
            DocValue::Text(s) => DocValue::Text(s.clone()),
            DocValue::Arr(items) => {
                let mut out: Vec<DocValue> = Vec::new();
                let mut i: usize = 0;
                while i < items.len()
                    invariant
                        out@.len() == i <= items@.len(),
                        forall|j: int| 0 <= j < i ==> doc_view(out@[j]) == doc_view(items@[j]),
                    decreases items@.len() - i,
                {
                    let piece = self.copy_element(items, i);
                    out.push(piece);
                    i = i + 1;
                }
                proof {
                    lemma_doc_seq_view(out@);
                    lemma_doc_seq_view(items@);
                    assert(doc_seq_view(out@) =~= doc_seq_view(items@));
                }
                DocValue::Arr(out)
            },
            DocValue::Obj(entries) => {
                let mut out: Vec<(String, DocValue)> = Vec::new();
                let mut i: usize = 0;
                while i < entries.len()
                    invariant
                        out@.len() == i <= entries@.len(),
                        forall|j: int| 0 <= j < i ==> out@[j].0@ == entries@[j].0@ && doc_view(
                            out@[j].1,
                        ) == doc_view(entries@[j].1),
                    decreases entries@.len() - i,
                {
                    let entry = self.copy_entry(entries, i);
                    out.push(entry);
                    i = i + 1;
                }
                proof {
                    lemma_doc_entries_view(out@);
                    lemma_doc_entries_view(entries@);
                    assert(doc_entries_view(out@) =~= doc_entries_view(entries@));
                }
                DocValue::Obj(out)
            },
        }
    }

    /// Copies one element of a sequence node; a separate method whose
    /// contract carries the facts the recursion's termination proof needs.
    fn copy_element(&self, items: &Vec<DocValue>, i: usize) -> (r: DocValue)
        requires
            *self == DocValue::Arr(*items),
            i < items@.len(),
        ensures
            doc_view(r) == doc_view(items@[i as int]),
        decreases *self, 1int,
    {
        proof {
            assert(decreases_to!(*self => (*self)->Arr_0));
            assert(decreases_to!(*items => items@[i as int]));
            assert(decreases_to!(*self => items@[i as int]));
        }
        items[i].deep_copy()
    }

    /// Copies one entry of a map node; a separate method whose
    /// contract carries the facts the recursion's termination proof needs.
    fn copy_entry(&self, entries: &Vec<(String, DocValue)>, i: usize) -> (r: (String, DocValue))
        requires
            *self == DocValue::Obj(*entries),
            i < entries@.len(),
        ensures
            r.0@ == entries@[i as int].0@,
            doc_view(r.1) == doc_view(entries@[i as int].1),
        decreases *self, 1int,
    {
        proof {
            assert(decreases_to!(*self => (*self)->Obj_0));
            assert(decreases_to!(*entries => entries@[i as int]));
            assert(decreases_to!(entries@[i as int] => entries@[i as int].1));
            assert(decreases_to!(*self => entries@[i as int].1));
        }
        let key = entries[i].0.clone();
        let value = entries[i].1.deep_copy();
        (key, value)
    }

    /// Renders one element of a sequence node; a separate method whose
    /// contract carries the facts the recursion's termination proof needs.
    fn render_element(&self, items: &Vec<DocValue>, i: usize) -> (r: String)
        requires
            *self == DocValue::Arr(*items),
            i < items@.len(),
        ensures
            r@ == json_text(doc_view(items@[i as int])),
        decreases *self, 1int,
    {
        proof {
            assert(decreases_to!(*self => (*self)->Arr_0));
            assert(decreases_to!(*items => items@[i as int]));
            assert(decreases_to!(*self => items@[i as int]));
        }
        items[i].render()
    }

    /// Renders the value of one entry of a map node; a separate method so
    /// that the termination measure of the recursion is visible.
    fn render_entry_value(&self, entries: &Vec<(String, DocValue)>, i: usize) -> (r: String)
        requires
            *self == DocValue::Obj(*entries),
            i < entries@.len(),
        ensures
            r@ == json_text(doc_view(entries@[i as int].1)),
        decreases *self, 1int,
    {
        proof {
            assert(decreases_to!(*self => (*self)->Obj_0));
            assert(decreases_to!(*entries => entries@[i as int]));
            assert(decreases_to!(entries@[i as int] => entries@[i as int].1));
            assert(decreases_to!(*self => entries@[i as int].1));
        }
        entries[i].1.render()
    }
}

} // verus!
