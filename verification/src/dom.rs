//! An HTML document as an arena of nodes, and the node queries run
//! on it: element names, attributes, CSS classes, predicates combined
//! with `and` / `descendant`, searches in document order, children,
//! siblings and text content.
//!
//! The arena is the one the `select` crate builds while parsing: nodes are
//! numbered in document order and each node records its parent, so the
//! subtree of a node consists of later nodes only. A parent link that does
//! not point to an earlier node is read as "no parent".
use vstd::prelude::*;
use vstd::string::StringSliceAdditionalSpecFns;
use vstd::utf8::{decode_utf8, encode_utf8, valid_utf8};
use std::io::Read;
use encoding_rs::WINDOWS_1251;
use encoding_rs_io::DecodeReaderBytesBuilder;
use select::node::Data as SelectData;
use crate::text::{char_is_ws, chars_eq, copy_chars, extend_chars, is_ws, occurs_at, str_chars};

verus! {

/// One attribute of an element.
pub struct Attribute {
    pub name: Vec<char>,
    pub value: Vec<char>,
}

/// What a node holds.
pub enum NodeData {
    Text(Vec<char>),
    Element(Vec<char>, Vec<Attribute>),
    Comment(Vec<char>),
}

/// A node and the index of its parent.
pub struct DomNode {
    pub parent: Option<usize>,
    pub data: NodeData,
}

/// A parsed HTML document.
pub struct Document {
    pub nodes: Vec<DomNode>,
}

/// A node test, built from the same combinators the `select` crate offers.
pub enum Pred {
    /// An element with this tag name.
    Name(&'static str),
    /// An element whose `class` attribute lists this class.
    Class(&'static str),
    /// An element whose attribute (first name) has exactly the value (second).
    Attr(&'static str, &'static str),
    /// Both tests hold.
    And(Box<Pred>, Box<Pred>),
    /// The second test holds of the node and the first of one of its ancestors.
    Descendant(Box<Pred>, Box<Pred>),
}


/// View of an `Attribute`.
pub struct AttributeV {
    pub name: Seq<char>,
    pub value: Seq<char>,
}

/// View of `NodeData`.
pub enum NodeDataV {
    Text(Seq<char>),
    Element(Seq<char>, Seq<AttributeV>),
    Comment(Seq<char>),
}

/// View of a `DomNode`.
pub struct DomNodeV {
    pub parent: Option<usize>,
    pub data: NodeDataV,
}

impl View for Attribute {
    type V = AttributeV;

    open spec fn view(&self) -> AttributeV {
        AttributeV { name: self.name@, value: self.value@ }
    }
}

impl View for NodeData {
    type V = NodeDataV;

    open spec fn view(&self) -> NodeDataV {
        match self {
            NodeData::Text(t) => NodeDataV::Text(t@),
            NodeData::Element(n, a) => NodeDataV::Element(n@, a@.map_values(|x: Attribute| x@)),
            NodeData::Comment(c) => NodeDataV::Comment(c@),
        }
    }
}

impl View for DomNode {
    type V = DomNodeV;

    open spec fn view(&self) -> DomNodeV {
        DomNodeV { parent: self.parent, data: self.data@ }
    }
}

impl View for Document {
    type V = Seq<DomNodeV>;

    open spec fn view(&self) -> Seq<DomNodeV> {
        self.nodes@.map_values(|n: DomNode| n@)
    }
}

/// The node arena that the `select` crate builds for the HTML text `html`
/// (`select::document::Document::from`), node for node: each node's parent
/// index and its text, element (local tag name and attributes, local names
/// and values, in source order) or comment.
pub uninterp spec fn select_document(html: Seq<char>) -> Seq<DomNodeV>;

/// An HTML text of `len` UTF-8 bytes fits the parser. The parser keeps text
/// in tendrils whose length is a `u32`, and panics beyond it; while
/// tokenizing it may replace each input byte (a NUL) by U+FFFD, three bytes,
/// and it gathers a node's text in one tendril. So the text, tripled, must
/// stay within `u32::MAX` bytes.
pub open spec fn fits_parser(len: int) -> bool {
    len * 3 <= u32::MAX
}

/// Trusted: parses `html` with `select::document::Document::from` (html5ever)
/// and copies its node arena. The contract only names the result
/// (`select_document`); nothing is claimed about the shape of the tree.
/// Texts that do not fit the parser's tendrils (`fits_parser`) are left out.
#[verifier::external_body]
pub(crate) fn parse_html(html: &str) -> (d: Document)
    requires
        fits_parser(html.spec_bytes().len() as int),
    ensures
        d@ == select_document(html@),
{
    let cs = |t: &str| -> Vec<char> { t.chars().collect() };
    let nodes = select::document::Document::from(html).nodes.into_iter().map(|r| DomNode {
        parent: r.parent,
        data: match r.data {
            SelectData::Text(t) => NodeData::Text(cs(&t)),
            SelectData::Element(n, a) => NodeData::Element(cs(&n.local), a.iter().map(|(k, v)|
                Attribute { name: cs(&k.local), value: cs(v) }).collect()),
            SelectData::Comment(c) => NodeData::Comment(cs(&c)),
        },
    });
    Document { nodes: nodes.collect() }
}

/// The text that `encoding_rs_io`'s decoding reader gives for `bytes` with
/// WINDOWS-1251 set as its encoding.
pub uninterp spec fn windows_1251_text(bytes: Seq<u8>) -> Seq<char>;

/// Trusted: reads `bytes` through `encoding_rs_io::DecodeReaderBytesBuilder`
/// with the encoding WINDOWS-1251 into a `String`; the contract only names
/// the result (`windows_1251_text`). The outcome of `read_to_string` is not
/// consulted: a byte slice reader reports no error and the decoder writes
/// valid UTF-8 (malformed input becomes U+FFFD), so the read cannot fail.
#[verifier::external_body]
pub(crate) fn decode_windows_1251(bytes: &[u8]) -> (r: String)
    ensures
        r@ == windows_1251_text(bytes@),
{
    let mut text = String::new();
    let _ = DecodeReaderBytesBuilder::new().encoding(Some(WINDOWS_1251)).build(bytes).read_to_string(&mut text);
    text
}

/// Trusted: `std::str::from_utf8`, which accepts exactly the valid UTF-8
/// byte sequences and then views the same bytes as text.
#[verifier::external_body]
fn utf8_str<'a>(bytes: &'a [u8]) -> (r: Option<&'a str>)
    ensures
        match r {
            Some(s) => s.spec_bytes() == bytes@,
            None => !valid_utf8(bytes@),
        },
{
    std::str::from_utf8(bytes).ok()
}

/// `Pred::Name`.
pub fn name(s: &'static str) -> (p: Pred)
    ensures
        p == Pred::Name(s),
{
    Pred::Name(s)
}

/// `Pred::Class`.
pub fn class(s: &'static str) -> (p: Pred)
    ensures
        p == Pred::Class(s),
{
    Pred::Class(s)
}

/// `Pred::Attr`.
pub fn attr(k: &'static str, v: &'static str) -> (p: Pred)
    ensures
        p == Pred::Attr(k, v),
{
    Pred::Attr(k, v)
}

/// `Pred::And`.
pub fn and(a: Pred, b: Pred) -> (p: Pred)
    ensures
        p == Pred::And(Box::new(a), Box::new(b)),
{
    Pred::And(Box::new(a), Box::new(b))
}

/// `Pred::Descendant`.
pub fn desc(a: Pred, b: Pred) -> (p: Pred)
    ensures
        p == Pred::Descendant(Box::new(a), Box::new(b)),
{
    Pred::Descendant(Box::new(a), Box::new(b))
}

/// Spec form of `and`.
pub open spec fn p_and(a: Pred, b: Pred) -> Pred {
    Pred::And(Box::new(a), Box::new(b))
}

/// Spec form of `desc`.
pub open spec fn p_desc(a: Pred, b: Pred) -> Pred {
    Pred::Descendant(Box::new(a), Box::new(b))
}

/// An element with tag `n` and class `c`.
pub open spec fn p_elem_class(n: &'static str, c: &'static str) -> Pred {
    p_and(Pred::Name(n), Pred::Class(c))
}

/// An element with tag `n` whose attribute `k` is `v`.
pub open spec fn p_elem_attr(n: &'static str, k: &'static str, v: &'static str) -> Pred {
    p_and(Pred::Name(n), Pred::Attr(k, v))
}

/// An element with tag `n` and class `c`.
pub fn elem_class(n: &'static str, c: &'static str) -> (p: Pred)
    ensures
        p == p_elem_class(n, c),
{
    and(name(n), class(c))
}

/// An element with tag `n` whose attribute `k` is `v`.
pub fn elem_attr(n: &'static str, k: &'static str, v: &'static str) -> (p: Pred)
    ensures
        p == p_elem_attr(n, k, v),
{
    and(name(n), attr(k, v))
}

/// The value of the first attribute named `k` in `attrs`.
pub open spec fn attr_lookup(attrs: Seq<Attribute>, k: Seq<char>) -> Option<Seq<char>>
    decreases attrs.len(),
{
    if attrs.len() == 0 {
        None
    } else if attrs[0].name@ == k {
        Some(attrs[0].value@)
    } else {
        attr_lookup(attrs.drop_first(), k)
    }
}

/// `c` is one of the whitespace-separated words of `v` (what
/// `split_whitespace().any(|w| w == c)` computes).
pub open spec fn token_at(v: Seq<char>, c: Seq<char>, i: int) -> bool {
    &&& occurs_at(v, c, i)
    &&& (i == 0 || is_ws(v[i - 1]))
    &&& (i + c.len() == v.len() || is_ws(v[i + c.len()]))
}

/// `c` is one of the whitespace-separated words of `v`.
pub open spec fn has_token(v: Seq<char>, c: Seq<char>) -> bool {
    &&& c.len() > 0
    &&& forall|k: int| 0 <= k < c.len() ==> !is_ws(#[trigger] c[k])
    &&& exists|i: int| token_at(v, c, i)
}


/// Whether `c` is one of the whitespace-separated words of `v`.
pub fn has_token_exec(v: &Vec<char>, c: &Vec<char>) -> (r: bool)
    ensures
        r == has_token(v@, c@),
{
    if c.len() == 0 {
        return false;
    }
    if c.len() > v.len() {
        assert forall|i: int| !token_at(v@, c@, i) by {}
        return false;
    }
    let mut k: usize = 0;
    while k < c.len()
        invariant
            0 <= k <= c.len(),
            forall|m: int| 0 <= m < k ==> !is_ws(#[trigger] c@[m]),
        decreases c.len() - k,
    {
        if char_is_ws(c[k]) {
            return false;
        }
        k = k + 1;
    }
    let last = v.len() - c.len();
    let mut i: usize = 0;
    while i <= last
        invariant
            last + c.len() == v.len(),
            c.len() > 0,
            0 <= i <= last + 1,
            forall|m: int| 0 <= m < c.len() ==> !is_ws(#[trigger] c@[m]),
            forall|m: int| 0 <= m < i ==> !token_at(v@, c@, m),
        decreases last + 1 - i,
    {
        let before = i == 0 || char_is_ws(v[i - 1]);
        let after = i + c.len() == v.len() || char_is_ws(v[i + c.len()]);
        if before && after {
            let mut m: usize = 0;
            let mut same = true;
            while m < c.len()
                invariant
                    last + c.len() == v.len(),
                    i <= last,
                    0 <= m <= c.len(),
                    same == (forall|x: int| 0 <= x < m ==> v@[i + x] == c@[x]),
                decreases c.len() - m,
            {
                if v[i + m] != c[m] {
                    same = false;
                }
                m = m + 1;
            }
            if same {
                assert(v@.subrange(i as int, i + c@.len()) =~= c@);
                assert(token_at(v@, c@, i as int));
                return true;
            } else {
                assert(!occurs_at(v@, c@, i as int)) by {
                    let x = choose|x: int| 0 <= x < c@.len() && v@[i + x] != c@[x];
                    assert(v@.subrange(i as int, i + c@.len())[x] != c@[x]);
                }
            }
        }
        i = i + 1;
    }
    assert forall|m: int| !token_at(v@, c@, m) by {
        if 0 <= m < i {
        }
    }
    false
}

impl Document {
    /// Parses an HTML text into its node arena (see `select_document`); the
    /// text must fit the parser (`fits_parser`).
    pub fn from_html(html: &str) -> (d: Document)
        requires
            fits_parser(html.spec_bytes().len() as int),
        ensures
            d@ == select_document(html@),
    {
        parse_html(html)
    }

    /// Parses UTF-8 encoded HTML, as `select`'s `Document::from_read` does:
    /// `None` when the bytes are not valid UTF-8. The bytes must fit the
    /// parser (`fits_parser`).
    pub fn from_utf8(bytes: &[u8]) -> (r: Option<Document>)
        requires
            fits_parser(bytes@.len() as int),
        ensures
            r is Some <==> valid_utf8(bytes@),
            r matches Some(d) ==> d@ == select_document(decode_utf8(bytes@)),
    {
        match utf8_str(bytes) {
            Some(s) => {
                proof {
                    broadcast use vstd::utf8::encode_utf8_valid_utf8, vstd::utf8::encode_utf8_decode_utf8;

                    assert(decode_utf8(encode_utf8(s@)) == s@);
                }
                Some(Document::from_html(s))
            },
            None => None,
        }
    }

    /// Parses HTML encoded in WINDOWS-1251 (see `windows_1251_text`). The
    /// decoded text must fit the parser (`fits_parser`).
    pub fn from_windows_1251(bytes: &[u8]) -> (d: Document)
        requires
            fits_parser(encode_utf8(windows_1251_text(bytes@)).len() as int),
        ensures
            d@ == select_document(windows_1251_text(bytes@)),
    {
        let text = decode_windows_1251(bytes);
        Document::from_html(text.as_str())
    }

    /// Parses HTML encoded in WINDOWS-1251 when its decoded text fits the
    /// parser; `None` otherwise.
    pub fn try_from_windows_1251(bytes: &[u8]) -> (r: Option<Document>)
        ensures
            r is Some <==> fits_parser(encode_utf8(windows_1251_text(bytes@)).len() as int),
            r matches Some(d) ==> d@ == select_document(windows_1251_text(bytes@)),
    {
        let text = decode_windows_1251(bytes);
        let size = text.as_str().as_bytes().len();
        proof {
            broadcast use vstd::slice::axiom_spec_len;
        }
        if size as u64 <= 1431655765u64 {
            Some(Document::from_windows_1251(bytes))
        } else {
            None
        }
    }

    /// Number of nodes.
    pub open spec fn len(&self) -> int {
        self.nodes@.len() as int
    }

    /// The parent of node `i`, when it is an earlier node.
    pub open spec fn parent_of(&self, i: int) -> Option<int> {
        match self.nodes@[i].parent {
            Some(p) => if p < i {
                Some(p as int)
            } else {
                None
            },
            None => None,
        }
    }

    /// The tag name of node `i`, when it is an element.
    pub open spec fn elem_name(&self, i: int) -> Option<Seq<char>> {
        match self.nodes@[i].data {
            NodeData::Element(n, _) => Some(n@),
            _ => None,
        }
    }

    /// The value of attribute `k` of node `i` (`Node::attr`).
    pub open spec fn attr_of(&self, i: int, k: Seq<char>) -> Option<Seq<char>> {
        match self.nodes@[i].data {
            NodeData::Element(_, attrs) => attr_lookup(attrs@, k),
            _ => None,
        }
    }

    /// The characters a node contributes to text content: those of a text node.
    pub open spec fn own_text(&self, i: int) -> Seq<char> {
        match self.nodes@[i].data {
            NodeData::Text(t) => t@,
            _ => Seq::empty(),
        }
    }

    /// Node `a` is a proper ancestor of node `j`.
    pub open spec fn is_ancestor(&self, a: int, j: int) -> bool
        decreases j,
    {
        match self.parent_of(j) {
            Some(p) => if 0 <= p < j {
                p == a || self.is_ancestor(a, p)
            } else {
                false
            },
            None => false,
        }
    }

    /// Whether predicate `p` holds of node `i` (`Predicate::matches`).
    pub open spec fn matches(&self, p: Pred, i: int) -> bool
        decreases p, i,
    {
        match p {
            Pred::Name(s) => self.elem_name(i) == Some(s@),
            Pred::Class(c) => match self.attr_of(i, "class"@) {
                Some(v) => has_token(v, c@),
                None => false,
            },
            Pred::Attr(k, v) => self.attr_of(i, k@) == Some(v@),
            Pred::And(a, b) => self.matches(*a, i) && self.matches(*b, i),
            Pred::Descendant(a, b) => self.matches(*b, i) && self.ancestor_matches(*a, i),
        }
    }

    /// Some proper ancestor of node `i` satisfies `p`.
    pub open spec fn ancestor_matches(&self, p: Pred, i: int) -> bool
        decreases p, i,
    {
        match self.parent_of(i) {
            Some(q) => if 0 <= q < i {
                self.matches(p, q) || self.ancestor_matches(p, q)
            } else {
                false
            },
            None => false,
        }
    }

    /// Node `j` lies in the search scope: the whole document, or the proper
    /// descendants of a node.
    pub open spec fn in_scope(&self, scope: Option<usize>, j: int) -> bool {
        match scope {
            None => true,
            Some(r) => self.is_ancestor(r as int, j),
        }
    }

    /// The nodes from index `j` on that lie in `scope` and satisfy `p`, in order.
    pub open spec fn find_from(&self, scope: Option<usize>, p: Pred, j: int) -> Seq<usize>
        decreases self.len() - j,
    {
        if j < 0 || j >= self.len() {
            Seq::empty()
        } else if self.in_scope(scope, j) && self.matches(p, j) {
            seq![j as usize] + self.find_from(scope, p, j + 1)
        } else {
            self.find_from(scope, p, j + 1)
        }
    }

    /// Where a search in `scope` starts.
    pub open spec fn scope_start(scope: Option<usize>) -> int {
        match scope {
            None => 0,
            Some(r) => r + 1,
        }
    }

    /// What `Document::find(p)` (scope `None`) or `Node::find(p)` on node `r`
    /// (scope `Some(r)`) yields: the matching nodes in document order.
    pub open spec fn find(&self, scope: Option<usize>, p: Pred) -> Seq<usize> {
        self.find_from(scope, p, Self::scope_start(scope))
    }

    /// The first result of a search, as `find(..).next()`.
    pub open spec fn find_first(&self, scope: Option<usize>, p: Pred) -> Option<usize> {
        let r = self.find(scope, p);
        if r.len() > 0 {
            Some(r[0])
        } else {
            None
        }
    }

    /// The last result of a search, as `find(..).last()`.
    pub open spec fn find_last(&self, scope: Option<usize>, p: Pred) -> Option<usize> {
        let r = self.find(scope, p);
        if r.len() > 0 {
            Some(r.last())
        } else {
            None
        }
    }

    /// The children of node `i` from index `j` on, in order.
    pub open spec fn children_from(&self, i: int, j: int) -> Seq<usize>
        decreases self.len() - j,
    {
        if j < 0 || j >= self.len() {
            Seq::empty()
        } else if self.parent_of(j) == Some(i) {
            seq![j as usize] + self.children_from(i, j + 1)
        } else {
            self.children_from(i, j + 1)
        }
    }

    /// The children of node `i`, in order (`Node::children`).
    pub open spec fn children(&self, i: int) -> Seq<usize> {
        self.children_from(i, i + 1)
    }

    /// The previous sibling of node `i` (`Node::prev`): the last earlier node
    /// with the same parent.
    pub open spec fn prev_from(&self, i: int, j: int) -> Option<usize>
        decreases j,
    {
        if j <= 0 {
            None
        } else if self.parent_of(j - 1) == self.parent_of(i) {
            Some((j - 1) as usize)
        } else {
            self.prev_from(i, j - 1)
        }
    }

    /// The text content of node `i` from index `j` on (`Node::text`).
    pub open spec fn text_from(&self, i: int, j: int) -> Seq<char>
        decreases self.len() - j,
    {
        if j < 0 || j >= self.len() {
            Seq::empty()
        } else if j == i || self.is_ancestor(i, j) {
            self.own_text(j) + self.text_from(i, j + 1)
        } else {
            self.text_from(i, j + 1)
        }
    }

    /// The text content of node `i`: its text and that of all its descendants,
    /// in document order (`Node::text`).
    pub open spec fn text(&self, i: int) -> Seq<char> {
        self.text_from(i, i)
    }

    /// Executable `is_ancestor`.
    pub fn is_ancestor_exec(&self, a: usize, j: usize) -> (r: bool)
        requires
            j < self.nodes@.len(),
        ensures
            r == self.is_ancestor(a as int, j as int),
    {
        let mut cur = j;
        loop
            invariant
                cur < self.nodes@.len(),
                self.is_ancestor(a as int, j as int) == self.is_ancestor(a as int, cur as int),
            decreases cur,
        {
            match self.nodes[cur].parent {
                Some(p) => {
                    if p < cur {
                        if p == a {
                            return true;
                        }
                        cur = p;
                    } else {
                        return false;
                    }
                },
                None => {
                    return false;
                },
            }
        }
    }

    /// The tag name of node `i`, when it is an element.
    pub fn name_of(&self, i: usize) -> (r: Option<&Vec<char>>)
        requires
            i < self.nodes@.len(),
        ensures
            match r {
                Some(n) => self.elem_name(i as int) == Some(n@),
                None => self.elem_name(i as int) is None,
            },
    {
        match &self.nodes[i].data {
            NodeData::Element(n, _) => Some(n),
            _ => None,
        }
    }

    /// The value of attribute `k` of node `i` (`Node::attr`).
    pub fn attr_value(&self, i: usize, k: &Vec<char>) -> (r: Option<&Vec<char>>)
        requires
            i < self.nodes@.len(),
        ensures
            match r {
                Some(v) => self.attr_of(i as int, k@) == Some(v@),
                None => self.attr_of(i as int, k@) is None,
            },
    {
        match &self.nodes[i].data {
            NodeData::Element(_, attrs) => {
                let mut m: usize = 0;
                assert(attrs@.skip(0) =~= attrs@);
                while m < attrs.len()
                    invariant
                        0 <= m <= attrs@.len(),
                        self.attr_of(i as int, k@) == attr_lookup(attrs@.skip(m as int), k@),
                    decreases attrs@.len() - m,
                {
                    let ghost rest = attrs@.skip(m as int);
                    assert(rest.drop_first() =~= attrs@.skip(m + 1));
                    if chars_eq(&attrs[m].name, k) {
                        return Some(&attrs[m].value);
                    }
                    m = m + 1;
                }
                None
            },
            _ => None,
        }
    }

    /// The text content of node `i` (`Node::text`).
    pub fn text_exec(&self, i: usize) -> (r: Vec<char>)
        requires
            i < self.nodes@.len(),
        ensures
            r@ == self.text(i as int),
    {
        let mut r: Vec<char> = Vec::new();
        let mut j = i;
        while j < self.nodes.len()
            invariant
                i <= j <= self.nodes@.len(),
                self.text(i as int) == r@ + self.text_from(i as int, j as int),
            decreases self.nodes@.len() - j,
        {
            let ghost r0 = r@;
            if j == i || self.is_ancestor_exec(i, j) {
                match &self.nodes[j].data {
                    NodeData::Text(t) => {
                        extend_chars(&mut r, t);
                    },
                    _ => {},
                }
                assert(r0 + self.text_from(i as int, j as int) =~= r@ + self.text_from(
                    i as int,
                    j + 1,
                ));
            }
            j = j + 1;
        }
        assert(r@ + self.text_from(i as int, j as int) =~= r@);
        r
    }

    /// The children of node `i`, in order (`Node::children`).
    pub fn children_exec(&self, i: usize) -> (r: Vec<usize>)
        requires
            i < self.nodes@.len(),
        ensures
            r@ == self.children(i as int),
    {
        let mut r: Vec<usize> = Vec::new();
        let mut j = i;
        assert(self.children_from(i as int, i as int) == self.children_from(i as int, i + 1));
        while j < self.nodes.len()
            invariant
                i <= j <= self.nodes@.len(),
                self.children(i as int) == self.children_from(i as int, i as int),
                self.children(i as int) == r@ + self.children_from(i as int, j as int),
            decreases self.nodes@.len() - j,
        {
            let ghost r0 = r@;
            let hit = match self.nodes[j].parent {
                Some(p) => p < j && p == i,
                None => false,
            };
            if hit {
                r.push(j);
                assert(r0 + self.children_from(i as int, j as int) =~= r@ + self.children_from(
                    i as int,
                    j + 1,
                ));
            }
            j = j + 1;
        }
        assert(r@ + self.children_from(i as int, j as int) =~= r@);
        r
    }

    /// The previous sibling of node `i` (`Node::prev`).
    pub fn prev_exec(&self, i: usize) -> (r: Option<usize>)
        requires
            i < self.nodes@.len(),
        ensures
            r == self.prev_from(i as int, i as int),
            r matches Some(k) ==> k < i,
    {
        let pi: Option<usize> = match self.nodes[i].parent {
            Some(p) => if p < i {
                Some(p)
            } else {
                None
            },
            None => None,
        };
        let mut j = i;
        while j > 0
            invariant
                j <= i < self.nodes@.len(),
                self.prev_from(i as int, i as int) == self.prev_from(i as int, j as int),
                match pi {
                    Some(p) => self.parent_of(i as int) == Some(p as int),
                    None => self.parent_of(i as int) is None,
                },
            decreases j,
        {
            let pj: Option<usize> = match self.nodes[j - 1].parent {
                Some(p) => if p < j - 1 {
                    Some(p)
                } else {
                    None
                },
                None => None,
            };
            if pj == pi {
                return Some(j - 1);
            }
            j = j - 1;
        }
        None
    }

    /// Whether predicate `p` holds of node `i` (`Predicate::matches`).
    pub fn matches_exec(&self, p: &Pred, i: usize) -> (r: bool)
        requires
            i < self.nodes@.len(),
        ensures
            r == self.matches(*p, i as int),
        decreases p, 0int,
    {
        match p {
            Pred::Name(s) => {
                let want = str_chars(s);
                match self.name_of(i) {
                    Some(n) => chars_eq(n, &want),
                    None => false,
                }
            },
            Pred::Class(c) => {
                let key = str_chars("class");
                let want = str_chars(c);
                match self.attr_value(i, &key) {
                    Some(v) => has_token_exec(v, &want),
                    None => false,
                }
            },
            Pred::Attr(k, v) => {
                let key = str_chars(k);
                let want = str_chars(v);
                match self.attr_value(i, &key) {
                    Some(x) => chars_eq(x, &want),
                    None => false,
                }
            },
            Pred::And(a, b) => self.matches_exec(a, i) && self.matches_exec(b, i),
            Pred::Descendant(a, b) => self.matches_exec(b, i) && self.ancestor_matches_exec(a, i),
        }
    }

    /// Whether some proper ancestor of node `i` satisfies `p`.
    pub fn ancestor_matches_exec(&self, p: &Pred, i: usize) -> (r: bool)
        requires
            i < self.nodes@.len(),
        ensures
            r == self.ancestor_matches(*p, i as int),
        decreases p, 1int,
    {
        let mut cur = i;
        loop
            invariant
                cur < self.nodes@.len(),
                self.ancestor_matches(*p, i as int) == self.ancestor_matches(*p, cur as int),
            decreases cur,
        {
            match self.nodes[cur].parent {
                Some(q) => {
                    if q < cur {
                        if self.matches_exec(p, q) {
                            return true;
                        }
                        cur = q;
                    } else {
                        return false;
                    }
                },
                None => {
                    return false;
                },
            }
        }
    }

    /// The nodes in `scope` that satisfy `p`, in document order
    /// (`Document::find` for scope `None`, `Node::find` for `Some(node)`).
    pub fn find_exec(&self, scope: Option<usize>, p: &Pred) -> (r: Vec<usize>)
        ensures
            r@ == self.find(scope, *p),
    {
        let mut r: Vec<usize> = Vec::new();
        let mut j: usize = match scope {
            None => 0,
            Some(s) => if s < self.nodes.len() {
                s + 1
            } else {
                self.nodes.len()
            },
        };
        proof {
            if let Some(s) = scope {
                if s >= self.nodes@.len() {
                    assert(self.find(scope, *p) == Seq::<usize>::empty());
                }
            }
        }
        while j < self.nodes.len()
            invariant
                j <= self.nodes@.len(),
                self.find(scope, *p) == r@ + self.find_from(scope, *p, j as int),
            decreases self.nodes@.len() - j,
        {
            let ghost r0 = r@;
            let inside = match scope {
                None => true,
                Some(s) => self.is_ancestor_exec(s, j),
            };
            if inside && self.matches_exec(p, j) {
                r.push(j);
                assert(r0 + self.find_from(scope, *p, j as int) =~= r@ + self.find_from(
                    scope,
                    *p,
                    j + 1,
                ));
            }
            j = j + 1;
        }
        assert(r@ + self.find_from(scope, *p, j as int) =~= r@);
        r
    }

    /// The first node a search yields (`find(p).next()`).
    pub fn find_first_exec(&self, scope: Option<usize>, p: &Pred) -> (r: Option<usize>)
        ensures
            r == self.find_first(scope, *p),
            r matches Some(k) ==> k < self.nodes@.len(),
    {
        let v = self.find_exec(scope, p);
        proof {
            self.lemma_find_in_range(scope, *p, Self::scope_start(scope));
        }
        if v.len() > 0 {
            Some(v[0])
        } else {
            None
        }
    }

    /// The last node a search yields (`find(p).last()`).
    pub fn find_last_exec(&self, scope: Option<usize>, p: &Pred) -> (r: Option<usize>)
        ensures
            r == self.find_last(scope, *p),
            r matches Some(k) ==> k < self.nodes@.len(),
    {
        let v = self.find_exec(scope, p);
        proof {
            self.lemma_find_in_range(scope, *p, Self::scope_start(scope));
        }
        if v.len() > 0 {
            Some(v[v.len() - 1])
        } else {
            None
        }
    }

    /// Every node a search yields is a node of the document.
    pub proof fn lemma_find_in_range(&self, scope: Option<usize>, p: Pred, j: int)
        ensures
            forall|k: int|
                0 <= k < self.find_from(scope, p, j).len() ==> #[trigger] self.find_from(
                    scope,
                    p,
                    j,
                )[k] < self.len(),
        decreases self.len() - j,
    {
        if 0 <= j < self.len() {
            self.lemma_find_in_range(scope, p, j + 1);
            let t = self.find_from(scope, p, j + 1);
            if self.in_scope(scope, j) && self.matches(p, j) {
                assert forall|k: int| 0 <= k < self.find_from(scope, p, j).len() implies
                    #[trigger] self.find_from(scope, p, j)[k] < self.len() by {
                    if k > 0 {
                        assert(self.find_from(scope, p, j)[k] == t[k - 1]);
                    }
                }
            }
        }
    }

    /// Every child of a node is a node of the document.
    pub proof fn lemma_children_in_range(&self, i: int, j: int)
        ensures
            forall|k: int|
                0 <= k < self.children_from(i, j).len() ==> #[trigger] self.children_from(i, j)[k]
                    < self.len(),
        decreases self.len() - j,
    {
        if 0 <= j < self.len() {
            self.lemma_children_in_range(i, j + 1);
            let t = self.children_from(i, j + 1);
            if self.parent_of(j) == Some(i) {
                assert forall|k: int| 0 <= k < self.children_from(i, j).len() implies
                    #[trigger] self.children_from(i, j)[k] < self.len() by {
                    if k > 0 {
                        assert(self.children_from(i, j)[k] == t[k - 1]);
                    }
                }
            }
        }
    }

    /// Attribute `k` of the first node a search yields.
    pub open spec fn first_attr(&self, scope: Option<usize>, p: Pred, k: Seq<char>) -> Option<
        Seq<char>,
    > {
        match self.find_first(scope, p) {
            Some(n) => self.attr_of(n as int, k),
            None => None,
        }
    }

    /// The text content of the first node a search yields.
    pub open spec fn first_text(&self, scope: Option<usize>, p: Pred) -> Option<Seq<char>> {
        match self.find_first(scope, p) {
            Some(n) => Some(self.text(n as int)),
            None => None,
        }
    }

    /// Executable `first_attr`.
    pub fn first_attr_exec(&self, scope: Option<usize>, p: &Pred, k: &str) -> (r: Option<Vec<char>>)
        ensures
            match r {
                Some(v) => self.first_attr(scope, *p, k@) == Some(v@),
                None => self.first_attr(scope, *p, k@) is None,
            },
    {
        match self.find_first_exec(scope, p) {
            Some(n) => {
                let key = str_chars(k);
                match self.attr_value(n, &key) {
                    Some(v) => Some(copy_chars(v)),
                    None => None,
                }
            },
            None => None,
        }
    }

    /// Executable `first_text`.
    pub fn first_text_exec(&self, scope: Option<usize>, p: &Pred) -> (r: Option<Vec<char>>)
        ensures
            match r {
                Some(v) => self.first_text(scope, *p) == Some(v@),
                None => self.first_text(scope, *p) is None,
            },
    {
        match self.find_first_exec(scope, p) {
            Some(n) => Some(self.text_exec(n)),
            None => None,
        }
    }

    /// Executable `attr_of` returning an owned copy.
    pub fn attr_copy(&self, i: usize, k: &str) -> (r: Option<Vec<char>>)
        requires
            i < self.nodes@.len(),
        ensures
            match r {
                Some(v) => self.attr_of(i as int, k@) == Some(v@),
                None => self.attr_of(i as int, k@) is None,
            },
    {
        let key = str_chars(k);
        match self.attr_value(i, &key) {
            Some(v) => Some(copy_chars(v)),
            None => None,
        }
    }

    /// Searching from index `j` yields exactly the nodes from `j` on that lie
    /// in the scope and satisfy the predicate, each once, in document order.
    pub proof fn lemma_find_from_exact(&self, scope: Option<usize>, p: Pred, j: int)
        requires
            0 <= j,
            self.len() <= usize::MAX,
        ensures
            forall|k: int|
                #![trigger self.find_from(scope, p, j)[k]]
                0 <= k < self.find_from(scope, p, j).len() ==> {
                    let x = self.find_from(scope, p, j)[k] as int;
                    j <= x < self.len() && self.in_scope(scope, x) && self.matches(p, x)
                },
            forall|x: int|
                j <= x < self.len() && self.in_scope(scope, x) && self.matches(p, x) ==> #[trigger] self.find_from(
                    scope,
                    p,
                    j,
                ).contains(x as usize),
            forall|a: int, b: int|
                0 <= a < b < self.find_from(scope, p, j).len() ==> self.find_from(scope, p, j)[a]
                    < self.find_from(scope, p, j)[b],
        decreases self.len() - j,
    {
        if j < self.len() {
            self.lemma_find_from_exact(scope, p, j + 1);
            let t = self.find_from(scope, p, j + 1);
            let f = self.find_from(scope, p, j);
            if self.in_scope(scope, j) && self.matches(p, j) {
                assert(f == seq![j as usize] + t);
                assert forall|k: int| 0 <= k < f.len() implies {
                    let x = #[trigger] f[k] as int;
                    j <= x < self.len() && self.in_scope(scope, x) && self.matches(p, x)
                } by {
                    if k > 0 {
                        assert(f[k] == t[k - 1]);
                    }
                }
                assert forall|x: int|
                    j <= x < self.len() && self.in_scope(scope, x) && self.matches(p, x) implies #[trigger] f.contains(
                    x as usize,
                ) by {
                    if x == j {
                        assert(f[0] == j as usize);
                    } else {
                        assert(t.contains(x as usize));
                        let k = choose|k: int| 0 <= k < t.len() && t[k] == x as usize;
                        assert(f[k + 1] == t[k]);
                    }
                }
                assert forall|a: int, b: int| 0 <= a < b < f.len() implies f[a] < f[b] by {
                    assert(f[b] == t[b - 1]);
                    if a > 0 {
                        assert(f[a] == t[a - 1]);
                    } else {
                        assert(j + 1 <= t[b - 1]);
                    }
                }
            } else {
                assert(f == t);
            }
        }
    }

    /// What a search yields: exactly the nodes of its scope (for a node
    /// scope, the node's proper descendants) that satisfy the predicate, each
    /// once, in document order.
    pub proof fn lemma_find_exact(&self, scope: Option<usize>, p: Pred)
        requires
            self.len() <= usize::MAX,
        ensures
            forall|k: int|
                #![trigger self.find(scope, p)[k]]
                0 <= k < self.find(scope, p).len() ==> {
                    let x = self.find(scope, p)[k] as int;
                    0 <= x < self.len() && self.in_scope(scope, x) && self.matches(p, x)
                },
            forall|x: int|
                0 <= x < self.len() && self.in_scope(scope, x) && self.matches(p, x) ==> #[trigger] self.find(
                    scope,
                    p,
                ).contains(x as usize),
            forall|a: int, b: int|
                0 <= a < b < self.find(scope, p).len() ==> self.find(scope, p)[a] < self.find(
                    scope,
                    p,
                )[b],
    {
        let st = Self::scope_start(scope);
        self.lemma_find_from_exact(scope, p, st);
        assert forall|x: int|
            0 <= x < self.len() && self.in_scope(scope, x) && self.matches(p, x) implies #[trigger] self.find(
            scope,
            p,
        ).contains(x as usize) by {
            if let Some(r) = scope {
                self.lemma_ancestor_before(r as int, x);
            }
        }
    }

    /// An ancestor comes before its descendants.
    pub proof fn lemma_ancestor_before(&self, a: int, j: int)
        requires
            self.is_ancestor(a, j),
        ensures
            a < j,
        decreases j,
    {
        match self.parent_of(j) {
            Some(q) => {
                if q != a {
                    self.lemma_ancestor_before(a, q);
                }
            },
            None => {},
        }
    }
}

} // verus!
