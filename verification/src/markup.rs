//! Turning an HTML subtree into bracket markup (`[p]text[/p]`) and
//! normalising its whitespace.
use vstd::prelude::*;
use crate::dom::{Document, NodeData};
use crate::pattern::{regex_replace_all, replace_all};
use crate::text::{
    chars_eq, extend_chars, is_ws, lemma_trim_no_outer_ws, str_chars, string_from_chars, trim,
    trim_chars,
};

verus! {

/// Runs of two or more spaces.
pub const SPACES_PATTERN: &'static str = "[ ]{2,}";

/// Line breaks and tabs.
pub const BREAKS_PATTERN: &'static str = "[\\r\\n\\t]";

/// The bracket markup of node `i`: a text node gives its text; an element
/// gives `[name]` (when `write_tags`), the markup of its children (always
/// written with tags) and `[/name]` (when `write_tags` and the element is
/// not `br`); a comment gives nothing.
pub open spec fn markup(doc: &Document, i: int, write_tags: bool) -> Seq<char>
    decreases doc.len() - i, doc.len() - i + 1,
{
    if 0 <= i < doc.len() {
        match doc.nodes@[i].data {
            NodeData::Text(t) => t@,
            NodeData::Element(n, _) => {
                let open = if write_tags {
                    seq!['['] + n@ + seq![']']
                } else {
                    Seq::empty()
                };
                let close = if write_tags && n@ != "br"@ {
                    seq!['[', '/'] + n@ + seq![']']
                } else {
                    Seq::empty()
                };
                open + markup_children(doc, i, i + 1) + close
            },
            NodeData::Comment(_) => Seq::empty(),
        }
    } else {
        Seq::empty()
    }
}

/// The markup of the children of node `p` from index `j` on, in order.
pub open spec fn markup_children(doc: &Document, p: int, j: int) -> Seq<char>
    decreases doc.len() - p, doc.len() - j,
{
    if 0 <= p < j < doc.len() {
        let rest = markup_children(doc, p, j + 1);
        if doc.parent_of(j) == Some(p) {
            markup(doc, j, true) + rest
        } else {
            rest
        }
    } else {
        Seq::empty()
    }
}

/// The bracket markup of node `i` (see `markup`).
pub fn convert_tags(doc: &Document, i: usize, write_tags: bool) -> (r: Vec<char>)
    requires
        i < doc.nodes@.len(),
    ensures
        r@ == markup(doc, i as int, write_tags),
    decreases doc.nodes@.len() - i, doc.nodes@.len() - i + 1,
{
    match &doc.nodes[i].data {
        NodeData::Text(t) => {
            let mut r: Vec<char> = Vec::new();
            extend_chars(&mut r, t);
            r
        },
        NodeData::Element(n, _) => {
            let mut r: Vec<char> = Vec::new();
            if write_tags {
                r.push('[');
                extend_chars(&mut r, n);
                r.push(']');
            }
            let ghost open = r@;
            let n_nodes = doc.nodes.len();
            let kids = convert_children(doc, i, i + 1);
            extend_chars(&mut r, &kids);
            let br = str_chars("br");
            if write_tags && !chars_eq(n, &br) {
                r.push('[');
                r.push('/');
                extend_chars(&mut r, n);
                r.push(']');
            }
            proof {
                if write_tags {
                    assert(open =~= seq!['['] + n@ + seq![']']);
                } else {
                    assert(open =~= Seq::<char>::empty());
                }
            }
            assert(r@ =~= markup(doc, i as int, write_tags));
            r
        },
        NodeData::Comment(_) => Vec::new(),
    }
}

fn convert_children(doc: &Document, p: usize, j: usize) -> (r: Vec<char>)
    requires
        p < j <= doc.nodes@.len(),
    ensures
        r@ == markup_children(doc, p as int, j as int),
    decreases doc.nodes@.len() - p, doc.nodes@.len() - j,
{
    let mut r: Vec<char> = Vec::new();
    let mut k = j;
    let ghost acc = Seq::<char>::empty();
    while k < doc.nodes.len()
        invariant
            p < j <= k <= doc.nodes@.len(),
            p < doc.nodes@.len(),
            markup_children(doc, p as int, j as int) == r@ + markup_children(
                doc,
                p as int,
                k as int,
            ),
        decreases doc.nodes@.len() - k,
    {
        let child = match doc.nodes[k].parent {
            Some(q) => q < k && q == p,
            None => false,
        };
        let ghost r0 = r@;
        if child {
            let m = convert_tags(doc, k, true);
            extend_chars(&mut r, &m);
        }
        assert(r0 + markup_children(doc, p as int, k as int) =~= r@ + markup_children(
            doc,
            p as int,
            k + 1,
        ));
        k = k + 1;
    }
    assert(r@ + markup_children(doc, p as int, k as int) =~= r@);
    r
}

/// Whitespace normalisation: runs of two or more spaces become one space,
/// line breaks and tabs are removed, then leading and trailing whitespace is
/// trimmed. `None` only if a pattern fails to compile.
pub open spec fn trim_html_spec(input: Seq<char>) -> Option<Seq<char>> {
    match regex_replace_all(SPACES_PATTERN@, input, " "@) {
        None => None,
        Some(s0) => match regex_replace_all(BREAKS_PATTERN@, s0, ""@) {
            None => None,
            Some(s1) => Some(trim(s1)),
        },
    }
}

fn trim_html_inner(input: &str) -> (r: Option<String>)
    ensures
        match r {
            Some(s) => trim_html_spec(input@) == Some(s@),
            None => trim_html_spec(input@) is None,
        },
{
    let s0 = match replace_all(SPACES_PATTERN, input, " ") {
        Some(v) => string_from_chars(&v),
        None => {
            return None;
        },
    };
    let s1 = match replace_all(BREAKS_PATTERN, s0.as_str(), "") {
        Some(v) => v,
        None => {
            return None;
        },
    };
    let t = trim_chars(&s1);
    Some(string_from_chars(&t))
}

/// Normalises the whitespace of a text (see `trim_html_spec`); both patterns
/// must compile.
pub fn trim_html(input: &str) -> (r: String)
    requires
        trim_html_spec(input@) is Some,
    ensures
        r@ == trim_html_spec(input@).unwrap(),
{
    match trim_html_inner(input) {
        Some(t) => t,
        None => unreached(),
    }
}

/// Normalises the whitespace of a text (see `trim_html_spec`); `None` if a
/// pattern fails to compile.
pub fn try_trim_html(input: &str) -> (r: Option<String>)
    ensures
        match r {
            Some(s) => trim_html_spec(input@) == Some(s@),
            None => trim_html_spec(input@) is None,
        },
{
    match trim_html_inner(input) {
        Some(_) => Some(trim_html(input)),
        None => None,
    }
}

/// The normalised markup of a node without its own tags: the content of a
/// description or comment.
pub open spec fn node_html_spec(doc: &Document, i: int) -> Option<Seq<char>> {
    trim_html_spec(markup(doc, i, false))
}

pub(crate) fn node_html_inner(doc: &Document, i: usize) -> (r: Option<String>)
    requires
        i < doc.nodes@.len(),
    ensures
        match r {
            Some(s) => node_html_spec(doc, i as int) == Some(s@),
            None => node_html_spec(doc, i as int) is None,
        },
{
    let m = convert_tags(doc, i, false);
    let s = string_from_chars(&m);
    trim_html_inner(s.as_str())
}

/// The normalised markup of node `i` without its own tags (see
/// `node_html_spec`); both patterns must compile.
pub fn trim_node_html(doc: &Document, i: usize) -> (r: String)
    requires
        i < doc.nodes@.len(),
        node_html_spec(doc, i as int) is Some,
    ensures
        r@ == node_html_spec(doc, i as int).unwrap(),
{
    match node_html_inner(doc, i) {
        Some(t) => t,
        None => unreached(),
    }
}

/// The normalised markup of node `i` without its own tags; `None` if a
/// pattern fails to compile.
pub fn try_trim_node_html(doc: &Document, i: usize) -> (r: Option<String>)
    requires
        i < doc.nodes@.len(),
    ensures
        match r {
            Some(s) => node_html_spec(doc, i as int) == Some(s@),
            None => node_html_spec(doc, i as int) is None,
        },
{
    match node_html_inner(doc, i) {
        Some(_) => Some(trim_node_html(doc, i)),
        None => None,
    }
}


/// The normalised markup of a node is `trim_html` applied to the node's
/// markup without its own tags (what `convert_tags(doc, i, false)` gives).
pub proof fn lemma_node_html_is_trimmed_markup(doc: &Document, i: int)
    ensures
        node_html_spec(doc, i) == trim_html_spec(markup(doc, i, false)),
{
}

/// A text node's markup is its text, whatever the text and wherever the
/// node stands.
pub proof fn lemma_text_node_markup(doc: &Document, j: int, write_tags: bool)
    requires
        0 <= j < doc.len(),
    ensures
        doc.nodes@[j].data matches NodeData::Text(t) ==> markup(doc, j, write_tags) == t@,
{
}

/// The markups, with tags, of the nodes `s`, one after the other.
pub open spec fn markup_of_all(doc: &Document, s: Seq<usize>) -> Seq<char>
    decreases s.len(),
{
    if s.len() == 0 {
        Seq::empty()
    } else {
        markup(doc, s[0] as int, true) + markup_of_all(doc, s.drop_first())
    }
}

proof fn lemma_children_markup_from(doc: &Document, p: int, j: int)
    requires
        0 <= p < j,
        p < doc.len(),
        doc.len() <= usize::MAX,
    ensures
        markup_children(doc, p, j) == markup_of_all(doc, doc.children_from(p, j)),
    decreases doc.len() - j,
{
    if j < doc.len() {
        lemma_children_markup_from(doc, p, j + 1);
        let rest = doc.children_from(p, j + 1);
        if doc.parent_of(j) == Some(p) {
            let c = doc.children_from(p, j);
            assert(c == seq![j as usize] + rest);
            assert(c[0] as int == j);
            assert(c.drop_first() =~= rest);
            assert(markup_of_all(doc, c) == markup(doc, j, true) + markup_of_all(doc, rest));
            assert(markup_children(doc, p, j) == markup(doc, j, true) + markup_children(doc, p, j + 1));
        } else {
            assert(doc.children_from(p, j) == rest);
            assert(markup_children(doc, p, j) == markup_children(doc, p, j + 1));
        }
    } else {
        assert(doc.children_from(p, j) == Seq::<usize>::empty());
        assert(markup_children(doc, p, j) == Seq::<char>::empty());
    }
}

/// An element's markup is its opening tag (when tags are written), the
/// markups of all its children (`Document::children`), each with its tags,
/// in order, and its closing tag (when tags are written and it is not `br`).
pub proof fn lemma_element_markup(doc: &Document, p: int, write_tags: bool)
    requires
        0 <= p < doc.len(),
        doc.len() <= usize::MAX,
    ensures
        doc.nodes@[p].data matches NodeData::Element(n, _) ==> markup(doc, p, write_tags) == (if write_tags {
            seq!['['] + n@ + seq![']']
        } else {
            Seq::empty()
        }) + markup_of_all(doc, doc.children(p)) + (if write_tags && n@ != "br"@ {
            seq!['[', '/'] + n@ + seq![']']
        } else {
            Seq::empty()
        }),
{
    lemma_children_markup_from(doc, p, p + 1);
}

proof fn lemma_flat_markup_from(doc: &Document, i: int, j: int)
    requires
        0 <= i < j,
        i < doc.len(),
        forall|k: int|
            i < k < doc.len() && #[trigger] doc.is_ancestor(i, k) ==> doc.parent_of(k) == Some(i) && !(
            doc.nodes@[k].data is Element),
    ensures
        markup_children(doc, i, j) == doc.text_from(i, j),
    decreases doc.len() - j,
{
    if j < doc.len() {
        lemma_flat_markup_from(doc, i, j + 1);
        if doc.parent_of(j) == Some(i) {
            assert(doc.is_ancestor(i, j));
            assert(markup(doc, j, true) == doc.own_text(j));
            assert(markup_children(doc, i, j) == markup(doc, j, true) + markup_children(doc, i, j + 1));
            assert(doc.text_from(i, j) == doc.own_text(j) + doc.text_from(i, j + 1));
        } else {
            if doc.is_ancestor(i, j) {
                assert(doc.parent_of(j) == Some(i));
            }
            assert(markup_children(doc, i, j) == markup_children(doc, i, j + 1));
            assert(doc.text_from(i, j) == doc.text_from(i, j + 1));
        }
    } else {
        assert(markup_children(doc, i, j) == Seq::<char>::empty());
        assert(doc.text_from(i, j) == Seq::<char>::empty());
    }
}

/// The markup of an element whose subtree holds no other element (its
/// descendants are text or comments directly under it) is exactly its text
/// content: every character of every text node, in document order.
pub proof fn lemma_flat_element_markup_is_text(doc: &Document, i: int)
    requires
        0 <= i < doc.len(),
        doc.nodes@[i].data is Element,
        forall|k: int|
            i < k < doc.len() && #[trigger] doc.is_ancestor(i, k) ==> doc.parent_of(k) == Some(i) && !(
            doc.nodes@[k].data is Element),
    ensures
        markup(doc, i, false) == doc.text(i),
{
    lemma_flat_markup_from(doc, i, i + 1);
    assert(doc.own_text(i) =~= Seq::<char>::empty());
    assert(doc.text(i) == doc.own_text(i) + doc.text_from(i, i + 1));
    assert(markup(doc, i, false) =~= markup_children(doc, i, i + 1));
}

/// Normalised text neither starts nor ends with whitespace.
pub proof fn lemma_trim_html_no_outer_ws(input: Seq<char>)
    ensures
        trim_html_spec(input) matches Some(t) ==> t.len() == 0 || (!is_ws(t[0]) && !is_ws(
            t.last(),
        )),
{
    if let Some(s0) = regex_replace_all(SPACES_PATTERN@, input, " "@) {
        if let Some(s1) = regex_replace_all(BREAKS_PATTERN@, s0, ""@) {
            lemma_trim_no_outer_ws(s1);
        }
    }
}

} // verus!
