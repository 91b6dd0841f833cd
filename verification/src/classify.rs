use vstd::prelude::*;

use crate::xml::{nodes_view, parse_xml_nodes, xml_tree_of, XmlNode, XmlNodeView};

verus! {

/// What the document classifier decides about a response body.
#[derive(Debug)]
pub enum Classification {
    /// The document parses as XML and the root element has an `rss` or
    /// `channel` element among its direct children.
    Rss,
    /// The document parses as XML and the root element itself is named
    /// `feed`.
    Atom,
    /// The document is not a recognizable feed; the payload explains why
    /// (a parse error message, or the fixed unrecognized-structure message).
    NeitherWithReason(String),
}

/// The mathematical value of a `Classification`.
pub enum ClassificationView {
    Rss,
    Atom,
    NeitherWithReason(Seq<char>),
}

impl View for Classification {
    type V = ClassificationView;

    open spec fn view(&self) -> ClassificationView {
        match self {
            Classification::Rss => ClassificationView::Rss,
            Classification::Atom => ClassificationView::Atom,
            Classification::NeitherWithReason(m) => ClassificationView::NeitherWithReason(m@),
        }
    }
}

/// The diagnostic for a well-formed XML document that is neither RSS nor
/// Atom.
pub open spec fn spec_unrecognized_msg() -> Seq<char> {
    "Document is not a valid RSS or Atom feed"@
}

/// The first element node at or after `from` whose parent is node `p`:
/// element nodes are exactly the nodes with a non-empty name.
pub open spec fn spec_first_child_element(
    nodes: Seq<XmlNodeView>,
    p: usize,
    from: int,
) -> Option<int>
    decreases nodes.len() - from,
{
    if from < 0 || from >= nodes.len() {
        None
    } else if nodes[from].parent == Some(p) && nodes[from].name.len() > 0 {
        Some(from)
    } else {
        spec_first_child_element(nodes, p, from + 1)
    }
}

/// Whether node `p` has a direct child named `rss` or `channel`.
pub open spec fn spec_has_feed_child(nodes: Seq<XmlNodeView>, p: usize) -> bool {
    exists|j: int|
        0 <= j < nodes.len() && (#[trigger] nodes[j]).parent == Some(p) && (nodes[j].name
            == "rss"@ || nodes[j].name == "channel"@)
}

/// The classification of a document text: a parse failure carries the parser
/// message; otherwise the root element (the first element child of the root
/// node at index 0) decides, as `spec_has_feed_child` and the name `feed`
/// say.
pub open spec fn spec_classify(s: Seq<char>) -> ClassificationView {
    match xml_tree_of(s) {
        Err(e) => ClassificationView::NeitherWithReason(e),
        Ok(nodes) => match spec_first_child_element(nodes, 0, 0) {
            None => ClassificationView::NeitherWithReason(spec_unrecognized_msg()),
            Some(r) => if spec_has_feed_child(nodes, r as usize) {
                ClassificationView::Rss
            } else if nodes[r].name == "feed"@ {
                ClassificationView::Atom
            } else {
                ClassificationView::NeitherWithReason(spec_unrecognized_msg())
            },
        },
    }
}

/// Classifying the same document text twice yields the same classification:
/// the classifier is a pure function of the text, with no I/O and no side
/// effects.
pub proof fn lemma_classify_deterministic(
    s: Seq<char>,
    c1: ClassificationView,
    c2: ClassificationView,
)
    requires
        c1 == spec_classify(s),
        c2 == spec_classify(s),
    ensures
        c1 == c2,
{
}

fn find_root_element(nodes: &Vec<XmlNode>) -> (r: Option<usize>)
    ensures
        match r {
            Some(ri) => ri < nodes@.len() && spec_first_child_element(nodes_view(nodes@), 0, 0)
                == Some(ri as int),
            None => spec_first_child_element(nodes_view(nodes@), 0, 0) == None::<int>,
        },
{
    let ghost nv = nodes_view(nodes@);
    proof {
        assert(nv.len() == nodes@.len());
    }
    let n = nodes.len();
    let mut i: usize = 0;
    while i < n
        invariant
            n == nodes.len(),
            nv == nodes_view(nodes@),
            nv.len() == n,
            0 <= i <= n,
            spec_first_child_element(nv, 0, 0) == spec_first_child_element(nv, 0, i as int),
        decreases n - i,
    {
        proof {
            assert(nv[i as int] == nodes@[i as int]@);
        }
        let is_root_child = match nodes[i].parent {
            Some(p) => p == 0,
            None => false,
        };
        if is_root_child && !nodes[i].name.as_str().is_empty() {
            proof {
                assert(spec_first_child_element(nv, 0, i as int) == Some(i as int));
            }
            return Some(i);
        }
        i = i + 1;
    }
    None
}

fn unrecognized() -> (r: String)
    ensures
        r@ == spec_unrecognized_msg(),
        r@.len() > 0,
{
    proof {
        reveal_strlit("Document is not a valid RSS or Atom feed");
    }
    String::from_str("Document is not a valid RSS or Atom feed")
}

/// Parses a response body as XML and decides whether it is an RSS document,
/// an Atom document, or neither. Pure: the result depends on `text` alone.
pub fn classify(text: &str) -> (c: Classification)
    ensures
        c@ == spec_classify(text@),
        c@ matches ClassificationView::NeitherWithReason(m) ==> m.len() > 0,
{
    let nodes: Vec<XmlNode> = match parse_xml_nodes(text) {
        Ok(nodes) => nodes,
        Err(e) => {
            return Classification::NeitherWithReason(e);
        },
    };
    let ghost nv = nodes_view(nodes@);
    let n = nodes.len();

    // The root element is the first element child of the root node.
    let root: usize = match find_root_element(&nodes) {
        Some(r) => r,
        None => {
            return Classification::NeitherWithReason(unrecognized());
        },
    };
    assert(spec_first_child_element(nv, 0, 0) == Some(root as int));

    // Does the root element have an `rss` or `channel` element child?
    let mut has_feed_child = false;
    let mut j: usize = 0;
    while j < n
        invariant
            n == nodes.len(),
            nv == nodes_view(nodes@),
            0 <= j <= n,
            has_feed_child == exists|k: int|
                0 <= k < j && (#[trigger] nv[k]).parent == Some(root) && (nv[k].name == "rss"@
                    || nv[k].name == "channel"@),
        decreases n - j,
    {
        proof {
            assert(nv[j as int] == nodes@[j as int]@);
        }
        let child_of_root = match nodes[j].parent {
            Some(p) => p == root,
            None => false,
        };
        if child_of_root && (crate::strutil::str_eq(nodes[j].name.as_str(), "rss")
            || crate::strutil::str_eq(nodes[j].name.as_str(), "channel")) {
            has_feed_child = true;
        }
        j = j + 1;
    }
    assert(has_feed_child == spec_has_feed_child(nv, root));

    if has_feed_child {
        Classification::Rss
    } else if crate::strutil::str_eq(nodes[root].name.as_str(), "feed") {
        Classification::Atom
    } else {
        Classification::NeitherWithReason(unrecognized())
    }
}

} // verus!
