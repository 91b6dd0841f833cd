use vstd::prelude::*;

verus! {

/// One node of a parsed XML document, flattened to plain values.
///
/// `name` is the local tag name (empty for non-element nodes such as text and
/// comments), `attrs` the attributes as local-name/value pairs in document
/// order, and `parent` the index of the parent node in the flattened
/// document-order list (`None` for the root node at index 0).
pub struct XmlNode {
    pub name: String,
    pub attrs: Vec<(String, String)>,
    pub parent: Option<usize>,
}

/// The mathematical value of an `XmlNode`.
pub struct XmlNodeView {
    pub name: Seq<char>,
    pub attrs: Seq<(Seq<char>, Seq<char>)>,
    pub parent: Option<usize>,
}

impl View for XmlNode {
    type V = XmlNodeView;

    open spec fn view(&self) -> XmlNodeView {
        XmlNodeView {
            name: self.name@,
            attrs: self.attrs@.map_values(|a: (String, String)| (a.0@, a.1@)),
            parent: self.parent,
        }
    }
}

/// The views of a flattened node list.
pub open spec fn nodes_view(nodes: Seq<XmlNode>) -> Seq<XmlNodeView> {
    nodes.map_values(|n: XmlNode| n@)
}

/// What `roxmltree` produces for a given text: either the document's nodes in
/// document order, flattened as above, or the parser's error message. The
/// parse depends on the text alone, so the result can be given a name.
pub uninterp spec fn xml_tree_of(s: Seq<char>) -> Result<Seq<XmlNodeView>, Seq<char>>;

/// Relies on `roxmltree::Document::parse` and the node accessors `tag_name`,
/// `attributes`, `parent` and `id`: the parsed tree is a function of the text
/// alone, nodes are stored in document order with the root node first, and
/// every error message the parser renders is non-empty.
#[verifier::external_body]
pub(crate) fn parse_xml_nodes(text: &str) -> (r: Result<Vec<XmlNode>, String>)
    ensures
        match r {
            Ok(nodes) => xml_tree_of(text@) == Ok::<Seq<XmlNodeView>, Seq<char>>(
                nodes_view(nodes@),
            ),
            Err(e) => xml_tree_of(text@) == Err::<Seq<XmlNodeView>, Seq<char>>(e@) && e@.len()
                > 0,
        },
{
    match roxmltree::Document::parse(text) {
        Ok(doc) => Ok(
            doc.root().descendants().map(
                |n| XmlNode {
                    name: n.tag_name().name().to_string(),
                    attrs: n.attributes().map(
                        |a| (a.name().to_string(), a.value().to_string()),
                    ).collect(),
                    parent: n.parent().map(|p| p.id().get() as usize),
                },
            ).collect(),
        ),
        Err(e) => Err(e.to_string()),
    }
}

/// A flattened node list is well shaped when the first node is the parentless
/// root and every other node's parent comes before it in document order.
pub open spec fn spec_tree_shape_ok(nodes: Seq<XmlNodeView>) -> bool {
    forall|j: int|
        0 <= j < nodes.len() ==> match #[trigger] nodes[j].parent {
            Some(p) => j > 0 && p < j,
            None => j == 0,
        }
}

/// Checks the shape that the verified tree walkers rely on, so that nothing
/// about node ordering has to be taken on trust.
pub fn tree_shape_ok(nodes: &Vec<XmlNode>) -> (r: bool)
    ensures
        r == spec_tree_shape_ok(nodes_view(nodes@)),
{
    let ghost nv = nodes_view(nodes@);
    let n = nodes.len();
    for j in iter: 0..n
        invariant
            n == nodes.len(),
            nv == nodes_view(nodes@),
            forall|k: int|
                0 <= k < j ==> match #[trigger] nv[k].parent {
                    Some(p) => k > 0 && p < k,
                    None => k == 0,
                },
    {
        proof {
            assert(nv[j as int] == nodes@[j as int]@);
        }
        match nodes[j].parent {
            Some(p) => {
                if j == 0 || p >= j {
                    proof {
                        let jj = j as int;
                        assert(nv[jj].parent == Some(p));
                        assert(!(match nv[jj].parent {
                            Some(q) => jj > 0 && q < jj,
                            None => jj == 0,
                        }));
                        assert(!spec_tree_shape_ok(nv));
                    }
                    return false;
                }
            },
            None => {
                if j != 0 {
                    proof {
                        let jj = j as int;
                        assert(nv[jj].parent == None::<usize>);
                        assert(!(match nv[jj].parent {
                            Some(q) => jj > 0 && q < jj,
                            None => jj == 0,
                        }));
                        assert(!spec_tree_shape_ok(nv));
                    }
                    return false;
                }
            },
        }
    }
    true
}

} // verus!
