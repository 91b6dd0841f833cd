use vstd::prelude::*;

use crate::error::{OPMLError, OPMLErrorView};
use crate::feed::{feeds_view, Feed, FeedView};
use crate::strutil::{clone_strings, lower_of, lowercase, spec_join, str_eq};
use crate::xml::{nodes_view, parse_xml_nodes, spec_tree_shape_ok, tree_shape_ok, xml_tree_of,
    XmlNode, XmlNodeView};

verus! {

/// The most deeply nested category path the parser accepts.
pub const MAX_CATEGORY_DEPTH: usize = 100;

/// The canonical form under which two feed URLs count as duplicates:
/// lower-cased, without a trailing slash, and with an `http://` scheme
/// standardized to `https://`.
pub open spec fn spec_normalize_url(u: Seq<char>) -> Seq<char> {
    let l = lower_of(u);
    let t = if l.len() > 0 && l[l.len() - 1] == '/' {
        l.subrange(0, l.len() - 1)
    } else {
        l
    };
    if t.len() >= 7 && t.subrange(0, 7) == "http://"@ {
        "https://"@ + t.subrange(7, t.len() as int)
    } else {
        t
    }
}

/// Normalizes a URL for duplicate detection.
pub fn normalize_url(url: &str) -> (r: String)
    ensures
        r@ == spec_normalize_url(url@),
{
    let lower = lowercase(url);
    let n = lower.as_str().unicode_len();
    let trimmed: String = if n > 0 && lower.as_str().get_char(n - 1) == '/' {
        lower.as_str().substring_char(0, n - 1).to_owned()
    } else {
        lower
    };
    let m = trimmed.as_str().unicode_len();
    if m >= 7 && str_eq(trimmed.as_str().substring_char(0, 7), "http://") {
        let mut r = String::from_str("https://");
        r.append(trimmed.as_str().substring_char(7, m));
        proof {
            assert(r@ =~= spec_normalize_url(url@));
        }
        r
    } else {
        trimmed
    }
}

/// The value of the first attribute named `k` at or after position `from`.
pub open spec fn spec_attr_from(
    attrs: Seq<(Seq<char>, Seq<char>)>,
    k: Seq<char>,
    from: int,
) -> Option<Seq<char>>
    decreases attrs.len() - from,
{
    if from < 0 || from >= attrs.len() {
        None
    } else if attrs[from].0 == k {
        Some(attrs[from].1)
    } else {
        spec_attr_from(attrs, k, from + 1)
    }
}

/// The value of a node's first attribute with the given name.
pub open spec fn spec_attr(n: XmlNodeView, k: Seq<char>) -> Option<Seq<char>> {
    spec_attr_from(n.attrs, k, 0)
}

fn get_attr(node: &XmlNode, key: &str) -> (r: Option<String>)
    ensures
        match r {
            Some(v) => spec_attr(node@, key@) == Some(v@),
            None => spec_attr(node@, key@) == None::<Seq<char>>,
        },
{
    let ghost av = node@.attrs;
    let n = node.attrs.len();
    proof {
        assert(av.len() == n);
    }
    let mut i: usize = 0;
    while i < n
        invariant
            n == node.attrs.len(),
            av == node@.attrs,
            av.len() == n,
            0 <= i <= n,
            spec_attr_from(av, key@, 0) == spec_attr_from(av, key@, i as int),
        decreases n - i,
    {
        proof {
            assert(av[i as int] == (node.attrs@[i as int].0@, node.attrs@[i as int].1@));
        }
        if str_eq(node.attrs[i].0.as_str(), key) {
            proof {
                assert(spec_attr_from(av, key@, i as int) == Some(av[i as int].1));
            }
            return Some(node.attrs[i].1.clone());
        }
        i = i + 1;
    }
    None
}

/// Whether some already-collected feed has the given normalized URL.
pub open spec fn spec_has_url(feeds: Seq<FeedView>, norm: Seq<char>) -> bool {
    exists|i: int|
        0 <= i < feeds.len() && spec_normalize_url((#[trigger] feeds[i]).xml_url) == norm
}

/// The normalized URL of each collected feed, in order.
pub open spec fn norms_of(feeds: Seq<FeedView>) -> Seq<Seq<char>> {
    feeds.map_values(|f: FeedView| spec_normalize_url(f.xml_url))
}

proof fn lemma_norms_contains(feeds: Seq<FeedView>, x: Seq<char>)
    ensures
        crate::report::spec_contains_str(norms_of(feeds), x) == spec_has_url(feeds, x),
{
    if crate::report::spec_contains_str(norms_of(feeds), x) {
        let i = choose|i: int| 0 <= i < norms_of(feeds).len() && norms_of(feeds)[i] == x;
        assert(norms_of(feeds)[i] == spec_normalize_url(feeds[i].xml_url));
        assert(spec_has_url(feeds, x));
    }
    if spec_has_url(feeds, x) {
        let i = choose|i: int|
            0 <= i < feeds.len() && spec_normalize_url(#[trigger] feeds[i].xml_url) == x;
        assert(norms_of(feeds)[i] == x);
        assert(crate::report::spec_contains_str(norms_of(feeds), x));
    }
}

/// An outline's display title: the `text` attribute, or failing that the
/// `title` attribute.
pub open spec fn spec_title_of(n: XmlNodeView) -> Option<Seq<char>> {
    match spec_attr(n, "text"@) {
        Some(v) => Some(v),
        None => spec_attr(n, "title"@),
    }
}

/// Walks the outline element at index `i`: too-deep category paths are
/// rejected, and otherwise its children are walked in document order.
pub open spec fn spec_walk_node(
    nodes: Seq<XmlNodeView>,
    i: int,
    cats: Seq<Seq<char>>,
    acc: Seq<FeedView>,
) -> Result<Seq<FeedView>, OPMLErrorView>
    decreases nodes.len() - i, nodes.len() + 1,
{
    if cats.len() >= MAX_CATEGORY_DEPTH {
        Err(OPMLErrorView::CategoryNestingTooDeep(MAX_CATEGORY_DEPTH))
    } else if i < 0 || i >= nodes.len() {
        Ok(acc)
    } else {
        spec_walk_children(nodes, i, i + 1, cats, acc)
    }
}

/// Walks the children of node `i` from position `j` on: an `outline` child
/// with a title but neither `type` nor `xmlUrl` opens a category; an
/// `outline` child with a title, an `xmlUrl`, and no `type` other than
/// `rss` contributes a feed unless its normalized URL was already collected;
/// anything else is skipped.
pub open spec fn spec_walk_children(
    nodes: Seq<XmlNodeView>,
    i: int,
    j: int,
    cats: Seq<Seq<char>>,
    acc: Seq<FeedView>,
) -> Result<Seq<FeedView>, OPMLErrorView>
    decreases nodes.len() - i, nodes.len() - j,
{
    if !(0 <= i && i < j && j <= nodes.len()) {
        Ok(acc)
    } else if j == nodes.len() {
        Ok(acc)
    } else if nodes[j].parent == Some(i as usize) && nodes[j].name == "outline"@ {
        let t = spec_attr(nodes[j], "type"@);
        let x = spec_attr(nodes[j], "xmlUrl"@);
        let ti = spec_title_of(nodes[j]);
        if t is None && x is None && ti is Some {
            match spec_walk_node(nodes, j, cats.push(ti->0), acc) {
                Ok(acc2) => spec_walk_children(nodes, i, j + 1, cats, acc2),
                Err(e) => Err(e),
            }
        } else if x is Some && ti is Some && (t is None || t == Some("rss"@)) {
            let acc2 = if spec_has_url(acc, spec_normalize_url(x->0)) {
                acc
            } else {
                acc.push(
                    FeedView {
                        title: ti->0,
                        xml_url: x->0,
                        html_url: spec_attr(nodes[j], "htmlUrl"@),
                        category: cats,
                    },
                )
            };
            spec_walk_children(nodes, i, j + 1, cats, acc2)
        } else {
            spec_walk_children(nodes, i, j + 1, cats, acc)
        }
    } else {
        spec_walk_children(nodes, i, j + 1, cats, acc)
    }
}

#[verifier::loop_isolation(false)]
fn walk_node(
    nodes: &Vec<XmlNode>,
    i: usize,
    cats: &Vec<String>,
    feeds: Vec<Feed>,
    norms: Vec<String>,
) -> (r: Result<(Vec<Feed>, Vec<String>), OPMLError>)
    requires
        i < nodes@.len(),
        norms.deep_view() == norms_of(feeds_view(feeds@)),
    ensures
        r matches Ok(out) ==> spec_walk_node(
            nodes_view(nodes@),
            i as int,
            cats.deep_view(),
            feeds_view(feeds@),
        ) == Ok::<Seq<FeedView>, OPMLErrorView>(feeds_view(out.0@)) && out.1.deep_view()
            == norms_of(feeds_view(out.0@)),
        r matches Err(e) ==> spec_walk_node(
            nodes_view(nodes@),
            i as int,
            cats.deep_view(),
            feeds_view(feeds@),
        ) == Err::<Seq<FeedView>, OPMLErrorView>(e@),
    decreases nodes@.len() - i,
{
    let ghost nv = nodes_view(nodes@);
    let ghost cv = cats.deep_view();
    let ghost acc0 = feeds_view(feeds@);
    proof {
        assert(cv.len() == cats@.len());
    }
    if cats.len() >= MAX_CATEGORY_DEPTH {
        return Err(OPMLError::CategoryNestingTooDeep(MAX_CATEGORY_DEPTH));
    }
    let mut acc = feeds;
    let mut cache = norms;
    let n = nodes.len();
    proof {
        assert(nv.len() == n);
    }
    let mut j: usize = i + 1;
    while j < n
        invariant
            n == nodes.len(),
            nv == nodes_view(nodes@),
            cv == cats.deep_view(),
            nv.len() == n,
            i < j <= n,
            cats.len() < MAX_CATEGORY_DEPTH,
            cache.deep_view() == norms_of(feeds_view(acc@)),
            spec_walk_children(nv, i as int, i + 1, cv, acc0) == spec_walk_children(
                nv,
                i as int,
                j as int,
                cv,
                feeds_view(acc@),
            ),
        decreases n - j,
    {
        let ghost accj = feeds_view(acc@);
        proof {
            assert(nv[j as int] == nodes@[j as int]@);
        }
        let is_child = match nodes[j].parent {
            Some(p) => p == i,
            None => false,
        };
        if is_child && str_eq(nodes[j].name.as_str(), "outline") {
            let t = get_attr(&nodes[j], "type");
            let x = get_attr(&nodes[j], "xmlUrl");
            let ti = match get_attr(&nodes[j], "text") {
                Some(v) => Some(v),
                None => get_attr(&nodes[j], "title"),
            };
            proof {
                assert(match ti {
                    Some(v) => spec_title_of(nv[j as int]) == Some(v@),
                    None => spec_title_of(nv[j as int]) == None::<Seq<char>>,
                });
            }
            if t.is_none() && x.is_none() && ti.is_some() {
                // A category node: walk into it with its title appended to
                // the path.
                let title = match ti {
                    Some(v) => v,
                    None => String::new(),
                };
                let mut cats2 = clone_strings(cats);
                cats2.push(title);
                proof {
                    assert(cats2.deep_view() =~= cv.push(spec_title_of(nv[j as int])->0));
                }
                let pair = match walk_node(nodes, j, &cats2, acc, cache) {
                    Ok(p) => p,
                    Err(e) => {
                        proof {
                            assert(spec_walk_children(nv, i as int, j as int, cv, accj)
                                == Err::<Seq<FeedView>, OPMLErrorView>(e@));
                            assert(spec_walk_node(nv, i as int, cv, acc0) == Err::<
                                Seq<FeedView>,
                                OPMLErrorView,
                            >(e@));
                        }
                        return Err(e);
                    },
                };
                acc = pair.0;
                cache = pair.1;
            } else {
                let is_feed_node = x.is_some() && ti.is_some() && (match &t {
                    Some(tv) => str_eq(tv.as_str(), "rss"),
                    None => true,
                });
                if is_feed_node {
                    let xml_url = match x {
                        Some(v) => v,
                        None => String::new(),
                    };
                    let title = match ti {
                        Some(v) => v,
                        None => String::new(),
                    };
                    let norm = normalize_url(xml_url.as_str());
                    proof {
                        lemma_norms_contains(accj, norm@);
                    }
                    if !crate::report::contains_str(&cache, norm.as_str()) {
                        let html = get_attr(&nodes[j], "htmlUrl");
                        let f = Feed::new(title, xml_url, html, clone_strings(cats));
                        proof {
                            assert(f@.category =~= cv);
                        }
                        acc.push(f);
                        cache.push(norm);
                        proof {
                            assert(feeds_view(acc@) =~= accj.push(f@));
                            assert(norm@ == spec_normalize_url(f@.xml_url));
                            assert(cache.deep_view() =~= norms_of(accj).push(norm@));
                            assert(norms_of(accj.push(f@)) =~= norms_of(accj).push(
                                spec_normalize_url(f@.xml_url),
                            ));
                            assert(cache.deep_view() =~= norms_of(feeds_view(acc@)));
                        }
                    }
                }
            }
        }
        proof {
            assert(spec_walk_children(nv, i as int, j as int, cv, accj) == spec_walk_children(
                nv,
                i as int,
                j + 1,
                cv,
                feeds_view(acc@),
            ));
        }
        j = j + 1;
    }
    proof {
        assert(spec_walk_children(nv, i as int, n as int, cv, feeds_view(acc@))
            == Ok::<Seq<FeedView>, OPMLErrorView>(feeds_view(acc@)));
    }
    Ok((acc, cache))
}

/// The first node at or after `from` with the given element name, in
/// document order.
pub open spec fn spec_find_named(nodes: Seq<XmlNodeView>, name: Seq<char>, from: int) -> Option<
    int,
>
    decreases nodes.len() - from,
{
    if from < 0 || from >= nodes.len() {
        None
    } else if nodes[from].name == name {
        Some(from)
    } else {
        spec_find_named(nodes, name, from + 1)
    }
}

fn find_named(nodes: &Vec<XmlNode>, name: &str) -> (r: Option<usize>)
    ensures
        match r {
            Some(b) => b < nodes@.len() && spec_find_named(nodes_view(nodes@), name@, 0) == Some(
                b as int,
            ),
            None => spec_find_named(nodes_view(nodes@), name@, 0) == None::<int>,
        },
{
    let ghost nv = nodes_view(nodes@);
    let n = nodes.len();
    proof {
        assert(nv.len() == n);
    }
    let mut i: usize = 0;
    while i < n
        invariant
            n == nodes.len(),
            nv == nodes_view(nodes@),
            nv.len() == n,
            0 <= i <= n,
            spec_find_named(nv, name@, 0) == spec_find_named(nv, name@, i as int),
        decreases n - i,
    {
        proof {
            assert(nv[i as int] == nodes@[i as int]@);
        }
        if str_eq(nodes[i].name.as_str(), name) {
            return Some(i);
        }
        i = i + 1;
    }
    None
}

/// What parsing an OPML text yields: the feeds under the first `body`
/// element, with their category paths, in document order, duplicates (by
/// normalized URL) dropped.
pub open spec fn spec_parse_opml(s: Seq<char>) -> Result<Seq<FeedView>, OPMLErrorView> {
    match xml_tree_of(s) {
        Err(e) => Err(OPMLErrorView::XMLParsing(e)),
        Ok(nodes) => if !spec_tree_shape_ok(nodes) {
            Err(OPMLErrorView::InvalidStructure("document nodes out of order"@))
        } else {
            match spec_find_named(nodes, "body"@, 0) {
                None => Err(OPMLErrorView::NoBodyTag),
                Some(b) => spec_walk_node(nodes, b, Seq::empty(), Seq::empty()),
            }
        },
    }
}

/// Parses an OPML document into its feeds, rejecting malformed XML, a
/// missing `body` element, and category paths nested deeper than
/// `MAX_CATEGORY_DEPTH`.
pub fn parse_opml(content: &str) -> (r: Result<Vec<Feed>, OPMLError>)
    ensures
        match r {
            Ok(feeds) => spec_parse_opml(content@) == Ok::<Seq<FeedView>, OPMLErrorView>(
                feeds_view(feeds@),
            ),
            Err(e) => spec_parse_opml(content@) == Err::<Seq<FeedView>, OPMLErrorView>(e@),
        },
{
    let nodes = match parse_xml_nodes(content) {
        Ok(nodes) => nodes,
        Err(e) => {
            return Err(OPMLError::XMLParsing(e));
        },
    };
    // Trees from the XML parser always satisfy this shape; checking it here
    // keeps the walkers from trusting anything about node ordering.
    if !tree_shape_ok(&nodes) {
        return Err(OPMLError::InvalidStructure(String::from_str("document nodes out of order")));
    }
    let body = match find_named(&nodes, "body") {
        Some(b) => b,
        None => {
            return Err(OPMLError::NoBodyTag);
        },
    };
    let empty_cats: Vec<String> = Vec::new();
    let feeds: Vec<Feed> = Vec::new();
    let norms: Vec<String> = Vec::new();
    proof {
        assert(empty_cats.deep_view() =~= Seq::<Seq<char>>::empty());
        assert(feeds_view(feeds@) =~= Seq::<FeedView>::empty());
        assert(norms.deep_view() =~= norms_of(feeds_view(feeds@)));
    }
    match walk_node(&nodes, body, &empty_cats, feeds, norms) {
        Ok(pair) => Ok(pair.0),
        Err(e) => Err(e),
    }
}

/// A sequence of `n` spaces.
pub open spec fn spec_spaces(n: nat) -> Seq<char>
    decreases n,
{
    if n == 0 {
        Seq::empty()
    } else {
        spec_spaces((n - 1) as nat).push(' ')
    }
}

/// The characters of a string split on a separator character; a string
/// without the separator is one piece, and every separator opens a new
/// (possibly empty) piece.
pub open spec fn spec_split(s: Seq<char>, c: char) -> Seq<Seq<char>>
    decreases s.len(),
{
    if s.len() == 0 {
        seq![Seq::<char>::empty()]
    } else if s[0] == c {
        seq![Seq::<char>::empty()] + spec_split(s.skip(1), c)
    } else {
        let rest = spec_split(s.skip(1), c);
        seq![seq![s[0]] + rest[0]] + rest.skip(1)
    }
}

proof fn lemma_split_nonempty(s: Seq<char>, c: char)
    ensures
        spec_split(s, c).len() >= 1,
    decreases s.len(),
{
    if s.len() > 0 {
        lemma_split_nonempty(s.skip(1), c);
    }
}

#[verifier::loop_isolation(false)]
fn split_char(s: &str, c: char) -> (r: Vec<String>)
    ensures
        r.deep_view() == spec_split(s@, c),
        r@.len() >= 1,
    decreases s@.len(),
{
    proof {
        lemma_split_nonempty(s@, c);
    }
    let n = s.unicode_len();
    if n == 0 {
        let r: Vec<String> = vec![String::new()];
        proof {
            assert(r.deep_view() =~= spec_split(s@, c));
        }
        r
    } else if s.get_char(0) == c {
        let rest = s.substring_char(1, n);
        let mut r = split_char(rest, c);
        r.insert(0, String::new());
        proof {
            assert(rest@ =~= s@.skip(1));
            assert(r.deep_view() =~= spec_split(s@, c));
        }
        r
    } else {
        let rest = s.substring_char(1, n);
        let mut r = split_char(rest, c);
        let head = r.remove(0);
        let mut first = String::new();
        crate::strutil::push_char(&mut first, s.get_char(0));
        first.append(head.as_str());
        r.insert(0, first);
        proof {
            assert(rest@ =~= s@.skip(1));
            assert(first@ =~= seq![s@[0]] + spec_split(s@.skip(1), c)[0]);
            assert(r.deep_view() =~= spec_split(s@, c));
        }
        r
    }
}

/// One feed entry line of the generated OPML, at the given indent.
pub open spec fn spec_feed_entry(f: FeedView, indent: nat) -> Seq<char> {
    spec_spaces(indent) + "<outline type=\"rss\" text=\""@ + f.title + "\" title=\""@ + f.title
        + "\" xmlUrl=\""@ + f.xml_url + "\""@ + (match f.html_url {
        Some(h) => " htmlUrl=\""@ + h + "\""@,
        None => Seq::<char>::empty(),
    }) + "/>\\n"@
}

/// The feed entry lines for a list of feeds, in order.
pub open spec fn spec_feed_entries(fs: Seq<FeedView>, indent: nat) -> Seq<char>
    decreases fs.len(),
{
    if fs.len() == 0 {
        Seq::empty()
    } else {
        spec_feed_entries(fs.drop_last(), indent) + spec_feed_entry(fs.last(), indent)
    }
}

/// The opening category tags for a path, indented two further per level.
pub open spec fn spec_open_tags(parts: Seq<Seq<char>>, indent: nat) -> Seq<char>
    decreases parts.len(),
{
    if parts.len() == 0 {
        Seq::empty()
    } else {
        spec_spaces(indent) + "<outline text=\""@ + parts[0] + "\">\n"@ + spec_open_tags(
            parts.skip(1),
            indent + 2,
        )
    }
}

/// The closing category tags, from the innermost level back out to `base`.
pub open spec fn spec_close_tags(count: nat, base: nat) -> Seq<char>
    decreases count,
{
    if count == 0 {
        Seq::empty()
    } else {
        spec_spaces((base + 2 * (count - 1)) as nat) + "</outline>\n"@ + spec_close_tags(
            (count - 1) as nat,
            base,
        )
    }
}

/// The position of the first group with the given category-path key.
pub open spec fn spec_group_index(
    groups: Seq<(Seq<char>, Seq<FeedView>)>,
    key: Seq<char>,
    from: int,
) -> Option<int>
    decreases groups.len() - from,
{
    if from < 0 || from >= groups.len() {
        None
    } else if groups[from].0 == key {
        Some(from)
    } else {
        spec_group_index(groups, key, from + 1)
    }
}

pub(crate) proof fn lemma_group_index_found(groups: Seq<(Seq<char>, Seq<FeedView>)>, key: Seq<char>, from: int)
    requires
        spec_group_index(groups, key, from) is Some,
    ensures
        match spec_group_index(groups, key, from) {
            Some(k) => from <= k < groups.len() && groups[k].0 == key,
            None => false,
        },
    decreases groups.len() - from,
{
    if !(from < 0 || from >= groups.len()) && !(groups[from].0 == key) {
        lemma_group_index_found(groups, key, from + 1);
    }
}

/// Feeds grouped by their joined category path, groups in order of first
/// appearance and feeds within a group in input order.
pub open spec fn spec_groups(feeds: Seq<FeedView>) -> Seq<(Seq<char>, Seq<FeedView>)>
    decreases feeds.len(),
{
    if feeds.len() == 0 {
        Seq::empty()
    } else {
        let g = spec_groups(feeds.drop_last());
        let f = feeds.last();
        let key = spec_join(f.category, "/"@);
        match spec_group_index(g, key, 0) {
            Some(k) => g.update(k, (key, g[k].1.push(f))),
            None => g.push((key, seq![f])),
        }
    }
}

/// The entry lines for the uncategorized feeds (the empty category path).
pub open spec fn spec_uncategorized(groups: Seq<(Seq<char>, Seq<FeedView>)>) -> Seq<char> {
    match spec_group_index(groups, Seq::empty(), 0) {
        Some(k) => spec_feed_entries(groups[k].1, 4),
        None => Seq::empty(),
    }
}

/// One category's section: its opening tags, its feed entries at the
/// innermost indent, and its closing tags.
pub open spec fn spec_category_section(key: Seq<char>, fs: Seq<FeedView>) -> Seq<char> {
    let parts = spec_split(key, '/');
    spec_open_tags(parts, 4) + spec_feed_entries(fs, (4 + 2 * parts.len()) as nat)
        + spec_close_tags(parts.len(), 4)
}

/// The sections for every group with a non-empty category path, in group
/// order.
pub open spec fn spec_category_sections(groups: Seq<(Seq<char>, Seq<FeedView>)>) -> Seq<char>
    decreases groups.len(),
{
    if groups.len() == 0 {
        Seq::empty()
    } else {
        spec_category_sections(groups.drop_last()) + (if groups.last().0.len() > 0 {
            spec_category_section(groups.last().0, groups.last().1)
        } else {
            Seq::empty()
        })
    }
}

/// The OPML document generated for a feed list, given the creation date
/// string for its header.
pub open spec fn spec_generate_opml(feeds: Seq<FeedView>, ts: Seq<char>) -> Seq<char> {
    let groups = spec_groups(feeds);
    "<?xml version=\"1.0\" encoding=\"UTF-8\"?>\n<opml version=\"2.0\">\n  <head>\n    <title>Feed List</title>\n    <dateCreated>"@
        + ts + "</dateCreated>\n  </head>\n  <body>\n"@ + spec_uncategorized(groups)
        + spec_category_sections(groups) + "  </body>\n</opml>"@
}

/// Every category section's indentation stays within the machine's integer
/// range; anything remotely realistic satisfies this.
pub open spec fn spec_indents_fit(feeds: Seq<FeedView>) -> bool {
    forall|k: int|
        0 <= k < spec_groups(feeds).len() ==> 4 + 2 * spec_split(
            (#[trigger] spec_groups(feeds)[k]).0,
            '/',
        ).len() <= usize::MAX
}

/// The views of a group list.
pub open spec fn groups_view(groups: Seq<(String, Vec<Feed>)>) -> Seq<(Seq<char>, Seq<FeedView>)> {
    groups.map_values(|p: (String, Vec<Feed>)| (p.0@, feeds_view(p.1@)))
}

#[verifier::loop_isolation(false)]
fn push_spaces(out: &mut String, n: usize)
    ensures
        final(out)@ == old(out)@ + spec_spaces(n as nat),
{
    proof {
        assert(out@ =~= old(out)@ + spec_spaces(0));
    }
    let mut i: usize = 0;
    while i < n
        invariant
            0 <= i <= n,
            out@ == old(out)@ + spec_spaces(i as nat),
        decreases n - i,
    {
        crate::strutil::push_char(out, ' ');
        proof {
            assert(out@ =~= old(out)@ + spec_spaces((i + 1) as nat));
        }
        i = i + 1;
    }
}

#[verifier::loop_isolation(false)]
fn push_feed_entry(out: &mut String, f: &Feed, indent: usize)
    ensures
        final(out)@ == old(out)@ + spec_feed_entry(f@, indent as nat),
{
    push_spaces(out, indent);
    out.append("<outline type=\"rss\" text=\"");
    out.append(f.title.as_str());
    out.append("\" title=\"");
    out.append(f.title.as_str());
    out.append("\" xmlUrl=\"");
    out.append(f.xml_url.as_str());
    out.append("\"");
    match &f.html_url {
        Some(h) => {
            out.append(" htmlUrl=\"");
            out.append(h.as_str());
            out.append("\"");
        },
        None => {},
    }
    out.append("/>\\n");
    proof {
        assert(out@ =~= old(out)@ + spec_feed_entry(f@, indent as nat));
    }
}

#[verifier::loop_isolation(false)]
fn push_feed_entries(out: &mut String, fs: &Vec<Feed>, indent: usize)
    ensures
        final(out)@ == old(out)@ + spec_feed_entries(feeds_view(fs@), indent as nat),
{
    let ghost fv = feeds_view(fs@);
    proof {
        assert(fv.len() == fs@.len());
        assert(out@ =~= old(out)@ + spec_feed_entries(fv.take(0), indent as nat));
    }
    let n = fs.len();
    let mut i: usize = 0;
    while i < n
        invariant
            0 <= i <= n,
            out@ == old(out)@ + spec_feed_entries(fv.take(i as int), indent as nat),
        decreases n - i,
    {
        push_feed_entry(out, &fs[i], indent);
        proof {
            assert(fv.take(i + 1).drop_last() =~= fv.take(i as int));
            assert(fv[i as int] == fs@[i as int]@);
            assert(out@ =~= old(out)@ + spec_feed_entries(fv.take(i + 1), indent as nat));
        }
        i = i + 1;
    }
    proof {
        assert(fv.take(n as int) =~= fv);
    }
}

#[verifier::loop_isolation(false)]
fn push_category_section(out: &mut String, key: &String, fs: &Vec<Feed>)
    requires
        4 + 2 * spec_split(key@, '/').len() <= usize::MAX,
    ensures
        final(out)@ == old(out)@ + spec_category_section(key@, feeds_view(fs@)),
{
    let ghost parts_spec = spec_split(key@, '/');
    let parts = split_char(key.as_str(), '/');
    proof {
        assert(parts.deep_view() == parts_spec);
        assert(parts.deep_view().len() == parts@.len());
    }
    let count = parts.len();
    proof {
        assert(parts_spec.skip(0) =~= parts_spec);
    }
    // Opening tags, two more spaces per level.
    let mut level: usize = 0;
    while level < count
        invariant
            0 <= level <= count,
            out@ + spec_open_tags(parts_spec.skip(level as int), (4 + 2 * level) as nat) == old(
                out,
            )@ + spec_open_tags(parts_spec, 4),
        decreases count - level,
    {
        let ghost pre = out@;
        push_spaces(out, 4 + 2 * level);
        out.append("<outline text=\"");
        out.append(parts[level].as_str());
        out.append("\">\n");
        proof {
            assert(parts_spec[level as int] == parts@[level as int]@);
            assert(parts_spec.skip(level as int)[0] == parts_spec[level as int]);
            assert(parts_spec.skip(level as int).skip(1) =~= parts_spec.skip(level + 1));
            assert(out@ =~= pre + (spec_spaces((4 + 2 * level) as nat) + "<outline text=\""@
                + parts_spec[level as int] + "\">\n"@));
            assert(out@ + spec_open_tags(parts_spec.skip(level + 1), (4 + 2 * (level + 1)) as nat)
                =~= old(out)@ + spec_open_tags(parts_spec, 4));
        }
        level = level + 1;
    }
    proof {
        assert(parts_spec.skip(count as int) =~= Seq::<Seq<char>>::empty());
        assert(out@ + spec_open_tags(parts_spec.skip(count as int), (4 + 2 * count) as nat) =~= out@);
        assert(out@ =~= old(out)@ + spec_open_tags(parts_spec, 4));
    }
    // The feeds of this category, at the innermost indent.
    push_feed_entries(out, fs, 4 + 2 * count);
    // Closing tags, back out.
    let ghost mid = out@;
    let mut remaining: usize = count;
    while remaining > 0
        invariant
            0 <= remaining <= count,
            out@ + spec_close_tags(remaining as nat, 4) == mid + spec_close_tags(count as nat, 4),
        decreases remaining,
    {
        let ghost pre = out@;
        push_spaces(out, 4 + 2 * (remaining - 1));
        out.append("</outline>\n");
        proof {
            assert(out@ =~= pre + (spec_spaces((4 + 2 * (remaining - 1)) as nat)
                + "</outline>\n"@));
            assert(out@ + spec_close_tags((remaining - 1) as nat, 4) =~= mid + spec_close_tags(
                count as nat,
                4,
            ));
        }
        remaining = remaining - 1;
    }
    proof {
        assert(out@ + spec_close_tags(0, 4) =~= out@);
        assert(out@ =~= old(out)@ + spec_category_section(key@, feeds_view(fs@)));
    }
}

pub(crate) fn find_group(groups: &Vec<(String, Vec<Feed>)>, key: &str) -> (r: Option<usize>)
    ensures
        match r {
            Some(k) => k < groups@.len() && spec_group_index(groups_view(groups@), key@, 0)
                == Some(k as int),
            None => spec_group_index(groups_view(groups@), key@, 0) == None::<int>,
        },
{
    let ghost gv = groups_view(groups@);
    proof {
        assert(gv.len() == groups@.len());
    }
    let n = groups.len();
    let mut i: usize = 0;
    while i < n
        invariant
            n == groups.len(),
            gv == groups_view(groups@),
            gv.len() == n,
            0 <= i <= n,
            spec_group_index(gv, key@, 0) == spec_group_index(gv, key@, i as int),
        decreases n - i,
    {
        proof {
            assert(gv[i as int] == (groups@[i as int].0@, feeds_view(groups@[i as int].1@)));
        }
        if str_eq(groups[i].0.as_str(), key) {
            return Some(i);
        }
        i = i + 1;
    }
    None
}

#[verifier::loop_isolation(false)]
fn group_feeds(feeds: &Vec<Feed>) -> (r: Vec<(String, Vec<Feed>)>)
    ensures
        groups_view(r@) == spec_groups(feeds_view(feeds@)),
{
    let ghost fv = feeds_view(feeds@);
    let mut groups: Vec<(String, Vec<Feed>)> = Vec::new();
    proof {
        assert(fv.len() == feeds@.len());
        assert(groups_view(groups@) =~= spec_groups(fv.take(0)));
    }
    let n = feeds.len();
    let mut i: usize = 0;
    while i < n
        invariant
            0 <= i <= n,
            groups_view(groups@) == spec_groups(fv.take(i as int)),
        decreases n - i,
    {
        let ghost g = groups_view(groups@);
        proof {
            assert(fv[i as int] == feeds@[i as int]@);
            assert(fv.take(i + 1).drop_last() =~= fv.take(i as int));
            assert(g.len() == groups@.len());
        }
        let key = crate::strutil::join_strings(&feeds[i].category, "/");
        proof {
            assert(key@ == spec_join(fv[i as int].category, "/"@));
        }
        match find_group(&groups, key.as_str()) {
            Some(k) => {
                proof {
                    lemma_group_index_found(g, key@, 0);
                    assert(g[k as int] == (groups@[k as int].0@, feeds_view(
                        groups@[k as int].1@,
                    )));
                }
                let ghost old_groups = groups@;
                let mut pair = groups.remove(k);
                pair.1.push(feeds[i].duplicate());
                groups.insert(k, pair);
                proof {
                    let target = g.update(k as int, (key@, g[k as int].1.push(fv[i as int])));
                    assert(groups@.len() == old_groups.len());
                    assert forall|t: int| 0 <= t < groups@.len() implies groups_view(groups@)[t]
                        == target[t] by {
                        if t < k as int {
                            assert(groups@[t] == old_groups[t]);
                        } else if t == k as int {
                            assert(feeds_view(groups@[t].1@) =~= g[k as int].1.push(
                                fv[i as int],
                            ));
                            assert(groups@[t].0@ == key@);
                        } else {
                            assert(groups@[t] == old_groups[t]);
                        }
                    }
                    assert(groups_view(groups@) =~= target);
                    assert(groups_view(groups@) =~= spec_groups(fv.take(i + 1)));
                }
            },
            None => {
                let group_feeds: Vec<Feed> = vec![feeds[i].duplicate()];
                proof {
                    assert(feeds_view(group_feeds@) =~= seq![fv[i as int]]);
                }
                groups.push((key, group_feeds));
                proof {
                    assert(groups_view(groups@) =~= g.push((key@, seq![fv[i as int]])));
                    assert(groups_view(groups@) =~= spec_groups(fv.take(i + 1)));
                }
            },
        }
        i = i + 1;
    }
    proof {
        assert(fv.take(n as int) =~= fv);
    }
    groups
}

/// Regenerates an OPML document for a feed list, with the given creation
/// date in its header: uncategorized feeds first, then each category path's
/// feeds inside nested `outline` tags, groups in order of first appearance.
#[verifier::loop_isolation(false)]
pub fn generate_opml_with_date(feeds: &Vec<Feed>, date: &str) -> (r: String)
    requires
        spec_indents_fit(feeds_view(feeds@)),
    ensures
        r@ == spec_generate_opml(feeds_view(feeds@), date@),
{
    let ghost fv = feeds_view(feeds@);
    let ghost gspec = spec_groups(fv);
    let groups = group_feeds(feeds);
    let ghost gv = groups_view(groups@);
    proof {
        assert(gv.len() == groups@.len());
    }
    let mut out = String::from_str(
        "<?xml version=\"1.0\" encoding=\"UTF-8\"?>\n<opml version=\"2.0\">\n  <head>\n    <title>Feed List</title>\n    <dateCreated>",
    );
    out.append(date);
    out.append("</dateCreated>\n  </head>\n  <body>\n");
    let ghost head = out@;
    // Uncategorized feeds first.
    proof {
        reveal_strlit("");
        assert(""@ =~= Seq::<char>::empty());
    }
    match find_group(&groups, "") {
        Some(k) => {
            proof {
                lemma_group_index_found(gv, ""@, 0);
                assert(gv[k as int] == (groups@[k as int].0@, feeds_view(groups@[k as int].1@)));
            }
            push_feed_entries(&mut out, &groups[k].1, 4);
        },
        None => {},
    }
    proof {
        assert(out@ =~= head + spec_uncategorized(gv));
    }
    let ghost uncat = out@;
    // Then every category path's feeds, inside nested outline tags.
    let n = groups.len();
    let mut i: usize = 0;
    while i < n
        invariant
            0 <= i <= n,
            out@ == uncat + spec_category_sections(gv.take(i as int)),
        decreases n - i,
    {
        let ghost pre = out@;
        proof {
            assert(gv[i as int] == (groups@[i as int].0@, feeds_view(groups@[i as int].1@)));
            assert(gv.take(i + 1).drop_last() =~= gv.take(i as int));
        }
        if !groups[i].0.as_str().is_empty() {
            push_category_section(&mut out, &groups[i].0, &groups[i].1);
        }
        proof {
            assert(out@ =~= uncat + spec_category_sections(gv.take(i + 1)));
        }
        i = i + 1;
    }
    proof {
        assert(gv.take(n as int) =~= gv);
    }
    out.append("  </body>\n</opml>");
    proof {
        assert(out@ =~= spec_generate_opml(fv, date@));
    }
    out
}

/// Regenerates an OPML document for a feed list, dated now.
pub fn generate_opml(feeds: &Vec<Feed>) -> (r: Result<String, OPMLError>)
    requires
        spec_indents_fit(feeds_view(feeds@)),
    ensures
        r is Ok,
        r matches Ok(s) ==> exists|ts: Seq<char>|
            s@ == spec_generate_opml(feeds_view(feeds@), ts),
{
    let date = crate::clock::now_opml_date();
    let s = generate_opml_with_date(feeds, date.as_str());
    proof {
        assert(s@ == spec_generate_opml(feeds_view(feeds@), date@));
    }
    Ok(s)
}

} // verus!
