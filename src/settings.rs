//! Reading the configured local repository out of a build-tool settings document.
use vstd::prelude::*;
use crate::text::{trim_of, trimmed};

verus! {

/// One node of a parsed document: its local tag name (empty for a node that is
/// not an element) and its text, if it has any.
pub type XmlNodeView = (Seq<char>, Option<Seq<char>>);

/// The nodes of the document written in `text`, in document order, or `None`
/// where `text` is not a well-formed document.
pub uninterp spec fn xml_nodes_of(text: Seq<char>) -> Option<Seq<XmlNodeView>>;

/// Relies on `roxmltree::Document::parse` and `Document::descendants`: whether
/// `text` parses, and then the tag name and text of each node in document order.
#[verifier::external_body]
fn xml_nodes(text: &str) -> (r: Option<Vec<(String, Option<String>)>>)
    ensures
        r.deep_view() == xml_nodes_of(text@),
{
    let doc = roxmltree::Document::parse(text).ok()?;
    let mut nodes = Vec::new();
    for n in doc.descendants() {
        nodes.push((n.tag_name().name().to_string(), n.text().map(str::to_string)));
    }
    Some(nodes)
}

/// The element that names the local repository.
pub open spec fn repository_tag() -> Seq<char> {
    "localRepository"@
}

/// What one node says of the local repository: its trimmed text, where it is a
/// `localRepository` element whose trimmed text is not empty.
pub open spec fn repository_of_node(node: XmlNodeView) -> Option<Seq<char>> {
    if node.0 == repository_tag() && node.1 is Some && trim_of(node.1->0).len() > 0 {
        Some(trim_of(node.1->0))
    } else {
        None
    }
}

/// The first answer, in document order, among `nodes`.
pub open spec fn first_repository(nodes: Seq<XmlNodeView>) -> Option<Seq<char>>
    decreases nodes.len(),
{
    if nodes.len() == 0 {
        None
    } else if repository_of_node(nodes[0]) is Some {
        repository_of_node(nodes[0])
    } else {
        first_repository(nodes.drop_first())
    }
}

/// The local repository that the settings document `text` configures, if any.
pub open spec fn repository_in_settings(text: Seq<char>) -> Option<Seq<char>> {
    match xml_nodes_of(text) {
        Some(nodes) => first_repository(nodes),
        None => None,
    }
}

/// The first configured local repository among the parsed `nodes`.
pub fn repository_in_nodes(nodes: &Vec<(String, Option<String>)>) -> (r: Option<String>)
    ensures
        r.deep_view() == first_repository(nodes.deep_view()),
{
    let tag = "localRepository".to_owned();
    let ghost all = nodes.deep_view();
    let mut i: usize = 0;
    assert(all.subrange(0, all.len() as int) =~= all);
    while i < nodes.len()
        invariant
            i <= nodes.len(),
            all == nodes.deep_view(),
            all.len() == nodes.len(),
            tag@ == repository_tag(),
            first_repository(all) == first_repository(all.subrange(i as int, all.len() as int)),
        decreases nodes.len() - i,
    {
        let node = &nodes[i];
        let ghost rest = all.subrange(i as int, all.len() as int);
        assert(rest[0] == all[i as int]);
        assert(rest.drop_first() =~= all.subrange(i + 1, all.len() as int));
        if node.0 == tag {
            if let Some(t) = &node.1 {
                let value = trimmed(t.as_str());
                if value.as_str().unicode_len() > 0 {
                    return Some(value);
                }
            }
        }
        i = i + 1;
    }
    None
}

/// The local repository that the settings document `text` configures: `None`
/// where the text does not parse, holds no `localRepository` element, or each
/// such element's text is empty after trimming.
pub fn local_repository_of(text: &str) -> (r: Option<String>)
    ensures
        r.deep_view() == repository_in_settings(text@),
{
    match xml_nodes(text) {
        Some(nodes) => repository_in_nodes(&nodes),
        None => None,
    }
}

} // verus!
