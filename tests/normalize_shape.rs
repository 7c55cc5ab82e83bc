use taskblaster::dom::TreeNode;
use taskblaster::html::{fits_html_limit, normalize};

fn outline(n: &TreeNode) -> String {
    match n {
        TreeNode::Text(t) => format!("{:?}", t),
        TreeNode::Element(e) => {
            let attrs: Vec<String> =
                e.attrs.iter().map(|a| format!("{}={:?}", a.name, a.value)).collect();
            let kids: Vec<String> = e.children.iter().map(outline).collect();
            format!("<{} {}>[{}]", e.name, attrs.join(" "), kids.join(","))
        }
    }
}

fn root_outline(bytes: &[u8]) -> String {
    let doc = normalize(bytes);
    assert_eq!(doc.nodes.len(), 1);
    outline(&doc.nodes[0])
}

#[test]
fn empty_input_gives_html_head_body() {
    assert_eq!(root_outline(b""), "<html >[<head >[],<body >[]]");
}

#[test]
fn well_formed_input_keeps_its_tree() {
    assert_eq!(
        root_outline(b"<html><head></head><body><p class=\"k\">x</p></body></html>"),
        "<html >[<head >[],<body >[<p class=\"k\">[\"x\"]]]"
    );
}

#[test]
fn comments_and_doctype_left_out() {
    assert_eq!(
        root_outline(b"<!DOCTYPE html><!-- c --><p>a<!-- d -->b</p><!-- e -->"),
        "<html >[<head >[],<body >[<p >[\"a\",\"b\"]]]"
    );
}

#[test]
fn frameset_document_shape() {
    assert_eq!(
        root_outline(b"<html><head></head><frameset><frame></frameset></html>"),
        "<html >[<head >[],<frameset >[<frame >[]]]"
    );
}

#[test]
fn same_bytes_same_document() {
    let page = b"<table><tr><td>a<td>b</table><p>tail";
    assert_eq!(root_outline(page), root_outline(page));
}

#[test]
fn small_inputs_fit_the_limit() {
    assert!(fits_html_limit(b""));
    assert!(fits_html_limit(&vec![b'a'; 4096]));
}
