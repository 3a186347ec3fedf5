//! The document tree, as far as extraction reads it.
//!
//! Parsing markup and evaluating path expressions is the work of `libxml`. This
//! module declares its document, node and context types and gives each call that
//! extraction makes a contract. The contracts do not say what the parser or the
//! evaluator compute; they give what comes back a name, so that the functions
//! built on them can say which document was parsed, which expression was
//! evaluated below which node, and which node's text or attribute was read.
//!
//! A node or a context is a handle into the document it came from. Every
//! function of this crate that holds such a handle also holds the document, and
//! none hands a handle out. No contract here takes two documents for one: a
//! document is known by itself, not by the markup it was parsed from.

use libxml::parser::{Parser, XmlParseError};
use libxml::tree::{Document, Node};
use libxml::xpath::Context;
use vstd::prelude::*;
use vstd::string::*;

verus! {

/// `libxml::tree::Document`: a parsed document.
#[verifier::external_type_specification]
#[verifier::external_body]
pub struct ExDocument(libxml::tree::Document);

/// `libxml::tree::Node`: a node of a document.
#[verifier::external_type_specification]
#[verifier::external_body]
pub struct ExNode(libxml::tree::Node);

/// `libxml::xpath::Context`: the state in which path expressions are evaluated
/// in a document.
#[verifier::external_type_specification]
#[verifier::external_body]
pub struct ExContext(libxml::xpath::Context);

/// Why markup gave no document.
#[derive(Debug, Clone, Copy, PartialEq, Eq)]
pub enum HtmlParseFailure {
    /// The parser returned no document.
    GotNullPointer,
    /// A file could not be opened.
    FileOpenError,
    /// The markup is longer than the parser can take.
    DocumentTooLarge,
}

/// The longest markup, in bytes, that the parser takes.
pub open spec fn max_html_bytes() -> int {
    0x7fff_fffe
}

/// Whether the HTML parser makes a document of `html`.
pub uninterp spec fn html_parses(html: Seq<char>) -> bool;

/// The markup that `document` was parsed from.
pub uninterp spec fn document_source(document: Document) -> Seq<char>;

/// The document that `context` evaluates in.
pub uninterp spec fn context_document(context: Context) -> Document;

/// The node below which `context` evaluates; `None` for a context as it was
/// created.
pub uninterp spec fn context_scope(context: Context) -> Option<Node>;

/// Whether a context that evaluates in `document` can be moved below `node`.
pub uninterp spec fn context_moves(document: Document, node: Node) -> bool;

/// The nodes that `xpath` selects in `document` when evaluated below `scope`, in
/// the order in which the evaluator gives them; `None` where the evaluator
/// refuses the expression.
pub uninterp spec fn xpath_nodes(document: Document, scope: Option<Node>, xpath: Seq<char>)
    -> Option<Seq<Node>>;

/// The text content of `node`.
pub uninterp spec fn node_content(node: Node) -> Seq<char>;

/// The value of the attribute `name` of `node`, where it has one.
pub uninterp spec fn node_attribute(node: Node, name: Seq<char>) -> Option<Seq<char>>;

/// Parses `html` with `Parser::default_html().parse_string`.
///
/// The contract names whether the markup parses, and says of a document which
/// markup it came from. Of the errors it says what `parse_string` shows: the
/// input is refused as too large exactly when its length in bytes does not lie
/// below `i32::MAX`, and no file is opened.
#[verifier::external_body]
pub(crate) fn parse_html(html: &str) -> (r: Result<Document, HtmlParseFailure>)
    ensures
        match r {
            Ok(document) => html_parses(html@) && document_source(document) == html@,
            Err(failure) => !html_parses(html@) && failure != HtmlParseFailure::FileOpenError,
        },
        (r matches Err(failure) && failure == HtmlParseFailure::DocumentTooLarge)
            <==> html.spec_bytes().len() > max_html_bytes(),
{
    match Parser::default_html().parse_string(html) {
        Ok(document) => Ok(document),
        Err(XmlParseError::GotNullPointer) => Err(HtmlParseFailure::GotNullPointer),
        Err(XmlParseError::FileOpenError) => Err(HtmlParseFailure::FileOpenError),
        Err(XmlParseError::DocumentTooLarge) => Err(HtmlParseFailure::DocumentTooLarge),
    }
}

/// Creates an evaluation context with `Context::new`.
///
/// Creation may fail. A context that is created evaluates in `document` and has
/// no scope yet.
#[verifier::external_body]
pub(crate) fn new_context(document: &Document) -> (r: Option<Context>)
    ensures
        r matches Some(context) ==> context_document(context) == *document && context_scope(
            context,
        ) is None,
{
    Context::new(document).ok()
}

/// Moves `context` below `node` with `Context::set_context_node`.
///
/// The contract names the outcome: whether the move succeeds is a matter of the
/// context's document and the node, and of nothing else. It does not say for
/// which of them it succeeds. The call never changes the document of the
/// context, and after a success the context evaluates below `node`.
#[verifier::external_body]
pub(crate) fn set_context_node(context: &mut Context, node: &Node) -> (ok: bool)
    ensures
        ok == context_moves(context_document(*old(context)), *node),
        context_document(*final(context)) == context_document(*old(context)),
        ok ==> context_scope(*final(context)) == Some(*node),
{
    context.set_context_node(node).is_ok()
}

/// Evaluates `xpath` with `Context::evaluate` and takes the nodes of the result
/// with `Object::get_nodes_as_vec`.
///
/// `evaluate` panics on an expression that holds a NUL character, and
/// `get_nodes_as_vec` on a context whose document is gone: the first is left out
/// by `requires`, the second by asking for the document itself. The contract
/// names the nodes that come back.
#[verifier::external_body]
pub(crate) fn evaluate(document: &Document, context: &Context, xpath: &str) -> (r: Option<
    Vec<Node>,
>)
    requires
        !xpath@.contains('\0'),
        context_document(*context) == *document,
    ensures
        match r {
            Some(nodes) => xpath_nodes(*document, context_scope(*context), xpath@) == Some(
                nodes@,
            ),
            None => xpath_nodes(*document, context_scope(*context), xpath@) is None,
        },
{
    match context.evaluate(xpath) {
        Ok(found) => Some(found.get_nodes_as_vec()),
        Err(_) => None,
    }
}

/// Reads the text content of `node` with `Node::get_content`.
#[verifier::external_body]
pub(crate) fn get_content(node: &Node) -> (r: String)
    ensures
        r@ == node_content(*node),
{
    node.get_content()
}

/// Reads an attribute of `node` with `Node::get_attribute`, which panics on a
/// name that holds a NUL character.
#[verifier::external_body]
pub(crate) fn get_attribute(node: &Node, name: &str) -> (r: Option<String>)
    requires
        !name@.contains('\0'),
    ensures
        match r {
            Some(value) => node_attribute(*node, name@) == Some(value@),
            None => node_attribute(*node, name@) is None,
        },
{
    node.get_attribute(name)
}

} // verus!
