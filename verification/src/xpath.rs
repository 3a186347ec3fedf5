//! Selector normalization.
//!
//! Rules carry path expressions as they were written for the source's markup.
//! Before one is evaluated it is brought to one of a few forms, and before it is
//! evaluated below a node that an earlier query found, it is anchored to that
//! node, unless it is rooted in the document.

use crate::text::{concat2, lemma_trimmed_ends, lemma_trimmed_fixed, starts_with, trim, trimmed};
use vstd::prelude::*;
use vstd::string::*;

verus! {

/// Whether a selector is rooted in the document: it starts with one `/`, and
/// not with two.
pub open spec fn is_rooted(path: Seq<char>) -> bool {
    path.len() > 0 && path[0] == '/' && !seq!['/', '/'].is_prefix_of(path)
}

/// The form in which a selector is evaluated against a whole document.
///
/// Surrounding whitespace is dropped. A selector that starts with `//` or `./`
/// stays as it is, and so does a rooted one; any other selector that is not
/// empty becomes a search below the current node, `.//` followed by the
/// selector.
pub open spec fn normalized_xpath(xpath: Seq<char>) -> Seq<char> {
    let path = trimmed(xpath);
    if path.len() == 0 {
        path
    } else if seq!['/', '/'].is_prefix_of(path) || seq!['.', '/'].is_prefix_of(path) {
        path
    } else if path[0] == '/' {
        path
    } else {
        seq!['.', '/', '/'] + path
    }
}

/// The form in which a selector is evaluated below a node found earlier.
///
/// A selector that starts with `//` gets a `.` in front, and one that starts
/// with `./` stays as it is. A rooted selector stays as it is too: it is
/// evaluated from the root of the document wherever the context stands. Any
/// other selector becomes `.//` followed by the selector.
pub open spec fn relative_xpath(xpath: Seq<char>) -> Seq<char> {
    if seq!['/', '/'].is_prefix_of(xpath) {
        seq!['.'] + xpath
    } else if seq!['.', '/'].is_prefix_of(xpath) {
        xpath
    } else if is_rooted(xpath) {
        xpath
    } else {
        seq!['.', '/', '/'] + xpath
    }
}

/// Brings a selector to the form in which it is evaluated against a document.
/// A rooted selector comes back as it is, but for the whitespace around it.
pub fn normalize_xpath(xpath: &str) -> (r: String)
    ensures
        r@ == normalized_xpath(xpath@),
        is_rooted(trimmed(xpath@)) ==> r@ == trimmed(xpath@),
{
    let path = trim(xpath);
    proof {
        reveal_strlit("//");
        reveal_strlit("./");
        reveal_strlit("/");
        reveal_strlit(".//");
        assert("//"@ =~= seq!['/', '/']);
        assert("./"@ =~= seq!['.', '/']);
        assert("/"@ =~= seq!['/']);
        assert(".//"@ =~= seq!['.', '/', '/']);
    }
    if starts_with(path, "//") || starts_with(path, "./") {
        String::from_str(path)
    } else if starts_with(path, "/") {
        assert(path@.subrange(0, 1)[0] == path@[0]);
        String::from_str(path)
    } else if !path.is_empty() {
        assert(path@[0] != '/') by {
            if path@[0] == '/' {
                assert(path@.subrange(0, 1) =~= seq!['/']);
            }
        }
        concat2(".//", path)
    } else {
        String::from_str(path)
    }
}

/// Anchors a selector to the node below which it is evaluated. A rooted selector
/// comes back as it is; every other result starts at the node, with `./`.
pub fn relativize_xpath(xpath: &str) -> (r: String)
    ensures
        r@ == relative_xpath(xpath@),
        is_rooted(xpath@) ==> r@ == xpath@,
        !is_rooted(xpath@) ==> seq!['.', '/'].is_prefix_of(r@),
{
    proof {
        reveal_strlit("//");
        reveal_strlit("./");
        reveal_strlit("/");
        reveal_strlit(".");
        reveal_strlit(".//");
        assert("//"@ =~= seq!['/', '/']);
        assert("./"@ =~= seq!['.', '/']);
        assert("/"@ =~= seq!['/']);
        assert("."@ =~= seq!['.']);
        assert(".//"@ =~= seq!['.', '/', '/']);
        lemma_relative_is_anchored(xpath@);
    }
    if starts_with(xpath, "//") {
        concat2(".", xpath)
    } else if starts_with(xpath, "./") {
        String::from_str(xpath)
    } else if starts_with(xpath, "/") {
        assert(xpath@.subrange(0, 1)[0] == xpath@[0]);
        String::from_str(xpath)
    } else {
        assert(!is_rooted(xpath@)) by {
            if xpath@.len() > 0 && xpath@[0] == '/' {
                assert(xpath@.subrange(0, 1) =~= seq!['/']);
            }
        }
        concat2(".//", xpath)
    }
}

/// Normalizing a selector that is already normalized changes nothing.
pub proof fn lemma_normalize_idempotent(xpath: Seq<char>)
    ensures
        normalized_xpath(normalized_xpath(xpath)) == normalized_xpath(xpath),
{
    let path = trimmed(xpath);
    let once = normalized_xpath(xpath);
    lemma_trimmed_ends(xpath);
    if path.len() == 0 {
        lemma_trimmed_fixed(once);
    } else if seq!['/', '/'].is_prefix_of(path) || seq!['.', '/'].is_prefix_of(path) {
        lemma_trimmed_fixed(once);
    } else if path[0] == '/' {
        lemma_trimmed_fixed(once);
    } else {
        assert(once[0] == '.');
        assert(once.last() == path.last());
        lemma_trimmed_fixed(once);
        assert(once.subrange(0, 2) =~= seq!['.', '/']);
    }
}

/// A normalized selector is empty, or starts with `//` or `./`, or is rooted.
pub proof fn lemma_normalized_shape(xpath: Seq<char>)
    ensures
        ({
            let once = normalized_xpath(xpath);
            once.len() == 0 || seq!['/', '/'].is_prefix_of(once) || seq!['.', '/'].is_prefix_of(
                once,
            ) || is_rooted(once)
        }),
        normalized_xpath(xpath).len() == 0 <==> trimmed(xpath).len() == 0,
        is_rooted(normalized_xpath(xpath)) <==> is_rooted(trimmed(xpath)),
{
    let path = trimmed(xpath);
    let once = normalized_xpath(xpath);
    if path.len() == 0 {
    } else if seq!['/', '/'].is_prefix_of(path) || seq!['.', '/'].is_prefix_of(path) {
        if seq!['.', '/'].is_prefix_of(path) {
            assert(path.subrange(0, 2)[0] == path[0]);
        }
    } else if path[0] == '/' {
    } else {
        assert(once.subrange(0, 2) =~= seq!['.', '/']);
    }
}

/// An anchored selector starts at the current node, with `./`, unless the
/// selector is rooted; and anchoring it again changes nothing.
pub proof fn lemma_relative_is_anchored(xpath: Seq<char>)
    ensures
        is_rooted(xpath) ==> relative_xpath(xpath) == xpath,
        !is_rooted(xpath) ==> seq!['.', '/'].is_prefix_of(relative_xpath(xpath)),
        relative_xpath(relative_xpath(xpath)) == relative_xpath(xpath),
{
    let anchored = relative_xpath(xpath);
    if seq!['/', '/'].is_prefix_of(xpath) {
        assert(xpath.subrange(0, 2)[0] == xpath[0]);
        assert(anchored.subrange(0, 2) =~= seq!['.', '/']);
    } else if seq!['.', '/'].is_prefix_of(xpath) {
        assert(xpath.subrange(0, 2)[0] == xpath[0]);
    } else if is_rooted(xpath) {
    } else {
        assert(anchored.subrange(0, 2) =~= seq!['.', '/']);
    }
    if !is_rooted(xpath) {
        assert(!seq!['/', '/'].is_prefix_of(anchored)) by {
            if seq!['/', '/'].is_prefix_of(anchored) {
                assert(anchored.subrange(0, 2)[0] == anchored[0]);
            }
        }
    }
}

} // verus!
