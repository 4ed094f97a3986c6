//! Streaming HTML rewriting and entity decoding, as far as the library
//! relies on them.

use vstd::prelude::*;

verus! {

/// What `lol_html` finds in `content`: for each element that `selector`
/// matches, in document order, the value of each attribute of `names`
/// (`None` where the element lacks it). `None` when the selector does not
/// parse or the document cannot be rewritten.
pub uninterp spec fn html_selected_attributes(
    content: Seq<char>,
    selector: Seq<char>,
    names: Seq<Seq<char>>,
) -> Option<Seq<Seq<Option<Seq<char>>>>>;

/// `content` after `lol_html` has set, on the k-th element that `selector`
/// matches, each attribute `(name, value)` of `edits[k]`; elements beyond the
/// end of `edits` stay as they are. `None` when the selector does not parse,
/// an attribute name is refused or the document cannot be rewritten.
pub uninterp spec fn html_with_attributes(
    content: Seq<char>,
    selector: Seq<char>,
    edits: Seq<Seq<(Seq<char>, Seq<char>)>>,
) -> Option<Seq<char>>;

/// `content` after `lol_html` has, for each `(selector, text)` of `edits`,
/// replaced the inner content of the matching elements by `text`, as escaped
/// text. `None` when a selector does not parse or the document cannot be
/// rewritten.
pub uninterp spec fn html_with_inner_text(
    content: Seq<char>,
    edits: Seq<(Seq<char>, Seq<char>)>,
) -> Option<Seq<char>>;

/// `content` after `lol_html` has, for each `(selector, text)` of `edits`,
/// appended `text` to the inner content of the matching elements, as escaped
/// text. `None` when a selector does not parse or the document cannot be
/// rewritten.
pub uninterp spec fn html_with_appended_text(
    content: Seq<char>,
    edits: Seq<(Seq<char>, Seq<char>)>,
) -> Option<Seq<char>>;

/// What `htmlescape::decode_html` makes of `s`: the text with its character
/// references resolved, `None` where one of them is malformed.
pub uninterp spec fn html_decoded(s: Seq<char>) -> Option<Seq<char>>;

/// Runs `lol_html::rewrite_str` over `content` with one element handler for
/// `selector`, which reads the attributes of `names` with
/// `Element::get_attribute`. The contract gives the result its name,
/// `html_selected_attributes`, and adds that each entry has one value per
/// name.
#[verifier::external_body]
pub(crate) fn select_attributes(content: &str, selector: &str, names: &Vec<String>) -> (r: Option<
    Vec<Vec<Option<String>>>,
>)
    ensures
        r.deep_view() == html_selected_attributes(content@, selector@, names.deep_view()),
        r matches Some(found) ==> forall|k: int|
            0 <= k < found.len() ==> (#[trigger] found[k]).len() == names.len(),
{
    let mut found = Vec::new();
    let handler = lol_html::ElementContentHandlers::default().element(
        |el: &mut lol_html::html_content::Element| {
            found.push(names.iter().map(|n| el.get_attribute(n)).collect());
            Ok(())
        },
    );
    let target = std::borrow::Cow::Owned(selector.parse::<lol_html::Selector>().ok()?);
    let settings = lol_html::RewriteStrSettings {
        element_content_handlers: vec![(target, handler)],
        ..lol_html::RewriteStrSettings::default()
    };
    lol_html::rewrite_str(content, settings).ok()?;
    Some(found)
}

/// Runs `lol_html::rewrite_str` over `content` with one element handler for
/// `selector`, which takes the next entry of `edits` and applies it with
/// `Element::set_attribute`. The contract gives the result its name,
/// `html_with_attributes`, and claims nothing else of it.
#[verifier::external_body]
pub(crate) fn set_attributes(content: &str, selector: &str, edits: &Vec<Vec<(String, String)>>) -> (r:
    Option<String>)
    ensures
        r.deep_view() == html_with_attributes(content@, selector@, edits.deep_view()),
{
    let mut rest = edits.iter();
    let handler = lol_html::ElementContentHandlers::default().element(
        |el: &mut lol_html::html_content::Element| {
            for (name, value) in rest.next().into_iter().flatten() {
                el.set_attribute(name, value)?;
            }
            Ok(())
        },
    );
    let target = std::borrow::Cow::Owned(selector.parse::<lol_html::Selector>().ok()?);
    let settings = lol_html::RewriteStrSettings {
        element_content_handlers: vec![(target, handler)],
        ..lol_html::RewriteStrSettings::default()
    };
    lol_html::rewrite_str(content, settings).ok()
}

/// Runs `lol_html::rewrite_str` over `content` with one element handler for
/// each entry of `edits`, which calls `Element::set_inner_content` with
/// `ContentType::Text`. The contract gives the result its name,
/// `html_with_inner_text`, and claims nothing else of it.
#[verifier::external_body]
pub(crate) fn set_inner_text(content: &str, edits: &Vec<(String, String)>) -> (r: Option<String>)
    ensures
        r.deep_view() == html_with_inner_text(content@, edits.deep_view()),
{
    let mut handlers = Vec::new();
    for (selector, text) in edits {
        let set = move |el: &mut lol_html::html_content::Element| {
            Ok(el.set_inner_content(text, lol_html::html_content::ContentType::Text))
        };
        let target = std::borrow::Cow::Owned(selector.parse::<lol_html::Selector>().ok()?);
        handlers.push((target, lol_html::ElementContentHandlers::default().element(set)));
    }
    let settings =
        lol_html::RewriteStrSettings { element_content_handlers: handlers, ..Default::default() };
    lol_html::rewrite_str(content, settings).ok()
}

/// Runs `lol_html::rewrite_str` over `content` with one element handler for
/// each entry of `edits`, which calls `Element::append` with
/// `ContentType::Text`. The contract gives the result its name,
/// `html_with_appended_text`, and claims nothing else of it.
#[verifier::external_body]
pub(crate) fn append_text(content: &str, edits: &Vec<(String, String)>) -> (r: Option<String>)
    ensures
        r.deep_view() == html_with_appended_text(content@, edits.deep_view()),
{
    let mut handlers = Vec::new();
    for (selector, text) in edits {
        let add = move |el: &mut lol_html::html_content::Element| {
            Ok(el.append(text, lol_html::html_content::ContentType::Text))
        };
        let target = std::borrow::Cow::Owned(selector.parse::<lol_html::Selector>().ok()?);
        handlers.push((target, lol_html::ElementContentHandlers::default().element(add)));
    }
    let settings =
        lol_html::RewriteStrSettings { element_content_handlers: handlers, ..Default::default() };
    lol_html::rewrite_str(content, settings).ok()
}

/// Calls `htmlescape::decode_html`. The contract gives the result its name,
/// `html_decoded`, and claims nothing else of it.
#[verifier::external_body]
pub(crate) fn decode_html(s: &str) -> (r: Option<String>)
    ensures
        r.deep_view() == html_decoded(s@),
{
    htmlescape::decode_html(s).ok()
}

} // verus!
