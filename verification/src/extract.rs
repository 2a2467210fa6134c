//! Extracting the content of a fetched page: its text, optionally narrowed by
//! a CSS selector, or its Markdown rendering.
//!
//! HTML parsing and selector matching are done by `scraper`, Markdown
//! rendering by `html2md`; what they return is named below and believed.
//! How the pieces are chosen and joined is this module's own, verified logic.

use vstd::prelude::*;
use vstd::string::*;

use crate::text::concat_str;

verus! {

// ---------------------------------------------------------------------------
// What the outside crates compute.
// ---------------------------------------------------------------------------

/// The message of the error that `scraper::Selector::parse` reports for a
/// selector group (its `Display` form), or `None` when the group parses.
pub uninterp spec fn selector_parse_error(selector: Seq<char>) -> Option<Seq<char>>;

/// The text nodes under the root element of `scraper::Html::parse_document`
/// of the document, in document order (`ElementRef::text`).
pub uninterp spec fn document_text_nodes(html: Seq<char>) -> Seq<Seq<char>>;

/// For each element of the parsed document that the selector group matches
/// (any selector of the comma-separated group), in document order
/// (`Html::select`), its text nodes (`ElementRef::text`).
pub uninterp spec fn selected_text_nodes(html: Seq<char>, selector: Seq<char>) -> Seq<
    Seq<Seq<char>>,
>;

/// The serialized HTML (`ElementRef::html`) of each element of the parsed
/// document that the selector group matches, in document order.
pub uninterp spec fn selected_element_html(html: Seq<char>, selector: Seq<char>) -> Seq<
    Seq<char>,
>;

/// The serialized HTML (`ElementRef::html`) of the root element of the
/// parsed document.
pub uninterp spec fn document_root_html(html: Seq<char>) -> Seq<char>;

/// What `html2md::parse_html` does with an HTML string: `Some` of the
/// Markdown it renders, or `None` for an input on which it panics.
pub uninterp spec fn markdown_result(html: Seq<char>) -> Option<Seq<char>>;

/// Calls `scraper::Selector::parse` and, for an error, its `Display` form.
/// Claims only that the outcome is the named one for this selector.
#[verifier::external_body]
fn selector_error(selector: &str) -> (r: Option<String>)
    ensures
        match r {
            Some(e) => selector_parse_error(selector@) == Some(e@),
            None => selector_parse_error(selector@) is None,
        },
{
    match scraper::Selector::parse(selector) {
        Ok(_) => None,
        Err(e) => Some(e.to_string()),
    }
}

/// Calls `scraper::Html::parse_document`, `Html::root_element` and
/// `ElementRef::text`, and collects the text nodes. Claims only that they are
/// the named ones for this document.
#[verifier::external_body]
fn document_texts(html: &str) -> (r: Vec<String>)
    ensures
        r.deep_view() == document_text_nodes(html@),
{
    let doc = scraper::Html::parse_document(html);
    doc.root_element().text().map(|t| t.to_string()).collect()
}

/// Calls `scraper::Html::parse_document`, `scraper::Selector::parse`,
/// `Html::select` and `ElementRef::text`, and collects the text nodes of each
/// matched element. The selector group must parse (else `parse` fails).
/// Claims only that the nodes are the named ones.
#[verifier::external_body]
fn selected_texts(html: &str, selector: &str) -> (r: Vec<Vec<String>>)
    requires
        selector_parse_error(selector@) is None,
    ensures
        r.deep_view() == selected_text_nodes(html@, selector@),
{
    let doc = scraper::Html::parse_document(html);
    let sel = scraper::Selector::parse(selector).unwrap();
    doc.select(&sel).map(|el| el.text().map(|t| t.to_string()).collect()).collect()
}

/// Calls `scraper::Html::parse_document`, `scraper::Selector::parse`,
/// `Html::select` and, on each match, `ElementRef::html`. The selector group
/// must parse. Claims only that the result is the named one.
#[verifier::external_body]
fn selected_htmls(html: &str, selector: &str) -> (r: Vec<String>)
    requires
        selector_parse_error(selector@) is None,
    ensures
        r.deep_view() == selected_element_html(html@, selector@),
{
    let doc = scraper::Html::parse_document(html);
    let sel = scraper::Selector::parse(selector).unwrap();
    doc.select(&sel).map(|el| el.html()).collect()
}

/// Calls `scraper::Html::parse_document`, `Html::root_element` and
/// `ElementRef::html`. Claims only that the result is the named one.
#[verifier::external_body]
fn root_html(html: &str) -> (r: String)
    ensures
        r@ == document_root_html(html@),
{
    scraper::Html::parse_document(html).root_element().html()
}

/// Calls `html2md::parse_html`, which panics on some HTML (a list item
/// outside any list, inside an emphasis element, can make it slice its
/// buffer out of bounds); the call is made only on inputs it renders.
/// Claims only that the result is the named one.
#[verifier::external_body]
fn markdown(html: &str) -> (r: String)
    requires
        markdown_result(html@) is Some,
    ensures
        markdown_result(html@) == Some(r@),
{
    html2md::parse_html(html)
}

// ---------------------------------------------------------------------------
// Joining text.
// ---------------------------------------------------------------------------

/// The parts, in order, with `sep` between each two neighbours.
pub open spec fn join_seqs(parts: Seq<Seq<char>>, sep: Seq<char>) -> Seq<char>
    decreases parts.len(),
{
    if parts.len() == 0 {
        Seq::empty()
    } else if parts.len() == 1 {
        parts[0]
    } else {
        join_seqs(parts.drop_last(), sep) + sep + parts.last()
    }
}

/// Joins strings with a separator between each two neighbours.
pub fn join_strings(parts: &Vec<String>, sep: &str) -> (r: String)
    ensures
        r@ == join_seqs(parts.deep_view(), sep@),
{
    let mut r = String::new();
    let mut i: usize = 0;
    while i < parts.len()
        invariant
            i <= parts.len(),
            r@ == join_seqs(parts.deep_view().take(i as int), sep@),
        decreases parts.len() - i,
    {
        let ghost dv = parts.deep_view();
        assert(dv.take(i + 1).drop_last() =~= dv.take(i as int));
        assert(dv.take(i + 1).last() == parts[i as int]@);
        if i > 0 {
            r.append(sep);
        } else {
            assert(dv.take(0) =~= Seq::<Seq<char>>::empty());
        }
        r.append(parts[i].as_str());
        i = i + 1;
    }
    assert(parts.deep_view().take(parts.len() as int) =~= parts.deep_view());
    r
}

// ---------------------------------------------------------------------------
// Text and Markdown extraction.
// ---------------------------------------------------------------------------

/// The error reported for a selector group that does not parse.
pub open spec fn invalid_selector_message(e: Seq<char>) -> Seq<char> {
    "invalid selector: "@ + e
}

/// The text of a page: without a selector, the text nodes of the whole
/// document joined by single spaces; with one, each matched element's text
/// nodes joined by spaces, and the elements joined by newlines.
pub open spec fn extracted_text(html: Seq<char>, selector: Option<Seq<char>>) -> Result<
    Seq<char>,
    Seq<char>,
> {
    match selector {
        None => Ok(join_seqs(document_text_nodes(html), " "@)),
        Some(s) => match selector_parse_error(s) {
            Some(e) => Err(invalid_selector_message(e)),
            None => Ok(
                join_seqs(
                    selected_text_nodes(html, s).map_values(
                        |el: Seq<Seq<char>>| join_seqs(el, " "@),
                    ),
                    "\n"@,
                ),
            ),
        },
    }
}

/// The HTML that the Markdown of a page is rendered from: the root element
/// without a selector; with a valid selector, the first element it matches,
/// or nothing when it matches none.
pub open spec fn markdown_source(html: Seq<char>, selector: Option<Seq<char>>) -> Option<
    Seq<char>,
> {
    match selector {
        None => Some(document_root_html(html)),
        Some(s) => if selector_parse_error(s) is None && selected_element_html(html, s).len()
            > 0 {
            Some(selected_element_html(html, s)[0])
        } else {
            None
        },
    }
}

/// `html2md` renders the HTML that the Markdown of a page comes from.
///
/// No function here can decide this before the call: `html2md` offers no
/// way to ask whether it will render an input other than rendering it,
/// and a panic inside it cannot be caught here. Callers on the Markdown
/// path therefore carry this condition as a precondition.
pub open spec fn markdown_renders(html: Seq<char>, selector: Option<Seq<char>>) -> bool {
    markdown_source(html, selector) matches Some(src) ==> markdown_result(src) is Some
}

/// The Markdown of a page: of the root element without a selector; with a
/// selector, of the first element it matches, and empty when it matches
/// none.
pub open spec fn extracted_markdown(html: Seq<char>, selector: Option<Seq<char>>) -> Result<
    Seq<char>,
    Seq<char>,
> {
    match selector {
        Some(s) if selector_parse_error(s) is Some => Err(
            invalid_selector_message(selector_parse_error(s)->Some_0),
        ),
        _ => match markdown_source(html, selector) {
            Some(src) => Ok(markdown_result(src)->Some_0),
            None => Ok(Seq::empty()),
        },
    }
}

/// The HTML of a page, narrowed by a selector to the matched elements, one
/// per line.
pub open spec fn extracted_html(html: Seq<char>, selector: Option<Seq<char>>) -> Result<
    Seq<char>,
    Seq<char>,
> {
    match selector {
        None => Ok(html),
        Some(s) => match selector_parse_error(s) {
            Some(e) => Err(invalid_selector_message(e)),
            None => Ok(join_seqs(selected_element_html(html, s), "\n"@)),
        },
    }
}

/// The view of an optional string slice.
pub open spec fn opt_str_view(s: Option<&str>) -> Option<Seq<char>> {
    match s {
        Some(t) => Some(t@),
        None => None,
    }
}

/// The view of a string result.
pub open spec fn result_view(r: Result<String, String>) -> Result<Seq<char>, Seq<char>> {
    match r {
        Ok(t) => Ok(t@),
        Err(e) => Err(e@),
    }
}

/// The text of a page, optionally narrowed by a CSS selector group.
pub fn extract_text(html: &str, selector: Option<&str>) -> (r: Result<String, String>)
    ensures
        result_view(r) == extracted_text(html@, opt_str_view(selector)),
{
    match selector {
        None => {
            let nodes = document_texts(html);
            Ok(join_strings(&nodes, " "))
        },
        Some(s) => {
            match selector_error(s) {
                Some(e) => Err(concat_str("invalid selector: ", e.as_str())),
                None => {
                    let elements = selected_texts(html, s);
                    let mut joined: Vec<String> = Vec::new();
                    let mut i: usize = 0;
                    while i < elements.len()
                        invariant
                            i <= elements.len(),
                            joined@.len() == i,
                            forall|k: int|
                                0 <= k < i ==> #[trigger] joined@[k]@ == join_seqs(
                                    elements.deep_view()[k],
                                    " "@,
                                ),
                        decreases elements.len() - i,
                    {
                        let line = join_strings(&elements[i], " ");
                        joined.push(line);
                        i = i + 1;
                    }
                    assert(joined.deep_view() =~= elements.deep_view().map_values(
                        |el: Seq<Seq<char>>| join_seqs(el, " "@),
                    ));
                    Ok(join_strings(&joined, "\n"))
                },
            }
        },
    }
}

/// The Markdown of a page, optionally narrowed to the first element that a
/// CSS selector group matches. Requires that `html2md` renders the chosen
/// HTML (see [`markdown_renders`]); it panics on some malformed input.
pub fn html_to_markdown(html: &str, selector: Option<&str>) -> (r: Result<String, String>)
    requires
        markdown_renders(html@, opt_str_view(selector)),
    ensures
        result_view(r) == extracted_markdown(html@, opt_str_view(selector)),
{
    match selector {
        None => {
            let root = root_html(html);
            Ok(markdown(root.as_str()))
        },
        Some(s) => {
            match selector_error(s) {
                Some(e) => Err(concat_str("invalid selector: ", e.as_str())),
                None => {
                    let nodes = selected_htmls(html, s);
                    if nodes.len() == 0 {
                        Ok(String::new())
                    } else {
                        assert(nodes[0]@ == nodes.deep_view()[0]);
                        Ok(markdown(nodes[0].as_str()))
                    }
                },
            }
        },
    }
}

/// The HTML of a page, optionally narrowed to the elements that a CSS
/// selector group matches, one per line.
pub fn select_html(html: String, selector: Option<&str>) -> (r: Result<String, String>)
    ensures
        result_view(r) == extracted_html(html@, opt_str_view(selector)),
{
    match selector {
        None => Ok(html),
        Some(s) => {
            match selector_error(s) {
                Some(e) => Err(concat_str("invalid selector: ", e.as_str())),
                None => {
                    let nodes = selected_htmls(html.as_str(), s);
                    Ok(join_strings(&nodes, "\n"))
                },
            }
        },
    }
}

/// Which HTML a page's Markdown is rendered from: the root element without
/// a selector; with a selector group that parses, the FIRST matched element
/// in document order, and nothing (empty Markdown) when none matches; a
/// selector group that does not parse is reported.
pub proof fn lemma_markdown_renders_first_match(html: Seq<char>, selector: Option<Seq<char>>)
    ensures
        match selector {
            None => extracted_markdown(html, selector) == Ok::<Seq<char>, Seq<char>>(
                markdown_result(document_root_html(html))->Some_0,
            ),
            Some(s) => match selector_parse_error(s) {
                Some(e) => extracted_markdown(html, selector) == Err::<Seq<char>, Seq<char>>(
                    "invalid selector: "@ + e,
                ),
                None => if selected_element_html(html, s).len() > 0 {
                    extracted_markdown(html, selector) == Ok::<Seq<char>, Seq<char>>(
                        markdown_result(selected_element_html(html, s)[0])->Some_0,
                    )
                } else {
                    extracted_markdown(html, selector) == Ok::<Seq<char>, Seq<char>>(
                        Seq::empty(),
                    )
                },
            },
        },
{
}

/// Joining puts the separator between each two neighbours and nowhere
/// else: nothing for no parts, the part itself for one, and for more the
/// join of all but the last, the separator, and the last.
pub proof fn lemma_join_places_separators(parts: Seq<Seq<char>>, sep: Seq<char>)
    ensures
        parts.len() == 0 ==> join_seqs(parts, sep) == Seq::<char>::empty(),
        parts.len() == 1 ==> join_seqs(parts, sep) == parts[0],
        parts.len() == 2 ==> join_seqs(parts, sep) == parts[0] + sep + parts[1],
        parts.len() >= 2 ==> join_seqs(parts, sep) == join_seqs(parts.drop_last(), sep) + sep
            + parts.last(),
{
    if parts.len() == 2 {
        let first = parts.drop_last();
        assert(first.len() == 1);
        assert(first[0] == parts[0]);
        assert(join_seqs(first, sep) == parts[0]);
        assert(parts.last() == parts[1]);
    }
}

/// The text of a page: without a selector, every text node of the document
/// joined by single spaces; with a selector group that parses, each matched
/// element's text nodes joined by spaces, one element per line; a selector
/// group that does not parse is reported.
pub proof fn lemma_text_joins_nodes_and_elements(html: Seq<char>, selector: Option<Seq<char>>)
    ensures
        match selector {
            None => extracted_text(html, selector) == Ok::<Seq<char>, Seq<char>>(
                join_seqs(document_text_nodes(html), " "@),
            ),
            Some(s) => match selector_parse_error(s) {
                Some(e) => extracted_text(html, selector) == Err::<Seq<char>, Seq<char>>(
                    "invalid selector: "@ + e,
                ),
                None => extracted_text(html, selector) == Ok::<Seq<char>, Seq<char>>(
                    join_seqs(
                        Seq::new(
                            selected_text_nodes(html, s).len(),
                            |k: int| join_seqs(selected_text_nodes(html, s)[k], " "@),
                        ),
                        "\n"@,
                    ),
                ),
            },
        },
{
    if let Some(s) = selector {
        if selector_parse_error(s) is None {
            let nodes = selected_text_nodes(html, s);
            assert(nodes.map_values(|el: Seq<Seq<char>>| join_seqs(el, " "@)) =~= Seq::new(
                nodes.len(),
                |k: int| join_seqs(nodes[k], " "@),
            ));
        }
    }
}

} // verus!
