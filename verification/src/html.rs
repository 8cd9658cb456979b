//! The references that a page holds.

use crate::error::Error;
use vstd::prelude::*;
use vstd::string::StringSliceAdditionalSpecFns;

verus! {

/// `tl::ParseError`, the reason for which the parser refuses a document.
#[verifier::external_type_specification]
#[verifier::external_body]
pub struct ExParseError(tl::ParseError);

/// The texts of a list of strings.
pub open spec fn texts(strings: Seq<String>) -> Seq<Seq<char>> {
    strings.map_values(|s: String| s@)
}

/// The texts of a list of optional strings.
pub open spec fn optional_texts(strings: Seq<Option<String>>) -> Seq<Option<Seq<char>>> {
    strings.map_values(
        |s: Option<String>|
            match s {
                Some(s) => Some(s@),
                None => None,
            },
    )
}

/// For each element of `document` that `selector` selects, in the order in
/// which the parser finds them, the value that the attribute `attribute` has
/// on it, or `None` where it has none.
pub uninterp spec fn attribute_values(
    document: Seq<char>,
    selector: Seq<char>,
    attribute: Seq<char>,
) -> Seq<Option<Seq<char>>>;

/// The largest number of bytes of a document that the parser takes.
pub open spec fn max_document_bytes() -> int {
    0xffff_ffff
}

/// `tl::parse` builds the tree of `document`, and fails exactly where the
/// document is longer than a `u32` can count. `VDom::query_selector` walks the
/// elements that `selector` selects; each handle is resolved with
/// `NodeHandle::get`, read as a tag with `Node::as_tag`, and asked for the
/// attribute with `Attributes::get`, whose value is handed over as text, as
/// `Bytes::as_utf8_str` gives it. The selector is held to the one that the
/// library uses: it names a tag and an attribute, and matching it looks at
/// one element at a time.
#[verifier::external_body]
fn select_attribute<'a>(document: &'a str, selector: &'a str, attribute: &'a str) -> (values:
    Result<Vec<Option<String>>, tl::ParseError>)
    requires
        selector@ == "a[href]"@,
        attribute@ == "href"@,
    ensures
        values is Ok <==> document.spec_bytes().len() <= max_document_bytes(),
        values matches Ok(values) ==> optional_texts(values@) == attribute_values(
            document@,
            selector@,
            attribute@,
        ),
{
    let dom = tl::parse(document, tl::ParserOptions::default())?;
    let selected = dom.query_selector(selector).into_iter().flatten();
    Ok(
        selected.map(
            |handle|
                handle.get(dom.parser()).and_then(|node| node.as_tag()).and_then(
                    |tag| tag.attributes().get(attribute).flatten(),
                ).map(|value| value.as_utf8_str().into_owned()),
        ).collect(),
    )
}

/// The values that are there, in their order.
pub open spec fn present(values: Seq<Option<Seq<char>>>) -> Seq<Seq<char>>
    decreases values.len(),
{
    if values.len() == 0 {
        Seq::empty()
    } else {
        match values.last() {
            Some(value) => present(values.drop_last()).push(value),
            None => present(values.drop_last()),
        }
    }
}

/// The references of a page: the values of `href` on its `a` elements
/// that have both the attribute and a value for it.
pub open spec fn page_references(document: Seq<char>) -> Seq<Seq<char>> {
    present(attribute_values(document, "a[href]"@, "href"@))
}

/// The values that are there, in their order.
pub fn keep_present(values: &Vec<Option<String>>) -> (kept: Vec<String>)
    ensures
        texts(kept@) == present(optional_texts(values@)),
{
    let mut kept: Vec<String> = Vec::new();
    let ghost all = optional_texts(values@);
    let mut i: usize = 0;
    while i < values.len()
        invariant
            i <= values.len(),
            all == optional_texts(values@),
            texts(kept@) == present(all.take(i as int)),
        decreases values.len() - i,
    {
        let ghost before = kept@;
        proof {
            assert(all.take(i + 1).drop_last() == all.take(i as int));
            assert(all.take(i + 1).last() == all[i as int]);
        }
        match &values[i] {
            Some(value) => {
                kept.push(value.clone());
                assert(texts(kept@) == texts(before).push(value@));
            },
            None => {},
        }
        i = i + 1;
    }
    assert(all.take(i as int) == all);
    kept
}

/// The references that the page `document` holds, in the order of the
/// page. Only a document that is too long for the parser is an error.
pub fn references(document: &str) -> (found: Result<Vec<String>, Error>)
    ensures
        found is Ok <==> document.spec_bytes().len() <= max_document_bytes(),
        found matches Ok(found) ==> texts(found@) == page_references(document@),
        found matches Err(error) ==> error == Error::HtmlParse,
{
    match select_attribute(document, "a[href]", "href") {
        Ok(values) => Ok(keep_present(&values)),
        Err(_) => Err(Error::HtmlParse),
    }
}

} // verus!
