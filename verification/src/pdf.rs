//! PDF text for ingestion: the text of every page of a document, through
//! `lopdf`, with the two refusals an ingest reports (no pages, no text).
use vstd::prelude::*;
use crate::text::{chars_of, trim, trim_vec};

verus! {

/// `lopdf::Document`, a parsed PDF.
#[verifier::external_type_specification]
#[verifier::external_body]
pub struct ExPdfDocument(lopdf::Document);

/// A parsed PDF.
pub struct PdfDoc {
    doc: lopdf::Document,
}

/// `lopdf::Document::load_mem` (default options): the parsed document, or
/// the error's message. Nothing is stated of which bytes parse, nor of the
/// message.
#[verifier::external_body]
fn pdf_load(bytes: &[u8]) -> (r: Result<PdfDoc, String>) {
    match lopdf::Document::load_mem(bytes) {
        Ok(doc) => Ok(PdfDoc { doc }),
        Err(e) => Err(e.to_string()),
    }
}

/// `Document::get_pages`, its keys: the pages numbered from 1 in page-tree
/// order, so the `j`-th number is `j + 1`.
#[verifier::external_body]
fn pdf_pages(d: &PdfDoc) -> (r: Vec<u32>)
    ensures
        forall|j: int| 0 <= j < r@.len() ==> r@[j] == j + 1,
{
    d.doc.get_pages().keys().cloned().collect()
}

/// `Document::extract_text` on some pages: their text, or the error's
/// message. Nothing is stated of the text or the message.
#[verifier::external_body]
fn pdf_extract(d: &PdfDoc, pages: &Vec<u32>) -> (r: Result<String, String>) {
    d.doc.extract_text(pages.as_slice()).map_err(|e| e.to_string())
}

/// The refusal of a PDF without pages.
pub open spec fn no_pages_message() -> Seq<char> {
    "PDF has no pages"@
}

/// The refusal of a PDF whose pages hold no text.
pub open spec fn no_text_message() -> Seq<char> {
    "no extractable text (scanned/image-only PDF?)"@
}

/// Extracted text kept for ingestion: refused when it is only whitespace.
pub open spec fn checked_text_spec(text: Seq<char>) -> Result<Seq<char>, Seq<char>> {
    if trim(text).len() == 0 {
        Err(no_text_message())
    } else {
        Ok(text)
    }
}

/// What a PDF's pages give for ingestion: a document without pages is
/// refused; otherwise the extraction's error, or its text refused when that
/// is only whitespace.
pub open spec fn pdf_pages_text_spec(page_count: nat, extracted: Result<Seq<char>, Seq<char>>) -> Result<
    Seq<char>,
    Seq<char>,
> {
    if page_count == 0 {
        Err(no_pages_message())
    } else {
        match extracted {
            Err(e) => Err(e),
            Ok(t) => checked_text_spec(t),
        }
    }
}

/// The views of a text result.
pub open spec fn text_result_view(r: Result<String, String>) -> Result<Seq<char>, Seq<char>> {
    match r {
        Ok(t) => Ok(t@),
        Err(e) => Err(e@),
    }
}

/// Keep extracted PDF text, unless it is only whitespace.
pub fn checked_pdf_text(text: String) -> (r: Result<String, String>)
    ensures
        text_result_view(r) == checked_text_spec(text@),
{
    let cs = chars_of(text.as_str());
    let t = trim_vec(cs.as_slice());
    if t.len() == 0 {
        proof {
            reveal_strlit("no extractable text (scanned/image-only PDF?)");
        }
        Err(String::from_str("no extractable text (scanned/image-only PDF?)"))
    } else {
        Ok(text)
    }
}

/// What extracting the text of a document's pages gives for ingestion,
/// once the document is known to have `page_count` pages.
pub fn pdf_pages_text(page_count: usize, extracted: Result<String, String>) -> (r: Result<String, String>)
    ensures
        text_result_view(r) == pdf_pages_text_spec(page_count as nat, text_result_view(extracted)),
{
    if page_count == 0 {
        proof {
            reveal_strlit("PDF has no pages");
        }
        return Err(String::from_str("PDF has no pages"));
    }
    match extracted {
        Err(e) => Err(e),
        Ok(t) => checked_pdf_text(t),
    }
}

/// The text of every page of the PDF given by its bytes. Whatever the
/// parser gives, text that is returned is never only whitespace; a document
/// without pages is refused without asking for any text.
pub fn pdf_text_from_bytes(bytes: &[u8]) -> (r: Result<String, String>)
    ensures
        r matches Ok(t) ==> trim(t@).len() > 0,
{
    let doc = match pdf_load(bytes) {
        Ok(d) => d,
        Err(e) => return Err(e),
    };
    let pages = pdf_pages(&doc);
    if pages.len() == 0 {
        return pdf_pages_text(0, Ok(String::new()));
    }
    let extracted = pdf_extract(&doc, &pages);
    pdf_pages_text(pages.len(), extracted)
}

} // verus!
