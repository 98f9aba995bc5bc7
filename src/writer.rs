//! Serialisation of a document's events to bytes.
use vstd::prelude::*;
use crate::kml::{XmlEvent, XmlItem, items, has_cdata_end, document, placemarks, placemark,
    header, footer, ImageOutcome, KmlBuilder};
use crate::structures::KmlError;
use quick_xml::events::{BytesCData, BytesDecl, BytesEnd, BytesStart, BytesText, Event};

verus! {

#[verifier::external_type_specification]
#[verifier::external_body]
#[verifier::reject_recursive_types(W)]
pub struct ExXmlWriter<W>(quick_xml::Writer<W>);

/// No CDATA section among `s` holds the sequence that would end it early.
pub open spec fn cdata_safe(s: Seq<XmlItem>) -> bool {
    forall|i: int| 0 <= i < s.len() ==> match #[trigger] s[i] {
        XmlItem::CData(t) => !has_cdata_end(t),
        _ => true,
    }
}

proof fn lemma_cdata_safe_concat(a: Seq<XmlItem>, b: Seq<XmlItem>)
    requires
        cdata_safe(a),
        cdata_safe(b),
    ensures
        cdata_safe(a + b),
{
    assert forall|i: int| 0 <= i < (a + b).len() implies match #[trigger] (a + b)[i] {
        XmlItem::CData(t) => !has_cdata_end(t),
        _ => true,
    } by {
        if i < a.len() {
            assert((a + b)[i] == a[i]);
        } else {
            assert((a + b)[i] == b[i - a.len()]);
        }
    }
}

proof fn lemma_placemarks_cdata_safe(outs: Seq<ImageOutcome>)
    ensures
        cdata_safe(placemarks(outs)),
    decreases outs.len(),
{
    if outs.len() > 0 {
        lemma_placemarks_cdata_safe(outs.drop_last());
        match outs.last() {
            ImageOutcome::Placed { file, lon, lat, alt } => {
                let p = placemark(outs.len(), file, lon, lat, alt);
                assert(cdata_safe(p));
                lemma_cdata_safe_concat(placemarks(outs.drop_last()), p);
            },
            _ => {},
        }
    }
}

/// Every document a builder produces can be written.
pub proof fn lemma_document_cdata_safe(doc_name: Seq<char>, outs: Seq<ImageOutcome>)
    ensures
        cdata_safe(document(doc_name, outs)),
{
    lemma_placemarks_cdata_safe(outs);
    assert(cdata_safe(header(doc_name)));
    assert(cdata_safe(footer()));
    lemma_cdata_safe_concat(header(doc_name), placemarks(outs));
    lemma_cdata_safe_concat(header(doc_name) + placemarks(outs), footer());
}

/// The events written so far into writer `w`.
pub uninterp spec fn writer_items(w: quick_xml::Writer<Vec<u8>>) -> Seq<XmlItem>;

/// The indentation unit writer `w` was made with.
pub uninterp spec fn writer_indent(w: quick_xml::Writer<Vec<u8>>) -> Seq<u8>;

/// The bytes a writer made with indentation unit `indent` holds after
/// writing `items` into an empty buffer.
pub uninterp spec fn xml_bytes(items: Seq<XmlItem>, indent: Seq<u8>) -> Seq<u8>;

/// `size` copies of `ch`.
pub open spec fn indent_unit(ch: u8, size: usize) -> Seq<u8> {
    Seq::new(size as nat, |i: int| ch)
}

/// Relies on quick_xml::Writer::new_with_indent: a writer into an empty
/// buffer that indents nested elements by `size` copies of `ch`.
#[verifier::external_body]
fn new_writer(ch: u8, size: usize) -> (w: quick_xml::Writer<Vec<u8>>)
    ensures
        writer_items(w) == Seq::<XmlItem>::empty(),
        writer_indent(w) == indent_unit(ch, size),
{
    quick_xml::Writer::new_with_indent(Vec::new(), ch, size)
}

/// Relies on quick_xml::Writer::write_event: writes one event, escaping
/// text; a CDATA section is written as it is. Into a `Vec<u8>` the write
/// does not fail.
#[verifier::external_body]
fn write_event(w: &mut quick_xml::Writer<Vec<u8>>, e: &XmlEvent) -> (r: Result<(), quick_xml::Error>)
    requires
        e@ matches XmlItem::CData(t) ==> !has_cdata_end(t),
    ensures
        r is Ok,
        writer_items(*final(w)) == writer_items(*old(w)).push(e@),
        writer_indent(*final(w)) == writer_indent(*old(w)),
{
    w.write_event(match e {
        XmlEvent::Decl(v, enc) => Event::Decl(BytesDecl::new(v, Some(enc), None)),
        XmlEvent::Start(n) => Event::Start(BytesStart::new(*n)),
        XmlEvent::StartAttr(n, k, v) => Event::Start(BytesStart::new(*n).with_attributes([(*k, *v)])),
        XmlEvent::End(n) => Event::End(BytesEnd::new(*n)),
        XmlEvent::Text(t) => Event::Text(BytesText::new(t)),
        XmlEvent::CData(t) => Event::CData(BytesCData::new(t.as_str())),
    })
}

/// Relies on quick_xml::Writer::into_inner: the bytes written.
#[verifier::external_body]
fn written_bytes(w: quick_xml::Writer<Vec<u8>>) -> (r: Vec<u8>)
    ensures
        r@ == xml_bytes(writer_items(w), writer_indent(w)),
{
    w.into_inner()
}

/// Writes `events` in order, indenting nested elements by four spaces
/// (character 32).
pub fn render(events: &Vec<XmlEvent>) -> (r: Result<Vec<u8>, KmlError>)
    requires
        cdata_safe(items(events@)),
    ensures
        r matches Ok(b) && b@ == xml_bytes(items(events@), indent_unit(32, 4)),
{
    let mut w = new_writer(32, 4);
    let mut i: usize = 0;
    while i < events.len()
        invariant
            i <= events@.len(),
            cdata_safe(items(events@)),
            writer_items(w) == items(events@).subrange(0, i as int),
            writer_indent(w) == indent_unit(32, 4),
        decreases events@.len() - i,
    {
        assert(items(events@)[i as int] == events@[i as int]@);
        match write_event(&mut w, &events[i]) {
            Ok(()) => {},
            Err(e) => return Err(KmlError::QuickXMLError(e)),
        }
        assert(items(events@).subrange(0, i + 1) =~= items(events@).subrange(0, i as int).push(events@[i as int]@));
        i = i + 1;
    }
    assert(items(events@).subrange(0, i as int) =~= items(events@));
    Ok(written_bytes(w))
}

/// Closes the document built by `b` and writes it.
pub fn write_document(b: KmlBuilder) -> (r: Result<Vec<u8>, KmlError>)
    requires
        b.wf(),
    ensures
        r matches Ok(bytes) && bytes@ == xml_bytes(document(b.doc_name@, b.outcomes@), indent_unit(32, 4)),
{
    proof {
        lemma_document_cdata_safe(b.doc_name@, b.outcomes@);
    }
    let events = b.finish();
    render(&events)
}

} // verus!
