//! The KML document: its events, one placemark per placed image, and their
//! serialisation.
use vstd::prelude::*;
use crate::decimal::{decimal_digits, push_decimal};
use crate::decode::{get_gps_information, exif_parses, gps_values, decodes_to};
use crate::structures::{GPSInformation, GpsParam};

verus! {

/// One event of the XML document, in document order.
#[derive(Debug, Clone)]
pub enum XmlEvent {
    /// The XML declaration, with its version and encoding.
    Decl(&'static str, &'static str),
    Start(&'static str),
    /// A start tag with one attribute: element name, attribute name, value.
    StartAttr(&'static str, &'static str, &'static str),
    End(&'static str),
    /// Character data, escaped when written.
    Text(String),
    /// Character data written as a CDATA section.
    CData(String),
}

/// The view of an `XmlEvent`.
pub enum XmlItem {
    Decl(Seq<char>, Seq<char>),
    Start(Seq<char>),
    StartAttr(Seq<char>, Seq<char>, Seq<char>),
    End(Seq<char>),
    Text(Seq<char>),
    CData(Seq<char>),
}

impl View for XmlEvent {
    type V = XmlItem;

    open spec fn view(&self) -> XmlItem {
        match self {
            XmlEvent::Decl(v, e) => XmlItem::Decl(v@, e@),
            XmlEvent::Start(n) => XmlItem::Start(n@),
            XmlEvent::StartAttr(n, k, v) => XmlItem::StartAttr(n@, k@, v@),
            XmlEvent::End(n) => XmlItem::End(n@),
            XmlEvent::Text(t) => XmlItem::Text(t@),
            XmlEvent::CData(t) => XmlItem::CData(t@),
        }
    }
}

pub open spec fn items(events: Seq<XmlEvent>) -> Seq<XmlItem> {
    events.map_values(|e: XmlEvent| e@)
}

/// What became of one input image.
pub enum ImageOutcome {
    /// The file could not be read or its metadata parsed.
    Unreadable,
    /// The metadata lacks a coordinate or a hemisphere.
    NoGps,
    /// The image is placed, with the texts its placemark shows.
    Placed { file: Seq<char>, lon: Seq<char>, lat: Seq<char>, alt: Seq<char> },
}

/// `s` holds the sequence that ends a CDATA section.
pub open spec fn has_cdata_end(s: Seq<char>) -> bool {
    exists|i: int| 0 <= i && i + 3 <= s.len() && #[trigger] s.subrange(i, i + 3) == seq![']', ']', '>']
}

/// `name` holding `content`.
pub open spec fn element(name: Seq<char>, content: XmlItem) -> Seq<XmlItem> {
    seq![XmlItem::Start(name), content, XmlItem::End(name)]
}

/// Everything before the first placemark.
pub open spec fn header(doc_name: Seq<char>) -> Seq<XmlItem> {
    seq![
        XmlItem::Decl("1.0"@, "UTF-8"@),
        XmlItem::StartAttr("kml"@, "xmlns"@, "http://www.opengis.net/kml/2.2"@),
        XmlItem::Start("Document"@),
    ] + element("name"@, XmlItem::Text(doc_name))
}

/// Everything after the last placemark.
pub open spec fn footer() -> Seq<XmlItem> {
    seq![XmlItem::End("Document"@), XmlItem::End("kml"@)]
}

pub open spec fn description_text(file: Seq<char>, lon: Seq<char>, lat: Seq<char>, alt: Seq<char>) -> Seq<char> {
    "<p><b>Filename:</b> "@ + file + "</p>\n<p><b>Longitude:</b> "@ + lon
        + "</p>\n<p><b>Latitude:</b> "@ + lat + "</p>\n<p><b>Altitude:</b> "@ + alt + "</p>"@
}

/// The description as a CDATA section, or as escaped text where a CDATA
/// section could not hold it.
pub open spec fn description_item(d: Seq<char>) -> XmlItem {
    if has_cdata_end(d) {
        XmlItem::Text(d)
    } else {
        XmlItem::CData(d)
    }
}

/// `lon,lat,alt`.
pub open spec fn coordinates_text(lon: Seq<char>, lat: Seq<char>, alt: Seq<char>) -> Seq<char> {
    lon + seq![','] + lat + seq![','] + alt
}

/// The placemark of the `index`-th image (counting from 1).
pub open spec fn placemark(index: nat, file: Seq<char>, lon: Seq<char>, lat: Seq<char>, alt: Seq<char>) -> Seq<XmlItem> {
    seq![XmlItem::Start("Placemark"@)]
        + element("name"@, XmlItem::Text(decimal_digits(index)))
        + element("description"@, description_item(description_text(file, lon, lat, alt)))
        + seq![XmlItem::Start("Point"@)]
        + element("coordinates"@, XmlItem::Text(coordinates_text(lon, lat, alt)))
        + seq![XmlItem::End("Point"@), XmlItem::End("Placemark"@)]
}

/// The placemarks of the placed images among `outs`, in input order, each
/// named by the image's position in `outs`.
pub open spec fn placemarks(outs: Seq<ImageOutcome>) -> Seq<XmlItem>
    decreases outs.len(),
{
    if outs.len() == 0 {
        Seq::empty()
    } else {
        let prev = placemarks(outs.drop_last());
        match outs.last() {
            ImageOutcome::Placed { file, lon, lat, alt } => prev + placemark(outs.len(), file, lon, lat, alt),
            _ => prev,
        }
    }
}

/// The whole document for the images `outs`.
pub open spec fn document(doc_name: Seq<char>, outs: Seq<ImageOutcome>) -> Seq<XmlItem> {
    header(doc_name) + placemarks(outs) + footer()
}

pub open spec fn count_placed(outs: Seq<ImageOutcome>) -> nat
    decreases outs.len(),
{
    if outs.len() == 0 {
        0
    } else {
        count_placed(outs.drop_last()) + if outs.last() is Placed { 1nat } else { 0nat }
    }
}

pub open spec fn count_unreadable(outs: Seq<ImageOutcome>) -> nat
    decreases outs.len(),
{
    if outs.len() == 0 {
        0
    } else {
        count_unreadable(outs.drop_last()) + if outs.last() is Unreadable { 1nat } else { 0nat }
    }
}

pub open spec fn count_no_gps(outs: Seq<ImageOutcome>) -> nat
    decreases outs.len(),
{
    if outs.len() == 0 {
        0
    } else {
        count_no_gps(outs.drop_last()) + if outs.last() is NoGps { 1nat } else { 0nat }
    }
}

/// What the record of an image that was read says of it.
pub open spec fn record_outcome(file: Seq<char>, info: GPSInformation) -> ImageOutcome {
    if info.spec_is_valid() {
        ImageOutcome::Placed {
            file,
            lon: info.spec_formatted(GpsParam::Longitude),
            lat: info.spec_formatted(GpsParam::Latitude),
            alt: info.spec_formatted(GpsParam::Altitude),
        }
    } else {
        ImageOutcome::NoGps
    }
}

/// Whether `s` holds the sequence that ends a CDATA section.
pub fn contains_cdata_end(s: &str) -> (r: bool)
    ensures
        r == has_cdata_end(s@),
{
    let n = s.unicode_len();
    if n < 3 {
        return false;
    }
    let mut i: usize = 0;
    while i < n - 2
        invariant
            n == s@.len(),
            n >= 3,
            i <= n - 2,
            forall|j: int| 0 <= j < i ==> #[trigger] s@.subrange(j, j + 3) != seq![']', ']', '>'],
        decreases n - i,
    {
        if s.get_char(i) == ']' && s.get_char(i + 1) == ']' && s.get_char(i + 2) == '>' {
            assert(s@.subrange(i as int, i + 3) =~= seq![']', ']', '>']);
            return true;
        }
        assert(s@.subrange(i as int, i + 3)[0] == s@[i as int]);
        assert(s@.subrange(i as int, i + 3)[1] == s@[i + 1]);
        assert(s@.subrange(i as int, i + 3)[2] == s@[i + 2]);
        i = i + 1;
    }
    false
}

/// The document being built, image by image.
pub struct KmlBuilder {
    pub events: Vec<XmlEvent>,
    /// Images seen so far.
    pub index: usize,
    /// Images placed.
    pub written: usize,
    /// Images whose file or metadata could not be read.
    pub unreadable: usize,
    /// Images without a complete position.
    pub no_gps: usize,
    pub doc_name: Ghost<Seq<char>>,
    pub outcomes: Ghost<Seq<ImageOutcome>>,
}

impl KmlBuilder {
    pub open spec fn wf(&self) -> bool {
        &&& items(self.events@) == header(self.doc_name@) + placemarks(self.outcomes@)
        &&& self.index == self.outcomes@.len()
        &&& self.written == count_placed(self.outcomes@)
        &&& self.unreadable == count_unreadable(self.outcomes@)
        &&& self.no_gps == count_no_gps(self.outcomes@)
    }

    proof fn lemma_counts(outs: Seq<ImageOutcome>)
        ensures
            count_placed(outs) + count_unreadable(outs) + count_no_gps(outs) == outs.len(),
        decreases outs.len(),
    {
        if outs.len() > 0 {
            Self::lemma_counts(outs.drop_last());
        }
    }

    fn push_event(&mut self, e: XmlEvent)
        ensures
            items(final(self).events@) == items(old(self).events@).push(e@),
            final(self).index == old(self).index,
            final(self).written == old(self).written,
            final(self).unreadable == old(self).unreadable,
            final(self).no_gps == old(self).no_gps,
            final(self).doc_name == old(self).doc_name,
            final(self).outcomes == old(self).outcomes,
    {
        self.events.push(e);
        assert(items(self.events@) =~= items(old(self).events@).push(e@));
    }

    /// Pushes `name` holding the text `t`.
    fn push_text_element(&mut self, name: &'static str, t: String)
        ensures
            items(final(self).events@) == items(old(self).events@) + element(name@, XmlItem::Text(t@)),
            final(self).index == old(self).index,
            final(self).written == old(self).written,
            final(self).unreadable == old(self).unreadable,
            final(self).no_gps == old(self).no_gps,
            final(self).doc_name == old(self).doc_name,
            final(self).outcomes == old(self).outcomes,
    {
        self.push_event(XmlEvent::Start(name));
        self.push_event(XmlEvent::Text(t));
        self.push_event(XmlEvent::End(name));
        assert(items(self.events@) =~= items(old(self).events@) + element(name@, XmlItem::Text(t@)));
    }

    /// A document named `document_name`, with no images yet.
    pub fn new(document_name: &str) -> (r: Self)
        ensures
            r.wf(),
            r.doc_name@ == document_name@,
            r.outcomes@ == Seq::<ImageOutcome>::empty(),
    {
        let mut b = KmlBuilder {
            events: Vec::new(),
            index: 0,
            written: 0,
            unreadable: 0,
            no_gps: 0,
            doc_name: Ghost(document_name@),
            outcomes: Ghost(Seq::empty()),
        };
        b.push_event(XmlEvent::Decl("1.0", "UTF-8"));
        b.push_event(XmlEvent::StartAttr("kml", "xmlns", "http://www.opengis.net/kml/2.2"));
        b.push_event(XmlEvent::Start("Document"));
        b.push_text_element("name", document_name.to_string());
        assert(items(b.events@) =~= header(b.doc_name@) + placemarks(b.outcomes@));
        b
    }

    /// Counts an image whose file or metadata could not be read.
    pub fn add_unreadable(&mut self)
        requires
            old(self).wf(),
            old(self).index < usize::MAX,
        ensures
            final(self).wf(),
            final(self).doc_name == old(self).doc_name,
            final(self).outcomes@ == old(self).outcomes@.push(ImageOutcome::Unreadable),
    {
        proof { Self::lemma_counts(self.outcomes@); }
        self.outcomes = Ghost(self.outcomes@.push(ImageOutcome::Unreadable));
        proof {
            assert(self.outcomes@.drop_last() =~= old(self).outcomes@);
        }
        self.index = self.index + 1;
        self.unreadable = self.unreadable + 1;
    }

    /// Adds the image `file` whose metadata decoded to `info`: a placemark
    /// where `info` is valid, a count of images without position otherwise.
    pub fn add_record(&mut self, file: &str, info: &GPSInformation)
        requires
            old(self).wf(),
            old(self).index < usize::MAX,
            info.wf(),
        ensures
            final(self).wf(),
            final(self).doc_name == old(self).doc_name,
            final(self).outcomes@ == old(self).outcomes@.push(record_outcome(file@, *info)),
    {
        proof { Self::lemma_counts(self.outcomes@); }
        let ghost outs = self.outcomes@.push(record_outcome(file@, *info));
        assert(outs.drop_last() =~= old(self).outcomes@);
        if !info.is_valid() {
            proof {
                assert(outs.last() == ImageOutcome::NoGps);
                assert(placemarks(outs) == placemarks(old(self).outcomes@));
                assert(count_placed(outs) == count_placed(old(self).outcomes@));
                assert(count_no_gps(outs) == count_no_gps(old(self).outcomes@) + 1);
                assert(count_unreadable(outs) == count_unreadable(old(self).outcomes@));
            }
            self.outcomes = Ghost(outs);
            self.index = self.index + 1;
            self.no_gps = self.no_gps + 1;
            return;
        }
        let lon = info.formatted(GpsParam::Longitude);
        let lat = info.formatted(GpsParam::Latitude);
        let alt = info.formatted(GpsParam::Altitude);
        let n = self.index + 1;
        let mut name = String::new();
        push_decimal(&mut name, n as u128);
        let mut desc = String::new();
        desc.append("<p><b>Filename:</b> ");
        desc.append(file);
        desc.append("</p>\n<p><b>Longitude:</b> ");
        desc.append(lon.as_str());
        desc.append("</p>\n<p><b>Latitude:</b> ");
        desc.append(lat.as_str());
        desc.append("</p>\n<p><b>Altitude:</b> ");
        desc.append(alt.as_str());
        desc.append("</p>");
        let mut coords = String::new();
        coords.append(lon.as_str());
        coords.append(",");
        coords.append(lat.as_str());
        coords.append(",");
        coords.append(alt.as_str());
        proof {
            reveal_strlit(",");
            assert(desc@ =~= description_text(file@, lon@, lat@, alt@));
            assert(coords@ =~= coordinates_text(lon@, lat@, alt@));
        }
        let ghost before = items(self.events@);
        self.push_event(XmlEvent::Start("Placemark"));
        self.push_text_element("name", name);
        let cdata_end = contains_cdata_end(desc.as_str());
        self.push_event(XmlEvent::Start("description"));
        if cdata_end {
            self.push_event(XmlEvent::Text(desc));
        } else {
            self.push_event(XmlEvent::CData(desc));
        }
        self.push_event(XmlEvent::End("description"));
        self.push_event(XmlEvent::Start("Point"));
        self.push_text_element("coordinates", coords);
        self.push_event(XmlEvent::End("Point"));
        self.push_event(XmlEvent::End("Placemark"));
        assert(items(self.events@) =~= before + placemark(n as nat, file@, lon@, lat@, alt@));
        assert(before == header(self.doc_name@) + placemarks(old(self).outcomes@));
        proof {
            assert(outs.last() == record_outcome(file@, *info));
            assert(placemarks(outs) == placemarks(old(self).outcomes@) + placemark(n as nat, file@, lon@, lat@, alt@));
            assert(count_placed(outs) == count_placed(old(self).outcomes@) + 1);
            assert(count_no_gps(outs) == count_no_gps(old(self).outcomes@));
            assert(count_unreadable(outs) == count_unreadable(old(self).outcomes@));
        }
        self.outcomes = Ghost(outs);
        self.index = n;
        self.written = self.written + 1;
        assert(items(self.events@) == header(self.doc_name@) + placemarks(self.outcomes@));
    }

    /// Adds the image at `path`, whose file content is `data`, or `None`
    /// where the file could not be read.
    pub fn add_image(&mut self, path: &str, data: Option<&[u8]>)
        requires
            old(self).wf(),
            old(self).index < usize::MAX,
        ensures
            final(self).wf(),
            final(self).doc_name == old(self).doc_name,
            final(self).outcomes@.drop_last() == old(self).outcomes@,
            final(self).outcomes@.len() == old(self).outcomes@.len() + 1,
            data is None ==> final(self).outcomes@.last() is Unreadable,
            data is Some && !exif_parses(data->0@) ==> final(self).outcomes@.last() is Unreadable,
            data is Some && exif_parses(data->0@) ==> exists|info: GPSInformation|
                info.wf() && #[trigger] decodes_to(gps_values(data->0@), info)
                    && final(self).outcomes@.last() == record_outcome(crate::utils::shown_name(path@), info),
            final(self).outcomes@.last() matches ImageOutcome::Placed { file, .. }
                ==> file == crate::utils::shown_name(path@),
    {
        match data {
            None => self.add_unreadable(),
            Some(bytes) => match get_gps_information(bytes) {
                Err(_) => self.add_unreadable(),
                Ok(info) => {
                    let name = crate::utils::display_name(path);
                    self.add_record(name.as_str(), &info);
                },
            },
        }
        assert(self.outcomes@.drop_last() =~= old(self).outcomes@);
    }

    /// Closes the document and hands out its events.
    pub fn finish(self) -> (r: Vec<XmlEvent>)
        requires
            self.wf(),
        ensures
            items(r@) == document(self.doc_name@, self.outcomes@),
    {
        let mut b = self;
        b.push_event(XmlEvent::End("Document"));
        b.push_event(XmlEvent::End("kml"));
        assert(items(b.events@) =~= document(self.doc_name@, self.outcomes@));
        b.events
    }
}

} // verus!
