use geotag_kml::decimal::Ratio;
use geotag_kml::decode::{decode_fields, decode_value, get_gps_information, RawValue};
use geotag_kml::kml::{contains_cdata_end, KmlBuilder, XmlEvent};
use geotag_kml::structures::{param_from_name, GPSInformation, GPSInformationField, GpsParam, KmlError, LogLevel};
use geotag_kml::utils::{check_if_path_is_image, check_image_extension, display_name, document_name};
use geotag_kml::writer::{render, write_document};

fn push_u16(b: &mut Vec<u8>, v: u16) {
    b.extend_from_slice(&v.to_le_bytes());
}

fn push_u32(b: &mut Vec<u8>, v: u32) {
    b.extend_from_slice(&v.to_le_bytes());
}

fn entry(b: &mut Vec<u8>, tag: u16, typ: u16, count: u32, value: [u8; 4]) {
    push_u16(b, tag);
    push_u16(b, typ);
    push_u32(b, count);
    b.extend_from_slice(&value);
}

/// A little-endian TIFF file whose GPS directory places the image at
/// 10°30'0" N, 20°15'0" W, 100 m above sea level.
fn tiff_with_gps() -> Vec<u8> {
    let mut b = Vec::new();
    b.extend_from_slice(b"II");
    push_u16(&mut b, 42);
    push_u32(&mut b, 8);
    push_u16(&mut b, 1);
    entry(&mut b, 0x8825, 4, 1, 26u32.to_le_bytes());
    push_u32(&mut b, 0);
    assert_eq!(b.len(), 26);
    push_u16(&mut b, 6);
    entry(&mut b, 1, 2, 2, [b'N', 0, 0, 0]);
    entry(&mut b, 2, 5, 3, 104u32.to_le_bytes());
    entry(&mut b, 3, 2, 2, [b'W', 0, 0, 0]);
    entry(&mut b, 4, 5, 3, 128u32.to_le_bytes());
    entry(&mut b, 5, 1, 1, [0, 0, 0, 0]);
    entry(&mut b, 6, 5, 1, 152u32.to_le_bytes());
    push_u32(&mut b, 0);
    assert_eq!(b.len(), 104);
    for (n, d) in [(10u32, 1u32), (30, 1), (0, 1), (20, 1), (15, 1), (0, 1), (100, 1)] {
        push_u32(&mut b, n);
        push_u32(&mut b, d);
    }
    b
}

/// A little-endian TIFF file with one directory and no GPS data.
fn tiff_without_gps() -> Vec<u8> {
    let mut b = Vec::new();
    b.extend_from_slice(b"II");
    push_u16(&mut b, 42);
    push_u32(&mut b, 8);
    push_u16(&mut b, 1);
    entry(&mut b, 0x0100, 4, 1, 64u32.to_le_bytes());
    push_u32(&mut b, 0);
    b
}

fn text(events: &[XmlEvent]) -> String {
    let mut out = String::new();
    for e in events {
        match e {
            XmlEvent::Start(n) => out.push_str(&format!("<{}>", n)),
            XmlEvent::StartAttr(n, _, _) => out.push_str(&format!("<{}>", n)),
            XmlEvent::End(n) => out.push_str(&format!("</{}>", n)),
            XmlEvent::Text(t) => out.push_str(t),
            XmlEvent::CData(t) => out.push_str(&format!("[{}]", t)),
            XmlEvent::Decl(_, _) => {}
        }
    }
    out
}

fn record(lat: (u32, u32, char), lon: (u32, u32, char), alt: (u128, u128)) -> GPSInformation {
    let mut g = GPSInformation::new();
    g.set_index(&0, GPSInformationField::Decimal(Ratio { num: alt.0, den: alt.1 }));
    g.set_index(&2, GPSInformationField::Decimal(Ratio { num: lat.0 as u128, den: lat.1 as u128 }));
    g.set_index(&3, GPSInformationField::Char(lat.2));
    g.set_index(&4, GPSInformationField::Decimal(Ratio { num: lon.0 as u128, den: lon.1 as u128 }));
    g.set_index(&5, GPSInformationField::Char(lon.2));
    g
}

#[test]
fn log_level_labels() {
    assert_eq!(LogLevel::Off.label(), "Off");
    assert_eq!(LogLevel::Warning.label(), "Warning");
    assert_eq!(LogLevel::Trace.label(), "Trace");
}

#[test]
fn image_paths_by_extension() {
    assert!(check_if_path_is_image("photos/a.jpg"));
    assert!(check_if_path_is_image("photos/B.JPEG"));
    assert!(check_if_path_is_image("x.Tif"));
    assert!(!check_if_path_is_image("notes.txt"));
    assert!(!check_if_path_is_image("photos/noext"));
    assert!(check_image_extension("avif"));
    assert!(!check_image_extension("AVIF"));
}

#[test]
fn display_name_is_final_component() {
    assert_eq!(display_name("dir/sub/img.jpg"), "img.jpg");
    assert_eq!(display_name("img.jpg"), "img.jpg");
}

#[test]
fn dms_triple_to_decimal() {
    let v = RawValue::Rational(vec![(10, 1), (30, 1), (0, 1)]);
    match decode_value(&v) {
        Some(GPSInformationField::Decimal(r)) => assert_eq!(r.num * 2, r.den * 21),
        other => panic!("unexpected {:?}", other),
    }
}

#[test]
fn single_rational_to_decimal() {
    let v = RawValue::Rational(vec![(45, 1)]);
    assert_eq!(decode_value(&v), Some(GPSInformationField::Decimal(Ratio { num: 45, den: 1 })));
    let mut g = GPSInformation::new();
    g.set_index(&2, decode_value(&v).unwrap());
    assert_eq!(g.get_param("lat"), "45.000000");
}

#[test]
fn malformed_values_are_skipped() {
    assert_eq!(decode_value(&RawValue::Rational(vec![])), None);
    assert_eq!(decode_value(&RawValue::Rational(vec![(1, 1), (2, 1)])), None);
    assert_eq!(decode_value(&RawValue::Rational(vec![(1, 0)])), None);
    assert_eq!(decode_value(&RawValue::Byte(vec![])), None);
    assert_eq!(decode_value(&RawValue::Ascii(vec![])), None);
    assert_eq!(decode_value(&RawValue::Other), None);
    assert_eq!(decode_value(&RawValue::Byte(vec![1])), Some(GPSInformationField::Int(1)));
    assert_eq!(decode_value(&RawValue::Ascii(vec![b"S".to_vec()])), Some(GPSInformationField::Char('S')));
}

#[test]
fn validity_needs_all_four_position_slots() {
    let full = vec![
        None,
        None,
        Some(RawValue::Rational(vec![(1, 1)])),
        Some(RawValue::Ascii(vec![b"N".to_vec()])),
        Some(RawValue::Rational(vec![(2, 1)])),
        Some(RawValue::Ascii(vec![b"E".to_vec()])),
    ];
    assert!(decode_fields(&full).is_valid());
    for missing in 2..6 {
        let mut v = full.clone();
        v[missing] = None;
        assert!(!decode_fields(&v).is_valid());
    }
    let mut bad = full.clone();
    bad[3] = Some(RawValue::Other);
    assert!(!decode_fields(&bad).is_valid());
    assert!(!GPSInformation::new().is_valid());
}

#[test]
fn sign_follows_hemisphere() {
    let g = record((21, 2, 'S'), (81, 4, 'W'), (0, 1));
    assert_eq!(g.formatted(GpsParam::Latitude), "-10.500000");
    assert_eq!(g.formatted(GpsParam::Longitude), "-20.250000");
    let g = record((21, 2, 'N'), (81, 4, 'E'), (0, 1));
    assert_eq!(g.formatted(GpsParam::Latitude), "10.500000");
    assert_eq!(g.formatted(GpsParam::Longitude), "20.250000");
}

#[test]
fn precision_is_fixed() {
    let g = record((1, 3, 'N'), (2, 3, 'E'), (100, 1));
    assert_eq!(g.get_param("alt"), "100.00");
    assert_eq!(g.get_param("altitude"), "100.00");
    assert_eq!(g.get_param("latitude"), "0.333333");
    assert_eq!(g.get_param("lon"), "0.666667");
    let g = record((179999999, 1000000, 'N'), (5, 1000000000, 'E'), (12345, 1000));
    assert_eq!(g.get_param("lat"), "179.999999");
    assert_eq!(g.get_param("lon"), "0.000000");
    assert_eq!(g.get_param("alt"), "12.34");
    let g = record((1, 1, 'N'), (1, 1, 'E'), (12355, 1000));
    assert_eq!(g.get_param("alt"), "12.36");
    let g = record((9999999, 10000000, 'N'), (0, 1, 'E'), (999, 1000));
    assert_eq!(g.get_param("lat"), "1.000000");
    assert_eq!(g.get_param("alt"), "1.00");
}

#[test]
fn param_names() {
    assert_eq!(param_from_name("alt"), Some(GpsParam::Altitude));
    assert_eq!(param_from_name("longitude"), Some(GpsParam::Longitude));
    assert_eq!(param_from_name("height"), None);
}

#[test]
fn slots_by_index() {
    let mut g = GPSInformation::new();
    assert_eq!(*g.get_index(&1), GPSInformationField::Int(0));
    g.set_index(&1, GPSInformationField::Int(1));
    assert_eq!(*g.get_index(&1), GPSInformationField::Int(1));
    assert!(g.modified[1]);
    assert!(!g.modified[0]);
}

#[test]
fn unparsable_metadata_is_an_error() {
    assert!(matches!(get_gps_information(b"not an image"), Err(KmlError::ExifReadError(_))));
}

#[test]
fn tiff_gps_is_decoded() {
    let g = get_gps_information(&tiff_with_gps()).unwrap();
    assert!(g.is_valid());
    assert_eq!(g.latitude_ref, GPSInformationField::Char('N'));
    assert_eq!(g.longitude_ref, GPSInformationField::Char('W'));
    assert_eq!(g.altitude_ref, GPSInformationField::Int(0));
    assert_eq!(g.get_param("lat"), "10.500000");
    assert_eq!(g.get_param("lon"), "-20.250000");
    assert_eq!(g.get_param("alt"), "100.00");
}

#[test]
fn end_to_end_one_placed_image() {
    let mut b = KmlBuilder::new("trip");
    b.add_image("photos/one.tif", Some(tiff_with_gps().as_slice()));
    assert_eq!((b.written, b.unreadable, b.no_gps), (1, 0, 0));
    let events = b.finish();
    let t = text(&events);
    assert!(t.contains("<Placemark><name>1</name>"));
    assert!(t.contains("<coordinates>-20.250000,10.500000,100.00</coordinates>"));
    assert!(t.contains("one.tif"));
    assert!(!t.contains("photos/"));
    let bytes = render(&events).unwrap();
    let xml = String::from_utf8(bytes).unwrap();
    assert!(xml.contains("<coordinates>-20.250000,10.500000,100.00</coordinates>"));
    assert!(xml.contains("<name>trip</name>"));
    assert!(xml.contains("<![CDATA["));
}

#[test]
fn image_without_gps_is_counted() {
    let mut b = KmlBuilder::new("trip");
    b.add_image("plain.tif", Some(tiff_without_gps().as_slice()));
    assert_eq!((b.written, b.unreadable, b.no_gps), (0, 0, 1));
    let events = b.finish();
    assert!(!text(&events).contains("Placemark"));
}

#[test]
fn unreadable_image_is_counted() {
    let mut b = KmlBuilder::new("trip");
    b.add_image("missing.jpg", None);
    b.add_image("broken.jpg", Some(&b"garbage"[..]));
    assert_eq!((b.written, b.unreadable, b.no_gps), (0, 2, 0));
    let xml = String::from_utf8(render(&b.finish()).unwrap()).unwrap();
    assert!(xml.starts_with("<?xml version=\"1.0\" encoding=\"UTF-8\"?>"));
    assert!(!xml.contains("Placemark"));
}

#[test]
fn placemarks_keep_input_order() {
    let mut b = KmlBuilder::new("trip");
    b.add_image("a.jpg", None);
    b.add_record("b.jpg", &record((1, 1, 'N'), (2, 1, 'E'), (3, 1)));
    b.add_record("c.jpg", &GPSInformation::new());
    b.add_record("d.jpg", &record((4, 1, 'S'), (5, 1, 'W'), (6, 1)));
    assert_eq!((b.index, b.written, b.unreadable, b.no_gps), (4, 2, 1, 1));
    let t = text(&b.finish());
    let first = t.find("<name>2</name>").unwrap();
    let second = t.find("<name>4</name>").unwrap();
    assert!(first < second);
    assert!(t.contains("<coordinates>2.000000,1.000000,3.00</coordinates>"));
    assert!(t.contains("<coordinates>-5.000000,-4.000000,6.00</coordinates>"));
}

#[test]
fn cdata_end_in_file_name_falls_back_to_text() {
    assert!(contains_cdata_end("a]]>b"));
    assert!(!contains_cdata_end("a]]b>"));
    let mut b = KmlBuilder::new("trip");
    b.add_record("odd]]>.jpg", &record((1, 1, 'N'), (2, 1, 'E'), (3, 1)));
    let events = b.finish();
    assert!(events.iter().all(|e| !matches!(e, XmlEvent::CData(_))));
    let xml = String::from_utf8(render(&events).unwrap()).unwrap();
    assert!(xml.contains("odd]]&gt;.jpg"));
}

#[test]
fn empty_input_gives_valid_document() {
    let b = KmlBuilder::new("empty");
    let bytes = render(&b.finish()).unwrap();
    let mut reader = quick_xml::Reader::from_reader(bytes.as_slice());
    let mut buf = Vec::new();
    let mut starts = Vec::new();
    let mut ns = None;
    loop {
        match reader.read_event_into(&mut buf).unwrap() {
            quick_xml::events::Event::Start(e) => {
                let name = String::from_utf8(e.name().as_ref().to_vec()).unwrap();
                if name == "kml" {
                    let a = e.try_get_attribute("xmlns").unwrap().unwrap();
                    ns = Some(String::from_utf8(a.value.to_vec()).unwrap());
                }
                starts.push(name);
            }
            quick_xml::events::Event::Eof => break,
            _ => {}
        }
        buf.clear();
    }
    assert_eq!(starts, vec!["kml", "Document", "name"]);
    assert_eq!(ns.as_deref(), Some("http://www.opengis.net/kml/2.2"));
}

#[test]
fn output_parses_back() {
    let mut b = KmlBuilder::new("trip");
    b.add_image("one.tif", Some(tiff_with_gps().as_slice()));
    b.add_record("two.jpg", &record((1, 3, 'S'), (2, 3, 'E'), (7, 2)));
    let bytes = render(&b.finish()).unwrap();
    let mut reader = quick_xml::Reader::from_reader(bytes.as_slice());
    let mut buf = Vec::new();
    let mut in_coords = false;
    let mut coords = Vec::new();
    let mut placemarks = 0;
    let mut root = None;
    loop {
        match reader.read_event_into(&mut buf).unwrap() {
            quick_xml::events::Event::Start(e) => {
                let name = String::from_utf8(e.name().as_ref().to_vec()).unwrap();
                if root.is_none() {
                    root = Some(name.clone());
                }
                if name == "Placemark" {
                    placemarks += 1;
                }
                in_coords = name == "coordinates";
            }
            quick_xml::events::Event::Text(t) if in_coords => {
                coords.push(t.unescape().unwrap().into_owned());
            }
            quick_xml::events::Event::End(_) => in_coords = false,
            quick_xml::events::Event::Eof => break,
            _ => {}
        }
        buf.clear();
    }
    assert_eq!(root.as_deref(), Some("kml"));
    assert_eq!(placemarks, 2);
    assert_eq!(coords, vec!["-20.250000,10.500000,100.00", "0.666667,-0.333333,3.50"]);
    for c in coords {
        let parts: Vec<&str> = c.split(',').collect();
        assert_eq!(parts.len(), 3);
        assert!(parts.iter().all(|p| p.parse::<f64>().is_ok()));
    }
}

#[test]
fn document_name_strips_extension() {
    assert_eq!(document_name("out/dir/trip.kml").as_deref(), Some("trip"));
    assert_eq!(document_name("plain").as_deref(), Some("plain"));
    assert_eq!(document_name(".."), None);
}

#[test]
fn builder_document_is_written() {
    let mut b = KmlBuilder::new("trip");
    b.add_image("one.tif", Some(tiff_with_gps().as_slice()));
    let xml = String::from_utf8(write_document(b).unwrap()).unwrap();
    assert!(xml.contains("<kml xmlns=\"http://www.opengis.net/kml/2.2\">"));
    assert!(xml.contains("<name>1</name>"));
    assert!(xml.trim_end().ends_with("</kml>"));
}

#[test]
fn decoding_same_bytes_agrees() {
    let data = tiff_with_gps();
    let a = get_gps_information(&data).unwrap();
    let b = get_gps_information(&data).unwrap();
    assert_eq!(a.modified, b.modified);
    for i in 0..6 {
        assert_eq!(a.get_index(&i), b.get_index(&i));
    }
}

#[test]
fn rendering_is_indented() {
    let bytes = render(&KmlBuilder::new("n").finish()).unwrap();
    let xml = String::from_utf8(bytes).unwrap();
    assert_eq!(
        xml,
        "<?xml version=\"1.0\" encoding=\"UTF-8\"?>\n<kml xmlns=\"http://www.opengis.net/kml/2.2\">\n    <Document>\n        <name>n</name>\n    </Document>\n</kml>"
    );
}
