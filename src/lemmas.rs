//! Facts relating the decoder, the record and the document.
use vstd::prelude::*;
use crate::decimal::{fixed_point, decimal_digits, padded_digits, digit_char, pow10, scaled_round};
use crate::decode::{RawValue, decoded, decodes_to, slot_decoded, gps_values};
use crate::structures::{GPSInformation, GPSInformationField, GpsParam};
use crate::kml::{XmlItem, ImageOutcome, placemarks, placemark, document, header, footer,
    count_placed, coordinates_text, record_outcome};

verus! {

/// A value was found for the slot and it decodes.
pub open spec fn found_and_decoded(v: Option<RawValue>) -> bool {
    v matches Some(x) && decoded(x) is Some
}

/// A decoded record is valid exactly when the latitude, longitude and both
/// their references were found and decoded; altitude plays no part.
pub proof fn lemma_valid_iff_position_found(values: Seq<Option<RawValue>>, r: GPSInformation)
    requires
        values.len() == 6,
        decodes_to(values, r),
    ensures
        r.spec_is_valid() <==> (found_and_decoded(values[2]) && found_and_decoded(values[3])
            && found_and_decoded(values[4]) && found_and_decoded(values[5])),
{
    assert(slot_decoded(values[2], r, 2));
    assert(slot_decoded(values[3], r, 3));
    assert(slot_decoded(values[4], r, 4));
    assert(slot_decoded(values[5], r, 5));
}

/// The values found for the slots fix the decoded record: two records
/// decoded from the same values agree in every slot and flag, and so in what
/// they say of the image.
pub proof fn lemma_decoding_is_determined(values: Seq<Option<RawValue>>, a: GPSInformation, b: GPSInformation, file: Seq<char>)
    requires
        values.len() == 6,
        decodes_to(values, a),
        decodes_to(values, b),
    ensures
        forall|i: int| 0 <= i < 6 ==> #[trigger] a.slot(i) == b.slot(i),
        a.observed() == b.observed(),
        record_outcome(file, a) == record_outcome(file, b),
{
    assert forall|i: int| 0 <= i < 6 implies #[trigger] a.slot(i) == b.slot(i) && a.observed()[i] == b.observed()[i] by {
        assert(slot_decoded(values[i], a, i));
        assert(slot_decoded(values[i], b, i));
    }
    assert(a.observed() =~= b.observed());
    assert(a.slot(0) == b.slot(0) && a.slot(1) == b.slot(1) && a.slot(2) == b.slot(2));
    assert(a.slot(3) == b.slot(3) && a.slot(4) == b.slot(4) && a.slot(5) == b.slot(5));
}

/// An image whose metadata parses but holds none of the six GPS tags is
/// counted as lacking a position, and adds no placemark.
pub proof fn lemma_no_gps_tags(data: Seq<u8>, info: GPSInformation, file: Seq<char>)
    requires
        forall|i: int| 0 <= i < 6 ==> gps_values(data)[i] is None,
        decodes_to(gps_values(data), info),
    ensures
        !info.spec_is_valid(),
        record_outcome(file, info) == ImageOutcome::NoGps,
{
    assert(slot_decoded(gps_values(data)[2], info, 2));
    assert(gps_values(data)[2] is None);
}

pub open spec fn is_digit(c: char) -> bool {
    '0' <= c && c <= '9'
}

pub open spec fn all_digits(s: Seq<char>) -> bool {
    forall|i: int| 0 <= i < s.len() ==> is_digit(#[trigger] s[i])
}

/// Digits, a point, and exactly `k` digits.
pub open spec fn is_point_numeral(s: Seq<char>, k: nat) -> bool {
    &&& s.len() >= k + 2
    &&& s[s.len() - k - 1] == '.'
    &&& all_digits(s.subrange(0, s.len() - k - 1))
    &&& all_digits(s.subrange(s.len() - k, s.len() as int))
}

/// An optional minus sign followed by a point numeral with `k` decimals.
pub open spec fn is_signed_numeral(s: Seq<char>, k: nat) -> bool {
    is_point_numeral(s, k) || (s.len() >= 1 && s[0] == '-' && is_point_numeral(s.drop_first(), k))
}

proof fn lemma_digit_char(d: nat)
    ensures
        is_digit(digit_char(d)),
{
}

proof fn lemma_padded_digits(n: nat, w: nat)
    ensures
        padded_digits(n, w).len() == w,
        all_digits(padded_digits(n, w)),
    decreases w,
{
    if w > 0 {
        lemma_padded_digits(n / 10, (w - 1) as nat);
        lemma_digit_char(n % 10);
        let p = padded_digits(n / 10, (w - 1) as nat);
        assert forall|i: int| 0 <= i < padded_digits(n, w).len() implies is_digit(#[trigger] padded_digits(n, w)[i]) by {
            if i < p.len() {
                assert(padded_digits(n, w)[i] == p[i]);
            }
        }
    }
}

proof fn lemma_decimal_digits(n: nat)
    ensures
        decimal_digits(n).len() >= 1,
        all_digits(decimal_digits(n)),
    decreases n,
{
    lemma_digit_char(n % 10);
    if n >= 10 {
        lemma_decimal_digits(n / 10);
        let p = decimal_digits(n / 10);
        assert forall|i: int| 0 <= i < decimal_digits(n).len() implies is_digit(#[trigger] decimal_digits(n)[i]) by {
            if i < p.len() {
                assert(decimal_digits(n)[i] == p[i]);
            }
        }
    } else {
        lemma_digit_char(n);
    }
}

/// A rendered decimal has digits, a point, and exactly `k` digits after it,
/// whatever its magnitude.
pub proof fn lemma_fixed_point_shape(num: nat, den: nat, k: nat)
    ensures
        is_point_numeral(fixed_point(num, den, k), k),
{
    let n = scaled_round(num, den, k);
    let a = decimal_digits(n / pow10(k));
    let b = padded_digits(n % pow10(k), k);
    lemma_decimal_digits(n / pow10(k));
    lemma_padded_digits(n % pow10(k), k);
    let s = fixed_point(num, den, k);
    assert(s == a + seq!['.'] + b);
    assert(s.subrange(0, s.len() - k - 1) =~= a);
    assert(s.subrange(s.len() - k, s.len() as int) =~= b);
}

/// A decimal slot renders as a signed numeral: altitude with two decimals,
/// latitude and longitude with six; the minus sign appears exactly for a
/// southern latitude or a western longitude.
pub proof fn lemma_formatted_numerals(info: GPSInformation)
    requires
        info.altitude is Decimal,
        info.latitude is Decimal,
        info.longitude is Decimal,
    ensures
        is_point_numeral(info.spec_formatted(GpsParam::Altitude), 2),
        is_signed_numeral(info.spec_formatted(GpsParam::Latitude), 6),
        is_signed_numeral(info.spec_formatted(GpsParam::Longitude), 6),
        (info.spec_formatted(GpsParam::Latitude)[0] == '-')
            <==> info.latitude_ref == GPSInformationField::Char('S'),
        (info.spec_formatted(GpsParam::Longitude)[0] == '-')
            <==> info.longitude_ref == GPSInformationField::Char('W'),
{
    let alt = info.altitude->Decimal_0;
    let lat = info.latitude->Decimal_0;
    let lon = info.longitude->Decimal_0;
    lemma_fixed_point_shape(alt.num as nat, alt.den as nat, 2);
    lemma_fixed_point_shape(lat.num as nat, lat.den as nat, 6);
    lemma_fixed_point_shape(lon.num as nat, lon.den as nat, 6);
    let tlat = fixed_point(lat.num as nat, lat.den as nat, 6);
    let tlon = fixed_point(lon.num as nat, lon.den as nat, 6);
    assert(is_digit(tlat.subrange(0, tlat.len() - 7)[0]));
    assert(is_digit(tlon.subrange(0, tlon.len() - 7)[0]));
    assert((seq!['-'] + tlat).drop_first() =~= tlat);
    assert((seq!['-'] + tlon).drop_first() =~= tlon);
}

/// The coordinates of a placemark whose three values are decimals are three
/// numerals joined by commas, none of which holds a comma.
pub proof fn lemma_coordinates_tokens(info: GPSInformation)
    requires
        info.altitude is Decimal,
        info.latitude is Decimal,
        info.longitude is Decimal,
    ensures
        ({
            let lon = info.spec_formatted(GpsParam::Longitude);
            let lat = info.spec_formatted(GpsParam::Latitude);
            let alt = info.spec_formatted(GpsParam::Altitude);
            &&& coordinates_text(lon, lat, alt) == lon + seq![','] + lat + seq![','] + alt
            &&& is_signed_numeral(lon, 6) && !lon.contains(',')
            &&& is_signed_numeral(lat, 6) && !lat.contains(',')
            &&& is_point_numeral(alt, 2) && !alt.contains(',')
        }),
{
    lemma_formatted_numerals(info);
    let lon = info.spec_formatted(GpsParam::Longitude);
    let lat = info.spec_formatted(GpsParam::Latitude);
    let alt = info.spec_formatted(GpsParam::Altitude);
    lemma_numeral_no_comma(lon, 6);
    lemma_numeral_no_comma(lat, 6);
    lemma_numeral_no_comma(alt, 2);
}

proof fn lemma_numeral_no_comma(s: Seq<char>, k: nat)
    requires
        is_signed_numeral(s, k),
    ensures
        !s.contains(','),
{
    let t = if is_point_numeral(s, k) { s } else { s.drop_first() };
    assert forall|i: int| 0 <= i < t.len() implies t[i] != ',' by {
        if i < t.len() - k - 1 {
            assert(t[i] == t.subrange(0, t.len() - k - 1)[i]);
        } else if i > t.len() - k - 1 {
            assert(t[i] == t.subrange(t.len() - k, t.len() as int)[i - (t.len() - k)]);
        }
    }
    if !is_point_numeral(s, k) {
        assert forall|i: int| 0 <= i < s.len() implies s[i] != ',' by {
            if i > 0 {
                assert(s[i] == t[i - 1]);
            }
        }
    }
}

/// The number of `Placemark` start tags in `s`.
pub open spec fn count_placemarks(s: Seq<XmlItem>) -> nat
    decreases s.len(),
{
    if s.len() == 0 {
        0
    } else {
        count_placemarks(s.drop_last()) + if s.last() == XmlItem::Start("Placemark"@) { 1nat } else { 0nat }
    }
}

proof fn lemma_count_concat(a: Seq<XmlItem>, b: Seq<XmlItem>)
    ensures
        count_placemarks(a + b) == count_placemarks(a) + count_placemarks(b),
    decreases b.len(),
{
    if b.len() == 0 {
        assert(a + b =~= a);
    } else {
        lemma_count_concat(a, b.drop_last());
        assert((a + b).drop_last() =~= a + b.drop_last());
    }
}

proof fn lemma_count_placemark(index: nat, file: Seq<char>, lon: Seq<char>, lat: Seq<char>, alt: Seq<char>)
    ensures
        count_placemarks(placemark(index, file, lon, lat, alt)) == 1,
{
    reveal_strlit("Placemark");
    reveal_strlit("name");
    reveal_strlit("description");
    reveal_strlit("Point");
    reveal_strlit("coordinates");
    let p = placemark(index, file, lon, lat, alt);
    assert(p.len() == 13);
    assert("name"@.len() != "Placemark"@.len());
    assert("description"@ != "Placemark"@) by {
        assert("description"@[0] != "Placemark"@[0]);
    }
    assert("Point"@.len() != "Placemark"@.len());
    assert("coordinates"@.len() != "Placemark"@.len());
    assert(count_placemarks(p) == 1) by {
        reveal_with_fuel(count_placemarks, 14);
    }
}

/// A document has one placemark for each placed image.
pub proof fn lemma_placemark_count(doc_name: Seq<char>, outs: Seq<ImageOutcome>)
    ensures
        count_placemarks(placemarks(outs)) == count_placed(outs),
        count_placemarks(document(doc_name, outs)) == count_placed(outs),
    decreases outs.len(),
{
    if outs.len() > 0 {
        lemma_placemark_count(doc_name, outs.drop_last());
        match outs.last() {
            ImageOutcome::Placed { file, lon, lat, alt } => {
                lemma_count_placemark(outs.len(), file, lon, lat, alt);
                lemma_count_concat(placemarks(outs.drop_last()), placemark(outs.len(), file, lon, lat, alt));
            },
            _ => {},
        }
    }
    reveal_strlit("Placemark");
    reveal_strlit("name");
    reveal_strlit("Document");
    reveal_strlit("kml");
    assert("Document"@.len() != "Placemark"@.len());
    assert("kml"@.len() != "Placemark"@.len());
    assert("name"@.len() != "Placemark"@.len());
    assert(count_placemarks(header(doc_name)) == 0) by {
        reveal_with_fuel(count_placemarks, 7);
    }
    assert(count_placemarks(footer()) == 0) by {
        reveal_with_fuel(count_placemarks, 3);
    }
    lemma_count_concat(header(doc_name), placemarks(outs));
    lemma_count_concat(header(doc_name) + placemarks(outs), footer());
}

/// Adding an image leaves the placemarks of the earlier images as they were:
/// placemarks come in the order of the input.
pub proof fn lemma_placemarks_keep_order(outs: Seq<ImageOutcome>, o: ImageOutcome)
    ensures
        placemarks(outs.push(o)).len() >= placemarks(outs).len(),
        placemarks(outs.push(o)).subrange(0, placemarks(outs).len() as int) == placemarks(outs),
{
    assert(outs.push(o).drop_last() =~= outs);
    let p = placemarks(outs.push(o));
    assert(p.subrange(0, placemarks(outs).len() as int) =~= placemarks(outs));
}

/// With no images the document is its header and footer alone, with no
/// placemark.
pub proof fn lemma_empty_document(doc_name: Seq<char>)
    ensures
        document(doc_name, Seq::empty()) == header(doc_name) + footer(),
        count_placemarks(document(doc_name, Seq::empty())) == 0,
{
    lemma_placemark_count(doc_name, Seq::empty());
    assert(header(doc_name) + placemarks(Seq::empty()) =~= header(doc_name));
}

} // verus!
