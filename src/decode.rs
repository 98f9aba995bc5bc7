//! Decoding of the six GPS tags of an image's Exif metadata into a record.
use vstd::prelude::*;
use crate::decimal::{Ratio, MAX_DEN, MAX_WHOLE};
use crate::structures::{GPSInformation, GPSInformationField, KmlError};

verus! {

/// A tag's stored value, in the shapes the decoder distinguishes.
#[derive(Debug, Clone)]
pub enum RawValue {
    /// Unsigned rationals, each as (numerator, denominator).
    Rational(Vec<(u32, u32)>),
    Byte(Vec<u8>),
    /// ASCII strings, without their trailing NUL bytes.
    Ascii(Vec<Vec<u8>>),
    /// Any other type of value.
    Other,
}

/// The GPS tag numbers read for the six slots, in slot order: altitude,
/// altitude reference, latitude, latitude reference, longitude, longitude
/// reference.
pub const GPS_TAGS: [u16; 6] = [6, 5, 2, 1, 4, 3];

/// `n / d` as a ratio.
pub open spec fn single_ratio(n: u32, d: u32) -> Ratio {
    Ratio { num: n as u128, den: d as u128 }
}

/// Degrees, minutes and seconds as one ratio of degrees:
/// `n0/d0 + n1/(60 d1) + n2/(3600 d2)` over the common denominator `3600 d0 d1 d2`.
pub open spec fn dms_ratio(a: (u32, u32), b: (u32, u32), c: (u32, u32)) -> Ratio {
    Ratio {
        num: (3600 * a.0 * b.1 * c.1 + 60 * b.0 * a.1 * c.1 + c.0 * a.1 * b.1) as u128,
        den: (3600 * a.1 * b.1 * c.1) as u128,
    }
}

/// What a stored value decodes to, or `None` where its shape is not one the
/// decoder takes.
pub open spec fn decoded(v: RawValue) -> Option<GPSInformationField> {
    match v {
        RawValue::Rational(rs) => if rs@.len() == 1 && rs@[0].1 != 0 {
            Some(GPSInformationField::Decimal(single_ratio(rs@[0].0, rs@[0].1)))
        } else if rs@.len() >= 3 && rs@[0].1 != 0 && rs@[1].1 != 0 && rs@[2].1 != 0 {
            Some(GPSInformationField::Decimal(dms_ratio(rs@[0], rs@[1], rs@[2])))
        } else {
            None
        },
        RawValue::Byte(bs) => if bs@.len() >= 1 {
            Some(GPSInformationField::Int(bs@[0]))
        } else {
            None
        },
        RawValue::Ascii(ss) => if ss@.len() >= 1 && ss@[0]@.len() >= 1 {
            Some(GPSInformationField::Char(ss@[0]@[0] as char))
        } else {
            None
        },
        RawValue::Other => None,
    }
}

/// The value a slot holds before it is assigned.
pub open spec fn default_slot(i: int) -> GPSInformationField {
    if i == 1 {
        GPSInformationField::Int(0)
    } else if i == 3 || i == 5 {
        GPSInformationField::Char('\0')
    } else {
        GPSInformationField::Decimal(Ratio { num: 0, den: 1 })
    }
}

/// Slot `i` of `r` holds what `v`, the value found for it, decodes to, and
/// is observed; where nothing decodes it keeps its default and is not observed.
pub open spec fn slot_decoded(v: Option<RawValue>, r: GPSInformation, i: int) -> bool {
    let d = match v {
        Some(v) => decoded(v),
        None => None,
    };
    match d {
        Some(f) => r.slot(i) == f && r.observed()[i],
        None => r.slot(i) == default_slot(i) && !r.observed()[i],
    }
}

/// `r` is the record decoded from the values found for the six slots.
pub open spec fn decodes_to(values: Seq<Option<RawValue>>, r: GPSInformation) -> bool {
    &&& r.observed().len() == 6
    &&& forall|i: int| 0 <= i < 6 ==> #[trigger] slot_decoded(values[i], r, i)
}

/// Decodes one stored value.
pub fn decode_value(v: &RawValue) -> (r: Option<GPSInformationField>)
    ensures
        r == decoded(*v),
        r matches Some(f) ==> f.wf(),
{
    match v {
        RawValue::Rational(rs) => {
            if rs.len() == 1 && rs[0].1 != 0 {
                Some(GPSInformationField::Decimal(Ratio { num: rs[0].0 as u128, den: rs[0].1 as u128 }))
            } else if rs.len() >= 3 && rs[0].1 != 0 && rs[1].1 != 0 && rs[2].1 != 0 {
                let (n0, d0) = rs[0];
                let (n1, d1) = rs[1];
                let (n2, d2) = rs[2];
                let r = dms(n0 as u128, d0 as u128, n1 as u128, d1 as u128, n2 as u128, d2 as u128);
                Some(GPSInformationField::Decimal(r))
            } else {
                None
            }
        },
        RawValue::Byte(bs) => {
            if bs.len() >= 1 {
                Some(GPSInformationField::Int(bs[0]))
            } else {
                None
            }
        },
        RawValue::Ascii(ss) => {
            if ss.len() >= 1 && ss[0].len() >= 1 {
                Some(GPSInformationField::Char(ss[0][0] as char))
            } else {
                None
            }
        },
        RawValue::Other => None,
    }
}

fn dms(n0: u128, d0: u128, n1: u128, d1: u128, n2: u128, d2: u128) -> (r: Ratio)
    requires
        n0 <= u32::MAX, n1 <= u32::MAX, n2 <= u32::MAX,
        1 <= d0 <= u32::MAX, 1 <= d1 <= u32::MAX, 1 <= d2 <= u32::MAX,
    ensures
        r == dms_ratio((n0 as u32, d0 as u32), (n1 as u32, d1 as u32), (n2 as u32, d2 as u32)),
        r.wf(),
{
    let m: u128 = 4294967295;
    proof {
        assert(d0 * d1 <= m * m) by (nonlinear_arith) requires d0 <= m, d1 <= m, d0 >= 1, d1 >= 1;
        assert(n0 * d1 <= m * m) by (nonlinear_arith) requires n0 <= m, d1 <= m;
        assert(n1 * d0 <= m * m) by (nonlinear_arith) requires n1 <= m, d0 <= m;
        assert(n2 * d0 <= m * m) by (nonlinear_arith) requires n2 <= m, d0 <= m;
        assert(d0 * d1 * d2 <= m * m * m) by (nonlinear_arith)
            requires d0 * d1 <= m * m, d2 <= m, d2 >= 1, d0 >= 1, d1 >= 1;
        assert(n0 * d1 * d2 <= m * m * m) by (nonlinear_arith)
            requires n0 <= m, d1 <= m, d2 <= m, d1 >= 1, d2 >= 1;
        assert(n1 * d0 * d2 <= m * m * m) by (nonlinear_arith)
            requires n1 <= m, d0 <= m, d2 <= m, d0 >= 1, d2 >= 1;
        assert(n2 * d0 * d1 <= m * m * m) by (nonlinear_arith)
            requires n2 <= m, d0 <= m, d1 <= m, d0 >= 1, d1 >= 1;
        assert(n1 * d0 * d2 <= m * d0 * d1 * d2) by (nonlinear_arith)
            requires n1 <= m, d0 >= 1, d1 >= 1, d2 >= 1;
        assert(n2 * d0 * d1 <= m * d0 * d1 * d2) by (nonlinear_arith)
            requires n2 <= m, d0 >= 1, d1 >= 1, d2 >= 1;
        assert(n0 * d1 * d2 <= m * d0 * d1 * d2) by (nonlinear_arith)
            requires n0 <= m, d0 >= 1, d1 >= 1, d2 >= 1;
    }
    let p = n0 * d1 * d2;
    let q = n1 * d0 * d2;
    let s = n2 * d0 * d1;
    let e = d0 * d1 * d2;
    proof {
        assert(e >= 1) by (nonlinear_arith) requires e == d0 * d1 * d2, d0 >= 1, d1 >= 1, d2 >= 1;
        assert(3600 * p + 60 * q + s <= 3661 * (m * m * m)) by (nonlinear_arith)
            requires p <= m * m * m, q <= m * m * m, s <= m * m * m;
    }
    let num = 3600 * p + 60 * q + s;
    let den = 3600 * e;
    proof {
        assert(den <= MAX_DEN) by (nonlinear_arith)
            requires den == 3600 * e, e <= m * m * m, m == 4294967295, MAX_DEN == 3600 * m * m * m;
        assert(num < den * MAX_WHOLE) by (nonlinear_arith)
            requires
                num == 3600 * p + 60 * q + s,
                den == 3600 * e,
                e == d0 * d1 * d2,
                q <= m * d0 * d1 * d2,
                s <= m * d0 * d1 * d2,
                p <= m * d0 * d1 * d2,
                e >= 1,
                m == 4294967295,
                MAX_WHOLE == 17179869184;
        assert(num == 3600 * n0 * d1 * d2 + 60 * n1 * d0 * d2 + n2 * d0 * d1) by (nonlinear_arith)
            requires num == 3600 * p + 60 * q + s, p == n0 * d1 * d2, q == n1 * d0 * d2, s == n2 * d0 * d1;
        assert(den == 3600 * d0 * d1 * d2) by (nonlinear_arith)
            requires den == 3600 * e, e == d0 * d1 * d2;
    }
    Ratio { num, den }
}

/// Builds the record from the values found for the six slots, in slot order.
pub fn decode_fields(values: &Vec<Option<RawValue>>) -> (r: GPSInformation)
    requires
        values@.len() == 6,
    ensures
        decodes_to(values@, r),
        r.wf(),
{
    let mut info = GPSInformation::new();
    let mut i: usize = 0;
    while i < 6
        invariant
            values@.len() == 6,
            i <= 6,
            info.wf(),
            info.observed().len() == 6,
            forall|j: int| 0 <= j < i ==> #[trigger] slot_decoded(values@[j], info, j),
            forall|j: int| i <= j < 6 ==> info.slot(j) == default_slot(j) && !info.observed()[j],
        decreases 6 - i,
    {
        let ghost prev = info;
        if let Some(v) = &values[i] {
            if let Some(f) = decode_value(v) {
                info.set_index(&i, f);
            }
        }
        proof {
            assert forall|j: int| 0 <= j < 6 && j != i implies info.slot(j) == prev.slot(j)
                && info.observed()[j] == prev.observed()[j] by {}
            assert(slot_decoded(values@[i as int], info, i as int));
            assert forall|j: int| 0 <= j < 6 implies info.slot(j).wf() by {
                if j != i {
                    assert(prev.slot(j).wf());
                }
            }
            info.lemma_wf_by_slots();
            assert forall|j: int| 0 <= j < i + 1 implies #[trigger] slot_decoded(values@[j], info, j) by {
                if j != i {
                    assert(slot_decoded(values@[j], prev, j));
                }
            }
        }
        i = i + 1;
    }
    info
}

/// The image file `data` holds metadata that the Exif reader parses.
pub uninterp spec fn exif_parses(data: Seq<u8>) -> bool;

/// The value of GPS tag `number` of the primary image in the parsed
/// metadata of `data`, where it holds that tag.
pub uninterp spec fn exif_gps_value(data: Seq<u8>, number: u16) -> Option<RawValue>;

/// The values found in `data` for the six slots, in slot order.
pub open spec fn gps_values(data: Seq<u8>) -> Seq<Option<RawValue>> {
    seq![
        exif_gps_value(data, 6),
        exif_gps_value(data, 5),
        exif_gps_value(data, 2),
        exif_gps_value(data, 1),
        exif_gps_value(data, 4),
        exif_gps_value(data, 3),
    ]
}

/// Relies on exif::Reader::read_from_container, which parses the metadata
/// of an image file held in memory, and exif::Exif::get_field, which looks
/// up GPS tag `number` of the primary image. A value is copied in the shapes
/// the decoder takes, rationals as (numerator, denominator).
#[verifier::external_body]
fn gps_value_of(data: &[u8], number: u16) -> (r: Result<Option<RawValue>, exif::Error>)
    ensures
        r is Ok <==> exif_parses(data@),
        r matches Ok(v) ==> v == exif_gps_value(data@, number),
{
    let exif = exif::Reader::new().read_from_container(&mut std::io::Cursor::new(data))?;
    Ok(exif.get_field(exif::Tag(exif::Context::Gps, number), exif::In::PRIMARY).map(|f| match &f.value {
        exif::Value::Rational(rs) => RawValue::Rational(rs.iter().map(|x| (x.num, x.denom)).collect()),
        exif::Value::Byte(bs) => RawValue::Byte(bs.clone()),
        exif::Value::Ascii(ss) => RawValue::Ascii(ss.clone()),
        _ => RawValue::Other,
    }))
}

/// Reads the six GPS tags of an image file held in memory and decodes them.
/// Fails only where the file's metadata cannot be parsed.
pub fn get_gps_information(data: &[u8]) -> (r: Result<GPSInformation, KmlError>)
    ensures
        r is Ok <==> exif_parses(data@),
        r matches Ok(info) ==> info.wf() && decodes_to(gps_values(data@), info),
        r matches Err(e) ==> e is ExifReadError,
{
    let mut values: Vec<Option<RawValue>> = Vec::new();
    let mut i: usize = 0;
    while i < 6
        invariant
            i <= 6,
            values@.len() == i,
            i > 0 ==> exif_parses(data@),
            forall|j: int| 0 <= j < i ==> values@[j] == #[trigger] gps_values(data@)[j],
        decreases 6 - i,
    {
        match gps_value_of(data, GPS_TAGS[i]) {
            Ok(v) => values.push(v),
            Err(e) => return Err(KmlError::ExifReadError(e)),
        }
        i = i + 1;
    }
    assert(values@ =~= gps_values(data@));
    let info = decode_fields(&values);
    Ok(info)
}

} // verus!
