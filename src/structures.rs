//! The GPS record decoded from one image, and the library's error type.
use vstd::prelude::*;
use crate::utils::same_text;
use crate::decimal::{Ratio, fixed_point, decimal_digits, push_fixed, push_decimal, push_char};

verus! {

/// How much diagnostic output a run produces, from none to everything.
#[derive(Debug, Copy, Clone, PartialEq, Eq, Structural, PartialOrd, Ord, Hash)]
pub enum LogLevel {
    Off,
    Error,
    Warning,
    Info,
    Debug,
    Trace,
}

impl LogLevel {
    pub open spec fn spec_label(self) -> Seq<char> {
        match self {
            LogLevel::Off => seq!['O', 'f', 'f'],
            LogLevel::Error => seq!['E', 'r', 'r', 'o', 'r'],
            LogLevel::Warning => seq!['W', 'a', 'r', 'n', 'i', 'n', 'g'],
            LogLevel::Info => seq!['I', 'n', 'f', 'o'],
            LogLevel::Debug => seq!['D', 'e', 'b', 'u', 'g'],
            LogLevel::Trace => seq!['T', 'r', 'a', 'c', 'e'],
        }
    }

    /// The level's name as it is shown to users.
    pub fn label(&self) -> (r: &'static str)
        ensures
            r@ == self.spec_label(),
    {
        match self {
            LogLevel::Off => {
                proof { reveal_strlit("Off"); }
                "Off"
            },
            LogLevel::Error => {
                proof { reveal_strlit("Error"); }
                "Error"
            },
            LogLevel::Warning => {
                proof { reveal_strlit("Warning"); }
                "Warning"
            },
            LogLevel::Info => {
                proof { reveal_strlit("Info"); }
                "Info"
            },
            LogLevel::Debug => {
                proof { reveal_strlit("Debug"); }
                "Debug"
            },
            LogLevel::Trace => {
                proof { reveal_strlit("Trace"); }
                "Trace"
            },
        }
    }
}

/// One decoded GPS value: a hemisphere letter, an exact decimal angle or
/// altitude, or a small integer such as the altitude reference.
#[derive(Debug, Clone, Copy, PartialEq, Eq, Structural)]
pub enum GPSInformationField {
    Char(char),
    Decimal(Ratio),
    Int(u8),
}

impl GPSInformationField {
    pub open spec fn wf(self) -> bool {
        match self {
            GPSInformationField::Decimal(r) => r.wf(),
            _ => true,
        }
    }

    /// The value as text, a decimal with `k` digits after the point.
    pub open spec fn text(self, k: nat) -> Seq<char> {
        match self {
            GPSInformationField::Char(c) => seq![c],
            GPSInformationField::Decimal(r) => fixed_point(r.num as nat, r.den as nat, k),
            GPSInformationField::Int(n) => decimal_digits(n as nat),
        }
    }

    /// Appends `self.text(k)` to `out`.
    pub fn push_text(&self, out: &mut String, k: u32)
        requires
            self.wf(),
            k <= 6,
        ensures
            final(out)@ == old(out)@ + self.text(k as nat),
    {
        match self {
            GPSInformationField::Char(c) => {
                push_char(out, *c);
                assert(final(out)@ =~= old(out)@ + self.text(k as nat));
            },
            GPSInformationField::Decimal(r) => push_fixed(out, r, k),
            GPSInformationField::Int(n) => push_decimal(out, *n as u128),
        }
    }
}

/// The three values a record can render.
#[derive(Debug, Clone, Copy, PartialEq, Eq, Structural)]
pub enum GpsParam {
    Altitude,
    Latitude,
    Longitude,
}

/// Slot positions: altitude, altitude reference, latitude, latitude
/// reference, longitude, longitude reference.
pub const ALTITUDE: usize = 0;
pub const ALTITUDE_REF: usize = 1;
pub const LATITUDE: usize = 2;
pub const LATITUDE_REF: usize = 3;
pub const LONGITUDE: usize = 4;
pub const LONGITUDE_REF: usize = 5;

/// The GPS values of one image, with a flag per slot that records whether
/// the slot was ever assigned.
#[derive(Debug)]
pub struct GPSInformation {
    pub altitude: GPSInformationField,
    /// 0 = above sea level, 1 = below sea level.
    pub altitude_ref: GPSInformationField,
    pub latitude: GPSInformationField,
    /// 'N' = north, 'S' = south.
    pub latitude_ref: GPSInformationField,
    pub longitude: GPSInformationField,
    /// 'E' = east, 'W' = west.
    pub longitude_ref: GPSInformationField,
    /// Whether each slot, in slot order, was ever assigned.
    pub modified: [bool; 6],
}

/// The names `get_param` accepts, and what each selects.
pub open spec fn param_named(s: Seq<char>) -> Option<GpsParam> {
    if s == seq!['a', 'l', 't'] || s == seq!['a', 'l', 't', 'i', 't', 'u', 'd', 'e'] {
        Some(GpsParam::Altitude)
    } else if s == seq!['l', 'a', 't'] || s == seq!['l', 'a', 't', 'i', 't', 'u', 'd', 'e'] {
        Some(GpsParam::Latitude)
    } else if s == seq!['l', 'o', 'n'] || s == seq!['l', 'o', 'n', 'g', 'i', 't', 'u', 'd', 'e'] {
        Some(GpsParam::Longitude)
    } else {
        None
    }
}

/// Selects the value that `name` stands for, if it names one.
pub fn param_from_name(name: &str) -> (r: Option<GpsParam>)
    ensures
        r == param_named(name@),
{
    proof {
        reveal_strlit("alt");
        reveal_strlit("altitude");
        reveal_strlit("lat");
        reveal_strlit("latitude");
        reveal_strlit("lon");
        reveal_strlit("longitude");
        assert("alt"@ =~= seq!['a', 'l', 't']);
        assert("altitude"@ =~= seq!['a', 'l', 't', 'i', 't', 'u', 'd', 'e']);
        assert("lat"@ =~= seq!['l', 'a', 't']);
        assert("latitude"@ =~= seq!['l', 'a', 't', 'i', 't', 'u', 'd', 'e']);
        assert("lon"@ =~= seq!['l', 'o', 'n']);
        assert("longitude"@ =~= seq!['l', 'o', 'n', 'g', 'i', 't', 'u', 'd', 'e']);
    }
    if same_text(name, "alt") || same_text(name, "altitude") {
        Some(GpsParam::Altitude)
    } else if same_text(name, "lat") || same_text(name, "latitude") {
        Some(GpsParam::Latitude)
    } else if same_text(name, "lon") || same_text(name, "longitude") {
        Some(GpsParam::Longitude)
    } else {
        None
    }
}

impl GPSInformation {
    /// The observed flags, one per slot in slot order.
    pub open spec fn observed(&self) -> Seq<bool> {
        self.modified@
    }

    /// The value in slot `i`.
    pub open spec fn slot(&self, i: int) -> GPSInformationField {
        if i == 0 {
            self.altitude
        } else if i == 1 {
            self.altitude_ref
        } else if i == 2 {
            self.latitude
        } else if i == 3 {
            self.latitude_ref
        } else if i == 4 {
            self.longitude
        } else {
            self.longitude_ref
        }
    }

    /// Every decimal slot is well formed.
    pub open spec fn wf(&self) -> bool {
        &&& self.altitude.wf()
        &&& self.altitude_ref.wf()
        &&& self.latitude.wf()
        &&& self.latitude_ref.wf()
        &&& self.longitude.wf()
        &&& self.longitude_ref.wf()
    }

    /// A record is well formed when each of its slots is.
    pub proof fn lemma_wf_by_slots(&self)
        requires
            forall|j: int| 0 <= j < 6 ==> #[trigger] self.slot(j).wf(),
        ensures
            self.wf(),
    {
        assert(self.slot(0).wf() && self.slot(1).wf() && self.slot(2).wf());
        assert(self.slot(3).wf() && self.slot(4).wf() && self.slot(5).wf());
    }

    /// All four slots that place the image were observed.
    pub open spec fn spec_is_valid(&self) -> bool {
        &&& self.observed()[LATITUDE as int]
        &&& self.observed()[LATITUDE_REF as int]
        &&& self.observed()[LONGITUDE as int]
        &&& self.observed()[LONGITUDE_REF as int]
    }

    /// The text `formatted` returns for `p`.
    pub open spec fn spec_formatted(&self, p: GpsParam) -> Seq<char> {
        match p {
            GpsParam::Altitude => self.altitude.text(2),
            GpsParam::Latitude => if self.latitude_ref == GPSInformationField::Char('S') {
                seq!['-'] + self.latitude.text(6)
            } else {
                self.latitude.text(6)
            },
            GpsParam::Longitude => if self.longitude_ref == GPSInformationField::Char('W') {
                seq!['-'] + self.longitude.text(6)
            } else {
                self.longitude.text(6)
            },
        }
    }

    /// A record with every slot at its zero value and nothing observed.
    pub fn new() -> (r: Self)
        ensures
            r.wf(),
            r.altitude == GPSInformationField::Decimal(Ratio { num: 0, den: 1 }),
            r.altitude_ref == GPSInformationField::Int(0),
            r.latitude == GPSInformationField::Decimal(Ratio { num: 0, den: 1 }),
            r.latitude_ref == GPSInformationField::Char('\0'),
            r.longitude == GPSInformationField::Decimal(Ratio { num: 0, den: 1 }),
            r.longitude_ref == GPSInformationField::Char('\0'),
            r.observed() == seq![false, false, false, false, false, false],
    {
        let r = GPSInformation {
            altitude: GPSInformationField::Decimal(Ratio { num: 0, den: 1 }),
            altitude_ref: GPSInformationField::Int(0),
            latitude: GPSInformationField::Decimal(Ratio { num: 0, den: 1 }),
            latitude_ref: GPSInformationField::Char('\0'),
            longitude: GPSInformationField::Decimal(Ratio { num: 0, den: 1 }),
            longitude_ref: GPSInformationField::Char('\0'),
            modified: [false, false, false, false, false, false],
        };
        assert(r.modified@ =~= seq![false, false, false, false, false, false]);
        r
    }

    /// The value in slot `*i`.
    pub fn get_index(&self, i: &usize) -> (r: &GPSInformationField)
        requires
            *i < 6,
        ensures
            *r == self.slot(*i as int),
    {
        match *i {
            0 => &self.altitude,
            1 => &self.altitude_ref,
            2 => &self.latitude,
            3 => &self.latitude_ref,
            4 => &self.longitude,
            _ => &self.longitude_ref,
        }
    }

    /// Stores `value` in slot `*i` and marks the slot observed.
    pub fn set_index(&mut self, i: &usize, value: GPSInformationField)
        requires
            *i < 6,
        ensures
            final(self).slot(*i as int) == value,
            forall|j: int| 0 <= j < 6 && j != *i ==> final(self).slot(j) == old(self).slot(j),
            final(self).observed() == old(self).observed().update(*i as int, true),
    {
        match *i {
            0 => self.altitude = value,
            1 => self.altitude_ref = value,
            2 => self.latitude = value,
            3 => self.latitude_ref = value,
            4 => self.longitude = value,
            _ => self.longitude_ref = value,
        }
        self.modified[*i] = true;
    }

    /// Whether latitude, longitude and both their references were observed.
    pub fn is_valid(&self) -> (r: bool)
        ensures
            r == self.spec_is_valid(),
    {
        self.modified[2] && self.modified[3] && self.modified[4] && self.modified[5]
    }

    /// The value `p` as text: altitude with two digits after the point,
    /// latitude and longitude with six, negative in the south and the west.
    pub fn formatted(&self, p: GpsParam) -> (r: String)
        requires
            self.wf(),
        ensures
            r@ == self.spec_formatted(p),
    {
        let mut out = String::new();
        match p {
            GpsParam::Altitude => self.altitude.push_text(&mut out, 2),
            GpsParam::Latitude => {
                if self.latitude_ref == GPSInformationField::Char('S') {
                    push_char(&mut out, '-');
                }
                self.latitude.push_text(&mut out, 6);
            },
            GpsParam::Longitude => {
                if self.longitude_ref == GPSInformationField::Char('W') {
                    push_char(&mut out, '-');
                }
                self.longitude.push_text(&mut out, 6);
            },
        }
        assert(out@ =~= self.spec_formatted(p));
        out
    }

    /// The value named by `param` ("alt", "altitude", "lat", "latitude",
    /// "lon" or "longitude") as `formatted` renders it.
    pub fn get_param(&self, param: &str) -> (r: String)
        requires
            self.wf(),
            param_named(param@) is Some,
        ensures
            r@ == self.spec_formatted(param_named(param@)->0),
    {
        match param_from_name(param) {
            Some(p) => self.formatted(p),
            None => String::new(),
        }
    }
}

/// Errors that end a run.
#[derive(Debug)]
pub enum KmlError {
    /// Reading or writing a file failed.
    IoError(std::io::Error),
    /// An image's metadata could not be parsed.
    ExifReadError(exif::Error),
    /// The document could not be serialised.
    QuickXMLError(quick_xml::Error),
}

} // verus!
