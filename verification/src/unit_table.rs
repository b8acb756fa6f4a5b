//! The unit table: linear units with their dimension and exact factor to the
//! SI base unit of that dimension, and the four temperature units.
//!
//! Unit names are case sensitive (`mB` and `MB` differ). Temperatures (C, F, K,
//! R) are converted by an affine map and are not in the linear table.

use vstd::prelude::*;
use crate::text::str_eq;

verus! {

/// The eight physical dimensions.
#[derive(Debug, Clone, Copy, PartialEq, Eq, Hash, Structural)]
pub enum Dimension {
    Length,
    Mass,
    Temperature,
    Volume,
    Area,
    Speed,
    Data,
    Time,
}

/// The name of a dimension as it is printed in messages.
pub open spec fn spec_dimension_name(d: Dimension) -> Seq<char> {
    match d {
        Dimension::Length => "Length"@,
        Dimension::Mass => "Mass"@,
        Dimension::Temperature => "Temperature"@,
        Dimension::Volume => "Volume"@,
        Dimension::Area => "Area"@,
        Dimension::Speed => "Speed"@,
        Dimension::Data => "Data"@,
        Dimension::Time => "Time"@,
    }
}

/// The name of a dimension as it is printed in messages (`Length`, `Mass`, ...).
pub fn dimension_name(d: Dimension) -> (s: &'static str)
    ensures
        s@ == spec_dimension_name(d),
{
    match d {
        Dimension::Length => "Length",
        Dimension::Mass => "Mass",
        Dimension::Temperature => "Temperature",
        Dimension::Volume => "Volume",
        Dimension::Area => "Area",
        Dimension::Speed => "Speed",
        Dimension::Data => "Data",
        Dimension::Time => "Time",
    }
}

/// One linear unit: its name, dimension, and its factor to the SI base unit
/// as the exact fraction `num / den`.
#[derive(Debug, Clone, Copy)]
pub struct UnitEntry {
    pub name: &'static str,
    pub dim: Dimension,
    pub num: u64,
    pub den: u64,
}

/// The abstract content of a unit entry.
pub open spec fn entry_view(e: UnitEntry) -> (Seq<char>, Dimension, nat, nat) {
    (e.name@, e.dim, e.num as nat, e.den as nat)
}

/// The number of linear units in the table.
pub const LINEAR_UNIT_COUNT: usize = 120;

/// The linear unit at position `i` of the table.
pub open spec fn unit_at(i: int) -> (Seq<char>, Dimension, nat, nat) {
    if i == 0 {
        ("m"@, Dimension::Length, 1nat, 1nat)
    } else if i == 1 {
        ("meter"@, Dimension::Length, 1nat, 1nat)
    } else if i == 2 {
        ("metre"@, Dimension::Length, 1nat, 1nat)
    } else if i == 3 {
        ("km"@, Dimension::Length, 1000nat, 1nat)
    } else if i == 4 {
        ("kilometer"@, Dimension::Length, 1000nat, 1nat)
    } else if i == 5 {
        ("kilometre"@, Dimension::Length, 1000nat, 1nat)
    } else if i == 6 {
        ("cm"@, Dimension::Length, 1nat, 100nat)
    } else if i == 7 {
        ("centimeter"@, Dimension::Length, 1nat, 100nat)
    } else if i == 8 {
        ("mm"@, Dimension::Length, 1nat, 1000nat)
    } else if i == 9 {
        ("millimeter"@, Dimension::Length, 1nat, 1000nat)
    } else if i == 10 {
        ("dm"@, Dimension::Length, 1nat, 10nat)
    } else if i == 11 {
        ("decimeter"@, Dimension::Length, 1nat, 10nat)
    } else if i == 12 {
        ("in"@, Dimension::Length, 254nat, 10000nat)
    } else if i == 13 {
        ("inch"@, Dimension::Length, 254nat, 10000nat)
    } else if i == 14 {
        ("ft"@, Dimension::Length, 3048nat, 10000nat)
    } else if i == 15 {
        ("foot"@, Dimension::Length, 3048nat, 10000nat)
    } else if i == 16 {
        ("yd"@, Dimension::Length, 9144nat, 10000nat)
    } else if i == 17 {
        ("yard"@, Dimension::Length, 9144nat, 10000nat)
    } else if i == 18 {
        ("mi"@, Dimension::Length, 1609344nat, 1000nat)
    } else if i == 19 {
        ("mile"@, Dimension::Length, 1609344nat, 1000nat)
    } else if i == 20 {
        ("nmi"@, Dimension::Length, 1852nat, 1nat)
    } else if i == 21 {
        ("nautical_mile"@, Dimension::Length, 1852nat, 1nat)
    } else if i == 22 {
        ("kg"@, Dimension::Mass, 1nat, 1nat)
    } else if i == 23 {
        ("kilogram"@, Dimension::Mass, 1nat, 1nat)
    } else if i == 24 {
        ("g"@, Dimension::Mass, 1nat, 1000nat)
    } else if i == 25 {
        ("gram"@, Dimension::Mass, 1nat, 1000nat)
    } else if i == 26 {
        ("mg"@, Dimension::Mass, 1nat, 1000000nat)
    } else if i == 27 {
        ("milligram"@, Dimension::Mass, 1nat, 1000000nat)
    } else if i == 28 {
        ("t"@, Dimension::Mass, 1000nat, 1nat)
    } else if i == 29 {
        ("ton"@, Dimension::Mass, 1000nat, 1nat)
    } else if i == 30 {
        ("tonne"@, Dimension::Mass, 1000nat, 1nat)
    } else if i == 31 {
        ("lb"@, Dimension::Mass, 45359237nat, 100000000nat)
    } else if i == 32 {
        ("lbs"@, Dimension::Mass, 45359237nat, 100000000nat)
    } else if i == 33 {
        ("pound"@, Dimension::Mass, 45359237nat, 100000000nat)
    } else if i == 34 {
        ("oz"@, Dimension::Mass, 28349523125nat, 1000000000000nat)
    } else if i == 35 {
        ("ounce"@, Dimension::Mass, 28349523125nat, 1000000000000nat)
    } else if i == 36 {
        ("stone"@, Dimension::Mass, 635029318nat, 100000000nat)
    } else if i == 37 {
        ("m3"@, Dimension::Volume, 1nat, 1nat)
    } else if i == 38 {
        ("cubic_meter"@, Dimension::Volume, 1nat, 1nat)
    } else if i == 39 {
        ("L"@, Dimension::Volume, 1nat, 1000nat)
    } else if i == 40 {
        ("l"@, Dimension::Volume, 1nat, 1000nat)
    } else if i == 41 {
        ("liter"@, Dimension::Volume, 1nat, 1000nat)
    } else if i == 42 {
        ("litre"@, Dimension::Volume, 1nat, 1000nat)
    } else if i == 43 {
        ("mL"@, Dimension::Volume, 1nat, 1000000nat)
    } else if i == 44 {
        ("ml"@, Dimension::Volume, 1nat, 1000000nat)
    } else if i == 45 {
        ("milliliter"@, Dimension::Volume, 1nat, 1000000nat)
    } else if i == 46 {
        ("gal"@, Dimension::Volume, 3785411784nat, 1000000000000nat)
    } else if i == 47 {
        ("gallon"@, Dimension::Volume, 3785411784nat, 1000000000000nat)
    } else if i == 48 {
        ("qt"@, Dimension::Volume, 946352946nat, 1000000000000nat)
    } else if i == 49 {
        ("quart"@, Dimension::Volume, 946352946nat, 1000000000000nat)
    } else if i == 50 {
        ("pt"@, Dimension::Volume, 473176473nat, 1000000000000nat)
    } else if i == 51 {
        ("pint"@, Dimension::Volume, 473176473nat, 1000000000000nat)
    } else if i == 52 {
        ("ft3"@, Dimension::Volume, 28316846592nat, 1000000000000nat)
    } else if i == 53 {
        ("cubic_foot"@, Dimension::Volume, 28316846592nat, 1000000000000nat)
    } else if i == 54 {
        ("m2"@, Dimension::Area, 1nat, 1nat)
    } else if i == 55 {
        ("sq_m"@, Dimension::Area, 1nat, 1nat)
    } else if i == 56 {
        ("square_meter"@, Dimension::Area, 1nat, 1nat)
    } else if i == 57 {
        ("km2"@, Dimension::Area, 1000000nat, 1nat)
    } else if i == 58 {
        ("square_kilometer"@, Dimension::Area, 1000000nat, 1nat)
    } else if i == 59 {
        ("cm2"@, Dimension::Area, 1nat, 10000nat)
    } else if i == 60 {
        ("square_centimeter"@, Dimension::Area, 1nat, 10000nat)
    } else if i == 61 {
        ("mm2"@, Dimension::Area, 1nat, 1000000nat)
    } else if i == 62 {
        ("square_millimeter"@, Dimension::Area, 1nat, 1000000nat)
    } else if i == 63 {
        ("ha"@, Dimension::Area, 10000nat, 1nat)
    } else if i == 64 {
        ("hectare"@, Dimension::Area, 10000nat, 1nat)
    } else if i == 65 {
        ("acre"@, Dimension::Area, 40468564224nat, 10000000nat)
    } else if i == 66 {
        ("ft2"@, Dimension::Area, 9290304nat, 100000000nat)
    } else if i == 67 {
        ("square_foot"@, Dimension::Area, 9290304nat, 100000000nat)
    } else if i == 68 {
        ("in2"@, Dimension::Area, 64516nat, 100000000nat)
    } else if i == 69 {
        ("square_inch"@, Dimension::Area, 64516nat, 100000000nat)
    } else if i == 70 {
        ("m/s"@, Dimension::Speed, 1nat, 1nat)
    } else if i == 71 {
        ("mps"@, Dimension::Speed, 1nat, 1nat)
    } else if i == 72 {
        ("km/h"@, Dimension::Speed, 1000nat, 3600nat)
    } else if i == 73 {
        ("kmh"@, Dimension::Speed, 1000nat, 3600nat)
    } else if i == 74 {
        ("kph"@, Dimension::Speed, 1000nat, 3600nat)
    } else if i == 75 {
        ("mph"@, Dimension::Speed, 1609344nat, 3600000nat)
    } else if i == 76 {
        ("knot"@, Dimension::Speed, 1852nat, 3600nat)
    } else if i == 77 {
        ("kn"@, Dimension::Speed, 1852nat, 3600nat)
    } else if i == 78 {
        ("ft/s"@, Dimension::Speed, 3048nat, 10000nat)
    } else if i == 79 {
        ("fps"@, Dimension::Speed, 3048nat, 10000nat)
    } else if i == 80 {
        ("B"@, Dimension::Data, 1nat, 1nat)
    } else if i == 81 {
        ("byte"@, Dimension::Data, 1nat, 1nat)
    } else if i == 82 {
        ("KB"@, Dimension::Data, 1000nat, 1nat)
    } else if i == 83 {
        ("MB"@, Dimension::Data, 1000000nat, 1nat)
    } else if i == 84 {
        ("GB"@, Dimension::Data, 1000000000nat, 1nat)
    } else if i == 85 {
        ("TB"@, Dimension::Data, 1000000000000nat, 1nat)
    } else if i == 86 {
        ("PB"@, Dimension::Data, 1000000000000000nat, 1nat)
    } else if i == 87 {
        ("kilobyte"@, Dimension::Data, 1000nat, 1nat)
    } else if i == 88 {
        ("megabyte"@, Dimension::Data, 1000000nat, 1nat)
    } else if i == 89 {
        ("gigabyte"@, Dimension::Data, 1000000000nat, 1nat)
    } else if i == 90 {
        ("terabyte"@, Dimension::Data, 1000000000000nat, 1nat)
    } else if i == 91 {
        ("KiB"@, Dimension::Data, 1024nat, 1nat)
    } else if i == 92 {
        ("MiB"@, Dimension::Data, 1048576nat, 1nat)
    } else if i == 93 {
        ("GiB"@, Dimension::Data, 1073741824nat, 1nat)
    } else if i == 94 {
        ("TiB"@, Dimension::Data, 1099511627776nat, 1nat)
    } else if i == 95 {
        ("PiB"@, Dimension::Data, 1125899906842624nat, 1nat)
    } else if i == 96 {
        ("kibibyte"@, Dimension::Data, 1024nat, 1nat)
    } else if i == 97 {
        ("mebibyte"@, Dimension::Data, 1048576nat, 1nat)
    } else if i == 98 {
        ("gibibyte"@, Dimension::Data, 1073741824nat, 1nat)
    } else if i == 99 {
        ("s"@, Dimension::Time, 1nat, 1nat)
    } else if i == 100 {
        ("sec"@, Dimension::Time, 1nat, 1nat)
    } else if i == 101 {
        ("second"@, Dimension::Time, 1nat, 1nat)
    } else if i == 102 {
        ("ms"@, Dimension::Time, 1nat, 1000nat)
    } else if i == 103 {
        ("millisecond"@, Dimension::Time, 1nat, 1000nat)
    } else if i == 104 {
        ("us"@, Dimension::Time, 1nat, 1000000nat)
    } else if i == 105 {
        ("microsecond"@, Dimension::Time, 1nat, 1000000nat)
    } else if i == 106 {
        ("ns"@, Dimension::Time, 1nat, 1000000000nat)
    } else if i == 107 {
        ("nanosecond"@, Dimension::Time, 1nat, 1000000000nat)
    } else if i == 108 {
        ("min"@, Dimension::Time, 60nat, 1nat)
    } else if i == 109 {
        ("minute"@, Dimension::Time, 60nat, 1nat)
    } else if i == 110 {
        ("h"@, Dimension::Time, 3600nat, 1nat)
    } else if i == 111 {
        ("hr"@, Dimension::Time, 3600nat, 1nat)
    } else if i == 112 {
        ("hour"@, Dimension::Time, 3600nat, 1nat)
    } else if i == 113 {
        ("day"@, Dimension::Time, 86400nat, 1nat)
    } else if i == 114 {
        ("d"@, Dimension::Time, 86400nat, 1nat)
    } else if i == 115 {
        ("week"@, Dimension::Time, 604800nat, 1nat)
    } else if i == 116 {
        ("wk"@, Dimension::Time, 604800nat, 1nat)
    } else if i == 117 {
        ("month"@, Dimension::Time, 2629800nat, 1nat)
    } else if i == 118 {
        ("year"@, Dimension::Time, 31557600nat, 1nat)
    } else if i == 119 {
        ("yr"@, Dimension::Time, 31557600nat, 1nat)
    } else {
        ("yr"@, Dimension::Time, 31557600nat, 1nat)
    }
}

/// The linear unit table, in lookup order.
pub open spec fn spec_linear_units() -> Seq<(Seq<char>, Dimension, nat, nat)> {
    Seq::new(LINEAR_UNIT_COUNT as nat, |i: int| unit_at(i))
}

/// The linear unit at position `i` of the table.
pub fn unit_entry(i: usize) -> (e: UnitEntry)
    requires
        i < LINEAR_UNIT_COUNT,
    ensures
        entry_view(e) == unit_at(i as int),
{
    match i {
        0 => UnitEntry { name: "m", dim: Dimension::Length, num: 1, den: 1 },
        1 => UnitEntry { name: "meter", dim: Dimension::Length, num: 1, den: 1 },
        2 => UnitEntry { name: "metre", dim: Dimension::Length, num: 1, den: 1 },
        3 => UnitEntry { name: "km", dim: Dimension::Length, num: 1000, den: 1 },
        4 => UnitEntry { name: "kilometer", dim: Dimension::Length, num: 1000, den: 1 },
        5 => UnitEntry { name: "kilometre", dim: Dimension::Length, num: 1000, den: 1 },
        6 => UnitEntry { name: "cm", dim: Dimension::Length, num: 1, den: 100 },
        7 => UnitEntry { name: "centimeter", dim: Dimension::Length, num: 1, den: 100 },
        8 => UnitEntry { name: "mm", dim: Dimension::Length, num: 1, den: 1000 },
        9 => UnitEntry { name: "millimeter", dim: Dimension::Length, num: 1, den: 1000 },
        10 => UnitEntry { name: "dm", dim: Dimension::Length, num: 1, den: 10 },
        11 => UnitEntry { name: "decimeter", dim: Dimension::Length, num: 1, den: 10 },
        12 => UnitEntry { name: "in", dim: Dimension::Length, num: 254, den: 10000 },
        13 => UnitEntry { name: "inch", dim: Dimension::Length, num: 254, den: 10000 },
        14 => UnitEntry { name: "ft", dim: Dimension::Length, num: 3048, den: 10000 },
        15 => UnitEntry { name: "foot", dim: Dimension::Length, num: 3048, den: 10000 },
        16 => UnitEntry { name: "yd", dim: Dimension::Length, num: 9144, den: 10000 },
        17 => UnitEntry { name: "yard", dim: Dimension::Length, num: 9144, den: 10000 },
        18 => UnitEntry { name: "mi", dim: Dimension::Length, num: 1609344, den: 1000 },
        19 => UnitEntry { name: "mile", dim: Dimension::Length, num: 1609344, den: 1000 },
        20 => UnitEntry { name: "nmi", dim: Dimension::Length, num: 1852, den: 1 },
        21 => UnitEntry { name: "nautical_mile", dim: Dimension::Length, num: 1852, den: 1 },
        22 => UnitEntry { name: "kg", dim: Dimension::Mass, num: 1, den: 1 },
        23 => UnitEntry { name: "kilogram", dim: Dimension::Mass, num: 1, den: 1 },
        24 => UnitEntry { name: "g", dim: Dimension::Mass, num: 1, den: 1000 },
        25 => UnitEntry { name: "gram", dim: Dimension::Mass, num: 1, den: 1000 },
        26 => UnitEntry { name: "mg", dim: Dimension::Mass, num: 1, den: 1000000 },
        27 => UnitEntry { name: "milligram", dim: Dimension::Mass, num: 1, den: 1000000 },
        28 => UnitEntry { name: "t", dim: Dimension::Mass, num: 1000, den: 1 },
        29 => UnitEntry { name: "ton", dim: Dimension::Mass, num: 1000, den: 1 },
        30 => UnitEntry { name: "tonne", dim: Dimension::Mass, num: 1000, den: 1 },
        31 => UnitEntry { name: "lb", dim: Dimension::Mass, num: 45359237, den: 100000000 },
        32 => UnitEntry { name: "lbs", dim: Dimension::Mass, num: 45359237, den: 100000000 },
        33 => UnitEntry { name: "pound", dim: Dimension::Mass, num: 45359237, den: 100000000 },
        34 => UnitEntry { name: "oz", dim: Dimension::Mass, num: 28349523125, den: 1000000000000 },
        35 => UnitEntry { name: "ounce", dim: Dimension::Mass, num: 28349523125, den: 1000000000000 },
        36 => UnitEntry { name: "stone", dim: Dimension::Mass, num: 635029318, den: 100000000 },
        37 => UnitEntry { name: "m3", dim: Dimension::Volume, num: 1, den: 1 },
        38 => UnitEntry { name: "cubic_meter", dim: Dimension::Volume, num: 1, den: 1 },
        39 => UnitEntry { name: "L", dim: Dimension::Volume, num: 1, den: 1000 },
        40 => UnitEntry { name: "l", dim: Dimension::Volume, num: 1, den: 1000 },
        41 => UnitEntry { name: "liter", dim: Dimension::Volume, num: 1, den: 1000 },
        42 => UnitEntry { name: "litre", dim: Dimension::Volume, num: 1, den: 1000 },
        43 => UnitEntry { name: "mL", dim: Dimension::Volume, num: 1, den: 1000000 },
        44 => UnitEntry { name: "ml", dim: Dimension::Volume, num: 1, den: 1000000 },
        45 => UnitEntry { name: "milliliter", dim: Dimension::Volume, num: 1, den: 1000000 },
        46 => UnitEntry { name: "gal", dim: Dimension::Volume, num: 3785411784, den: 1000000000000 },
        47 => UnitEntry { name: "gallon", dim: Dimension::Volume, num: 3785411784, den: 1000000000000 },
        48 => UnitEntry { name: "qt", dim: Dimension::Volume, num: 946352946, den: 1000000000000 },
        49 => UnitEntry { name: "quart", dim: Dimension::Volume, num: 946352946, den: 1000000000000 },
        50 => UnitEntry { name: "pt", dim: Dimension::Volume, num: 473176473, den: 1000000000000 },
        51 => UnitEntry { name: "pint", dim: Dimension::Volume, num: 473176473, den: 1000000000000 },
        52 => UnitEntry { name: "ft3", dim: Dimension::Volume, num: 28316846592, den: 1000000000000 },
        53 => UnitEntry { name: "cubic_foot", dim: Dimension::Volume, num: 28316846592, den: 1000000000000 },
        54 => UnitEntry { name: "m2", dim: Dimension::Area, num: 1, den: 1 },
        55 => UnitEntry { name: "sq_m", dim: Dimension::Area, num: 1, den: 1 },
        56 => UnitEntry { name: "square_meter", dim: Dimension::Area, num: 1, den: 1 },
        57 => UnitEntry { name: "km2", dim: Dimension::Area, num: 1000000, den: 1 },
        58 => UnitEntry { name: "square_kilometer", dim: Dimension::Area, num: 1000000, den: 1 },
        59 => UnitEntry { name: "cm2", dim: Dimension::Area, num: 1, den: 10000 },
        60 => UnitEntry { name: "square_centimeter", dim: Dimension::Area, num: 1, den: 10000 },
        61 => UnitEntry { name: "mm2", dim: Dimension::Area, num: 1, den: 1000000 },
        62 => UnitEntry { name: "square_millimeter", dim: Dimension::Area, num: 1, den: 1000000 },
        63 => UnitEntry { name: "ha", dim: Dimension::Area, num: 10000, den: 1 },
        64 => UnitEntry { name: "hectare", dim: Dimension::Area, num: 10000, den: 1 },
        65 => UnitEntry { name: "acre", dim: Dimension::Area, num: 40468564224, den: 10000000 },
        66 => UnitEntry { name: "ft2", dim: Dimension::Area, num: 9290304, den: 100000000 },
        67 => UnitEntry { name: "square_foot", dim: Dimension::Area, num: 9290304, den: 100000000 },
        68 => UnitEntry { name: "in2", dim: Dimension::Area, num: 64516, den: 100000000 },
        69 => UnitEntry { name: "square_inch", dim: Dimension::Area, num: 64516, den: 100000000 },
        70 => UnitEntry { name: "m/s", dim: Dimension::Speed, num: 1, den: 1 },
        71 => UnitEntry { name: "mps", dim: Dimension::Speed, num: 1, den: 1 },
        72 => UnitEntry { name: "km/h", dim: Dimension::Speed, num: 1000, den: 3600 },
        73 => UnitEntry { name: "kmh", dim: Dimension::Speed, num: 1000, den: 3600 },
        74 => UnitEntry { name: "kph", dim: Dimension::Speed, num: 1000, den: 3600 },
        75 => UnitEntry { name: "mph", dim: Dimension::Speed, num: 1609344, den: 3600000 },
        76 => UnitEntry { name: "knot", dim: Dimension::Speed, num: 1852, den: 3600 },
        77 => UnitEntry { name: "kn", dim: Dimension::Speed, num: 1852, den: 3600 },
        78 => UnitEntry { name: "ft/s", dim: Dimension::Speed, num: 3048, den: 10000 },
        79 => UnitEntry { name: "fps", dim: Dimension::Speed, num: 3048, den: 10000 },
        80 => UnitEntry { name: "B", dim: Dimension::Data, num: 1, den: 1 },
        81 => UnitEntry { name: "byte", dim: Dimension::Data, num: 1, den: 1 },
        82 => UnitEntry { name: "KB", dim: Dimension::Data, num: 1000, den: 1 },
        83 => UnitEntry { name: "MB", dim: Dimension::Data, num: 1000000, den: 1 },
        84 => UnitEntry { name: "GB", dim: Dimension::Data, num: 1000000000, den: 1 },
        85 => UnitEntry { name: "TB", dim: Dimension::Data, num: 1000000000000, den: 1 },
        86 => UnitEntry { name: "PB", dim: Dimension::Data, num: 1000000000000000, den: 1 },
        87 => UnitEntry { name: "kilobyte", dim: Dimension::Data, num: 1000, den: 1 },
        88 => UnitEntry { name: "megabyte", dim: Dimension::Data, num: 1000000, den: 1 },
        89 => UnitEntry { name: "gigabyte", dim: Dimension::Data, num: 1000000000, den: 1 },
        90 => UnitEntry { name: "terabyte", dim: Dimension::Data, num: 1000000000000, den: 1 },
        91 => UnitEntry { name: "KiB", dim: Dimension::Data, num: 1024, den: 1 },
        92 => UnitEntry { name: "MiB", dim: Dimension::Data, num: 1048576, den: 1 },
        93 => UnitEntry { name: "GiB", dim: Dimension::Data, num: 1073741824, den: 1 },
        94 => UnitEntry { name: "TiB", dim: Dimension::Data, num: 1099511627776, den: 1 },
        95 => UnitEntry { name: "PiB", dim: Dimension::Data, num: 1125899906842624, den: 1 },
        96 => UnitEntry { name: "kibibyte", dim: Dimension::Data, num: 1024, den: 1 },
        97 => UnitEntry { name: "mebibyte", dim: Dimension::Data, num: 1048576, den: 1 },
        98 => UnitEntry { name: "gibibyte", dim: Dimension::Data, num: 1073741824, den: 1 },
        99 => UnitEntry { name: "s", dim: Dimension::Time, num: 1, den: 1 },
        100 => UnitEntry { name: "sec", dim: Dimension::Time, num: 1, den: 1 },
        101 => UnitEntry { name: "second", dim: Dimension::Time, num: 1, den: 1 },
        102 => UnitEntry { name: "ms", dim: Dimension::Time, num: 1, den: 1000 },
        103 => UnitEntry { name: "millisecond", dim: Dimension::Time, num: 1, den: 1000 },
        104 => UnitEntry { name: "us", dim: Dimension::Time, num: 1, den: 1000000 },
        105 => UnitEntry { name: "microsecond", dim: Dimension::Time, num: 1, den: 1000000 },
        106 => UnitEntry { name: "ns", dim: Dimension::Time, num: 1, den: 1000000000 },
        107 => UnitEntry { name: "nanosecond", dim: Dimension::Time, num: 1, den: 1000000000 },
        108 => UnitEntry { name: "min", dim: Dimension::Time, num: 60, den: 1 },
        109 => UnitEntry { name: "minute", dim: Dimension::Time, num: 60, den: 1 },
        110 => UnitEntry { name: "h", dim: Dimension::Time, num: 3600, den: 1 },
        111 => UnitEntry { name: "hr", dim: Dimension::Time, num: 3600, den: 1 },
        112 => UnitEntry { name: "hour", dim: Dimension::Time, num: 3600, den: 1 },
        113 => UnitEntry { name: "day", dim: Dimension::Time, num: 86400, den: 1 },
        114 => UnitEntry { name: "d", dim: Dimension::Time, num: 86400, den: 1 },
        115 => UnitEntry { name: "week", dim: Dimension::Time, num: 604800, den: 1 },
        116 => UnitEntry { name: "wk", dim: Dimension::Time, num: 604800, den: 1 },
        117 => UnitEntry { name: "month", dim: Dimension::Time, num: 2629800, den: 1 },
        118 => UnitEntry { name: "year", dim: Dimension::Time, num: 31557600, den: 1 },
        119 => UnitEntry { name: "yr", dim: Dimension::Time, num: 31557600, den: 1 },
        _ => UnitEntry { name: "yr", dim: Dimension::Time, num: 31557600, den: 1 },
    }
}

/// The unit at position `i` of the table is named `name`.
pub open spec fn named(name: Seq<char>, i: int) -> bool {
    0 <= i < LINEAR_UNIT_COUNT && unit_at(i).0 == name
}

/// The factor of the unit at position `i` is `p / q` times that of the unit
/// at position `j`, of the same dimension.
pub open spec fn scaled(a: Seq<char>, i: int, b: Seq<char>, j: int, p: nat, q: nat) -> bool {
    &&& named(a, i)
    &&& named(b, j)
    &&& unit_at(i).1 == unit_at(j).1
    &&& unit_at(i).2 * unit_at(j).3 * q == p * unit_at(j).2 * unit_at(i).3
}

/// Two names of one unit: the same dimension and the same factor.
pub open spec fn same_unit(a: Seq<char>, i: int, b: Seq<char>, j: int) -> bool {
    scaled(a, i, b, j, 1, 1)
}

/// The SI unit of its dimension: factor one.
pub open spec fn is_base(a: Seq<char>, i: int) -> bool {
    named(a, i) && unit_at(i).2 == unit_at(i).3
}

/// An area unit that is the square of the length unit at `j`.
pub open spec fn squared(a: Seq<char>, i: int, b: Seq<char>, j: int) -> bool {
    &&& named(a, i)
    &&& named(b, j)
    &&& unit_at(i).1 == Dimension::Area
    &&& unit_at(j).1 == Dimension::Length
    &&& unit_at(i).2 * (unit_at(j).3 * unit_at(j).3) == (unit_at(j).2 * unit_at(j).2) * unit_at(i).3
}

/// A volume unit that is `p` times the cube of the length unit at `j`.
pub open spec fn cubed(a: Seq<char>, i: int, b: Seq<char>, j: int, p: nat) -> bool {
    &&& named(a, i)
    &&& named(b, j)
    &&& unit_at(i).1 == Dimension::Volume
    &&& unit_at(j).1 == Dimension::Length
    &&& unit_at(i).2 * (unit_at(j).3 * unit_at(j).3 * unit_at(j).3)
        == p * (unit_at(j).2 * unit_at(j).2 * unit_at(j).2) * unit_at(i).3
}

/// A speed unit that is the length unit at `j` per the time unit at `l`.
pub open spec fn per_time(a: Seq<char>, i: int, b: Seq<char>, j: int, c: Seq<char>, l: int) -> bool {
    &&& named(a, i)
    &&& named(b, j)
    &&& named(c, l)
    &&& unit_at(i).1 == Dimension::Speed
    &&& unit_at(j).1 == Dimension::Length
    &&& unit_at(l).1 == Dimension::Time
    &&& unit_at(i).2 * unit_at(j).3 * unit_at(l).2 == unit_at(j).2 * unit_at(l).3 * unit_at(i).3
}

/// The length units of the table agree with their definitions: the metre is the base unit; metric multiples; the international inch is 25.4 mm; 12 inches make a foot, 3 feet a yard, 1760 yards a mile; the nautical mile is 1852 m.
/// Every name of a unit carries the same factor.
pub proof fn lemma_length_units_match_definitions()
    ensures
        is_base("m"@, 0),
        same_unit("meter"@, 1, "m"@, 0),
        same_unit("metre"@, 2, "m"@, 0),
        scaled("km"@, 3, "m"@, 0, 1000, 1),
        same_unit("kilometer"@, 4, "km"@, 3),
        same_unit("kilometre"@, 5, "km"@, 3),
        scaled("cm"@, 6, "m"@, 0, 1, 100),
        same_unit("centimeter"@, 7, "cm"@, 6),
        scaled("mm"@, 8, "m"@, 0, 1, 1000),
        same_unit("millimeter"@, 9, "mm"@, 8),
        scaled("dm"@, 10, "m"@, 0, 1, 10),
        same_unit("decimeter"@, 11, "dm"@, 10),
        scaled("in"@, 12, "mm"@, 8, 254, 10),
        same_unit("inch"@, 13, "in"@, 12),
        scaled("ft"@, 14, "in"@, 12, 12, 1),
        same_unit("foot"@, 15, "ft"@, 14),
        scaled("yd"@, 16, "ft"@, 14, 3, 1),
        same_unit("yard"@, 17, "yd"@, 16),
        scaled("mi"@, 18, "yd"@, 16, 1760, 1),
        same_unit("mile"@, 19, "mi"@, 18),
        scaled("nmi"@, 20, "m"@, 0, 1852, 1),
        same_unit("nautical_mile"@, 21, "nmi"@, 20),
{
    assert(unit_at(0) == ("m"@, Dimension::Length, 1nat, 1nat));
    assert(same_unit("meter"@, 1, "m"@, 0)) by (nonlinear_arith)
        requires
            unit_at(0) == ("m"@, Dimension::Length, 1nat, 1nat),
            unit_at(1) == ("meter"@, Dimension::Length, 1nat, 1nat),
    {
    }
    assert(same_unit("metre"@, 2, "m"@, 0)) by (nonlinear_arith)
        requires
            unit_at(0) == ("m"@, Dimension::Length, 1nat, 1nat),
            unit_at(2) == ("metre"@, Dimension::Length, 1nat, 1nat),
    {
    }
    assert(scaled("km"@, 3, "m"@, 0, 1000, 1)) by (nonlinear_arith)
        requires
            unit_at(0) == ("m"@, Dimension::Length, 1nat, 1nat),
            unit_at(3) == ("km"@, Dimension::Length, 1000nat, 1nat),
    {
    }
    assert(same_unit("kilometer"@, 4, "km"@, 3)) by (nonlinear_arith)
        requires
            unit_at(3) == ("km"@, Dimension::Length, 1000nat, 1nat),
            unit_at(4) == ("kilometer"@, Dimension::Length, 1000nat, 1nat),
    {
    }
    assert(same_unit("kilometre"@, 5, "km"@, 3)) by (nonlinear_arith)
        requires
            unit_at(3) == ("km"@, Dimension::Length, 1000nat, 1nat),
            unit_at(5) == ("kilometre"@, Dimension::Length, 1000nat, 1nat),
    {
    }
    assert(scaled("cm"@, 6, "m"@, 0, 1, 100)) by (nonlinear_arith)
        requires
            unit_at(0) == ("m"@, Dimension::Length, 1nat, 1nat),
            unit_at(6) == ("cm"@, Dimension::Length, 1nat, 100nat),
    {
    }
    assert(same_unit("centimeter"@, 7, "cm"@, 6)) by (nonlinear_arith)
        requires
            unit_at(6) == ("cm"@, Dimension::Length, 1nat, 100nat),
            unit_at(7) == ("centimeter"@, Dimension::Length, 1nat, 100nat),
    {
    }
    assert(scaled("mm"@, 8, "m"@, 0, 1, 1000)) by (nonlinear_arith)
        requires
            unit_at(0) == ("m"@, Dimension::Length, 1nat, 1nat),
            unit_at(8) == ("mm"@, Dimension::Length, 1nat, 1000nat),
    {
    }
    assert(same_unit("millimeter"@, 9, "mm"@, 8)) by (nonlinear_arith)
        requires
            unit_at(8) == ("mm"@, Dimension::Length, 1nat, 1000nat),
            unit_at(9) == ("millimeter"@, Dimension::Length, 1nat, 1000nat),
    {
    }
    assert(scaled("dm"@, 10, "m"@, 0, 1, 10)) by (nonlinear_arith)
        requires
            unit_at(0) == ("m"@, Dimension::Length, 1nat, 1nat),
            unit_at(10) == ("dm"@, Dimension::Length, 1nat, 10nat),
    {
    }
    assert(same_unit("decimeter"@, 11, "dm"@, 10)) by (nonlinear_arith)
        requires
            unit_at(10) == ("dm"@, Dimension::Length, 1nat, 10nat),
            unit_at(11) == ("decimeter"@, Dimension::Length, 1nat, 10nat),
    {
    }
    assert(scaled("in"@, 12, "mm"@, 8, 254, 10)) by (nonlinear_arith)
        requires
            unit_at(8) == ("mm"@, Dimension::Length, 1nat, 1000nat),
            unit_at(12) == ("in"@, Dimension::Length, 254nat, 10000nat),
    {
    }
    assert(same_unit("inch"@, 13, "in"@, 12)) by (nonlinear_arith)
        requires
            unit_at(12) == ("in"@, Dimension::Length, 254nat, 10000nat),
            unit_at(13) == ("inch"@, Dimension::Length, 254nat, 10000nat),
    {
    }
    assert(scaled("ft"@, 14, "in"@, 12, 12, 1)) by (nonlinear_arith)
        requires
            unit_at(12) == ("in"@, Dimension::Length, 254nat, 10000nat),
            unit_at(14) == ("ft"@, Dimension::Length, 3048nat, 10000nat),
    {
    }
    assert(same_unit("foot"@, 15, "ft"@, 14)) by (nonlinear_arith)
        requires
            unit_at(14) == ("ft"@, Dimension::Length, 3048nat, 10000nat),
            unit_at(15) == ("foot"@, Dimension::Length, 3048nat, 10000nat),
    {
    }
    assert(scaled("yd"@, 16, "ft"@, 14, 3, 1)) by (nonlinear_arith)
        requires
            unit_at(14) == ("ft"@, Dimension::Length, 3048nat, 10000nat),
            unit_at(16) == ("yd"@, Dimension::Length, 9144nat, 10000nat),
    {
    }
    assert(same_unit("yard"@, 17, "yd"@, 16)) by (nonlinear_arith)
        requires
            unit_at(16) == ("yd"@, Dimension::Length, 9144nat, 10000nat),
            unit_at(17) == ("yard"@, Dimension::Length, 9144nat, 10000nat),
    {
    }
    assert(scaled("mi"@, 18, "yd"@, 16, 1760, 1)) by (nonlinear_arith)
        requires
            unit_at(16) == ("yd"@, Dimension::Length, 9144nat, 10000nat),
            unit_at(18) == ("mi"@, Dimension::Length, 1609344nat, 1000nat),
    {
    }
    assert(same_unit("mile"@, 19, "mi"@, 18)) by (nonlinear_arith)
        requires
            unit_at(18) == ("mi"@, Dimension::Length, 1609344nat, 1000nat),
            unit_at(19) == ("mile"@, Dimension::Length, 1609344nat, 1000nat),
    {
    }
    assert(scaled("nmi"@, 20, "m"@, 0, 1852, 1)) by (nonlinear_arith)
        requires
            unit_at(0) == ("m"@, Dimension::Length, 1nat, 1nat),
            unit_at(20) == ("nmi"@, Dimension::Length, 1852nat, 1nat),
    {
    }
    assert(same_unit("nautical_mile"@, 21, "nmi"@, 20)) by (nonlinear_arith)
        requires
            unit_at(20) == ("nmi"@, Dimension::Length, 1852nat, 1nat),
            unit_at(21) == ("nautical_mile"@, Dimension::Length, 1852nat, 1nat),
    {
    }
}

/// The mass units of the table agree with their definitions: the kilogram is the base unit; metric multiples; the international pound is 0.45359237 kg; 16 ounces make a pound, 14 pounds a stone.
/// Every name of a unit carries the same factor.
pub proof fn lemma_mass_units_match_definitions()
    ensures
        is_base("kg"@, 22),
        same_unit("kilogram"@, 23, "kg"@, 22),
        scaled("g"@, 24, "kg"@, 22, 1, 1000),
        same_unit("gram"@, 25, "g"@, 24),
        scaled("mg"@, 26, "g"@, 24, 1, 1000),
        same_unit("milligram"@, 27, "mg"@, 26),
        scaled("t"@, 28, "kg"@, 22, 1000, 1),
        same_unit("ton"@, 29, "t"@, 28),
        same_unit("tonne"@, 30, "t"@, 28),
        scaled("lb"@, 31, "kg"@, 22, 45359237, 100000000),
        same_unit("lbs"@, 32, "lb"@, 31),
        same_unit("pound"@, 33, "lb"@, 31),
        scaled("oz"@, 34, "lb"@, 31, 1, 16),
        same_unit("ounce"@, 35, "oz"@, 34),
        scaled("stone"@, 36, "lb"@, 31, 14, 1),
{
    assert(unit_at(22) == ("kg"@, Dimension::Mass, 1nat, 1nat));
    assert(same_unit("kilogram"@, 23, "kg"@, 22)) by (nonlinear_arith)
        requires
            unit_at(22) == ("kg"@, Dimension::Mass, 1nat, 1nat),
            unit_at(23) == ("kilogram"@, Dimension::Mass, 1nat, 1nat),
    {
    }
    assert(scaled("g"@, 24, "kg"@, 22, 1, 1000)) by (nonlinear_arith)
        requires
            unit_at(22) == ("kg"@, Dimension::Mass, 1nat, 1nat),
            unit_at(24) == ("g"@, Dimension::Mass, 1nat, 1000nat),
    {
    }
    assert(same_unit("gram"@, 25, "g"@, 24)) by (nonlinear_arith)
        requires
            unit_at(24) == ("g"@, Dimension::Mass, 1nat, 1000nat),
            unit_at(25) == ("gram"@, Dimension::Mass, 1nat, 1000nat),
    {
    }
    assert(scaled("mg"@, 26, "g"@, 24, 1, 1000)) by (nonlinear_arith)
        requires
            unit_at(24) == ("g"@, Dimension::Mass, 1nat, 1000nat),
            unit_at(26) == ("mg"@, Dimension::Mass, 1nat, 1000000nat),
    {
    }
    assert(same_unit("milligram"@, 27, "mg"@, 26)) by (nonlinear_arith)
        requires
            unit_at(26) == ("mg"@, Dimension::Mass, 1nat, 1000000nat),
            unit_at(27) == ("milligram"@, Dimension::Mass, 1nat, 1000000nat),
    {
    }
    assert(scaled("t"@, 28, "kg"@, 22, 1000, 1)) by (nonlinear_arith)
        requires
            unit_at(22) == ("kg"@, Dimension::Mass, 1nat, 1nat),
            unit_at(28) == ("t"@, Dimension::Mass, 1000nat, 1nat),
    {
    }
    assert(same_unit("ton"@, 29, "t"@, 28)) by (nonlinear_arith)
        requires
            unit_at(28) == ("t"@, Dimension::Mass, 1000nat, 1nat),
            unit_at(29) == ("ton"@, Dimension::Mass, 1000nat, 1nat),
    {
    }
    assert(same_unit("tonne"@, 30, "t"@, 28)) by (nonlinear_arith)
        requires
            unit_at(28) == ("t"@, Dimension::Mass, 1000nat, 1nat),
            unit_at(30) == ("tonne"@, Dimension::Mass, 1000nat, 1nat),
    {
    }
    assert(scaled("lb"@, 31, "kg"@, 22, 45359237, 100000000)) by (nonlinear_arith)
        requires
            unit_at(22) == ("kg"@, Dimension::Mass, 1nat, 1nat),
            unit_at(31) == ("lb"@, Dimension::Mass, 45359237nat, 100000000nat),
    {
    }
    assert(same_unit("lbs"@, 32, "lb"@, 31)) by (nonlinear_arith)
        requires
            unit_at(31) == ("lb"@, Dimension::Mass, 45359237nat, 100000000nat),
            unit_at(32) == ("lbs"@, Dimension::Mass, 45359237nat, 100000000nat),
    {
    }
    assert(same_unit("pound"@, 33, "lb"@, 31)) by (nonlinear_arith)
        requires
            unit_at(31) == ("lb"@, Dimension::Mass, 45359237nat, 100000000nat),
            unit_at(33) == ("pound"@, Dimension::Mass, 45359237nat, 100000000nat),
    {
    }
    assert(scaled("oz"@, 34, "lb"@, 31, 1, 16)) by (nonlinear_arith)
        requires
            unit_at(31) == ("lb"@, Dimension::Mass, 45359237nat, 100000000nat),
            unit_at(34) == ("oz"@, Dimension::Mass, 28349523125nat, 1000000000000nat),
    {
    }
    assert(same_unit("ounce"@, 35, "oz"@, 34)) by (nonlinear_arith)
        requires
            unit_at(34) == ("oz"@, Dimension::Mass, 28349523125nat, 1000000000000nat),
            unit_at(35) == ("ounce"@, Dimension::Mass, 28349523125nat, 1000000000000nat),
    {
    }
    assert(scaled("stone"@, 36, "lb"@, 31, 14, 1)) by (nonlinear_arith)
        requires
            unit_at(31) == ("lb"@, Dimension::Mass, 45359237nat, 100000000nat),
            unit_at(36) == ("stone"@, Dimension::Mass, 635029318nat, 100000000nat),
    {
    }
}

/// The volume units of the table agree with their definitions: the cubic metre is the base unit; a litre is a cubic decimetre; the US gallon is 231 cubic inches, of 4 quarts of 2 pints; a cubic foot is a foot cubed.
/// Every name of a unit carries the same factor.
pub proof fn lemma_volume_units_match_definitions()
    ensures
        is_base("m3"@, 37),
        same_unit("cubic_meter"@, 38, "m3"@, 37),
        cubed("L"@, 39, "dm"@, 10, 1),
        same_unit("l"@, 40, "L"@, 39),
        same_unit("liter"@, 41, "L"@, 39),
        same_unit("litre"@, 42, "L"@, 39),
        scaled("mL"@, 43, "L"@, 39, 1, 1000),
        same_unit("ml"@, 44, "mL"@, 43),
        same_unit("milliliter"@, 45, "mL"@, 43),
        cubed("gal"@, 46, "in"@, 12, 231),
        same_unit("gallon"@, 47, "gal"@, 46),
        scaled("qt"@, 48, "gal"@, 46, 1, 4),
        same_unit("quart"@, 49, "qt"@, 48),
        scaled("pt"@, 50, "qt"@, 48, 1, 2),
        same_unit("pint"@, 51, "pt"@, 50),
        cubed("ft3"@, 52, "ft"@, 14, 1),
        same_unit("cubic_foot"@, 53, "ft3"@, 52),
{
    assert(unit_at(37) == ("m3"@, Dimension::Volume, 1nat, 1nat));
    assert(same_unit("cubic_meter"@, 38, "m3"@, 37)) by (nonlinear_arith)
        requires
            unit_at(37) == ("m3"@, Dimension::Volume, 1nat, 1nat),
            unit_at(38) == ("cubic_meter"@, Dimension::Volume, 1nat, 1nat),
    {
    }
    assert(cubed("L"@, 39, "dm"@, 10, 1)) by (nonlinear_arith)
        requires
            unit_at(10) == ("dm"@, Dimension::Length, 1nat, 10nat),
            unit_at(39) == ("L"@, Dimension::Volume, 1nat, 1000nat),
    {
    }
    assert(same_unit("l"@, 40, "L"@, 39)) by (nonlinear_arith)
        requires
            unit_at(39) == ("L"@, Dimension::Volume, 1nat, 1000nat),
            unit_at(40) == ("l"@, Dimension::Volume, 1nat, 1000nat),
    {
    }
    assert(same_unit("liter"@, 41, "L"@, 39)) by (nonlinear_arith)
        requires
            unit_at(39) == ("L"@, Dimension::Volume, 1nat, 1000nat),
            unit_at(41) == ("liter"@, Dimension::Volume, 1nat, 1000nat),
    {
    }
    assert(same_unit("litre"@, 42, "L"@, 39)) by (nonlinear_arith)
        requires
            unit_at(39) == ("L"@, Dimension::Volume, 1nat, 1000nat),
            unit_at(42) == ("litre"@, Dimension::Volume, 1nat, 1000nat),
    {
    }
    assert(scaled("mL"@, 43, "L"@, 39, 1, 1000)) by (nonlinear_arith)
        requires
            unit_at(39) == ("L"@, Dimension::Volume, 1nat, 1000nat),
            unit_at(43) == ("mL"@, Dimension::Volume, 1nat, 1000000nat),
    {
    }
    assert(same_unit("ml"@, 44, "mL"@, 43)) by (nonlinear_arith)
        requires
            unit_at(43) == ("mL"@, Dimension::Volume, 1nat, 1000000nat),
            unit_at(44) == ("ml"@, Dimension::Volume, 1nat, 1000000nat),
    {
    }
    assert(same_unit("milliliter"@, 45, "mL"@, 43)) by (nonlinear_arith)
        requires
            unit_at(43) == ("mL"@, Dimension::Volume, 1nat, 1000000nat),
            unit_at(45) == ("milliliter"@, Dimension::Volume, 1nat, 1000000nat),
    {
    }
    assert(cubed("gal"@, 46, "in"@, 12, 231)) by (nonlinear_arith)
        requires
            unit_at(12) == ("in"@, Dimension::Length, 254nat, 10000nat),
            unit_at(46) == ("gal"@, Dimension::Volume, 3785411784nat, 1000000000000nat),
    {
    }
    assert(same_unit("gallon"@, 47, "gal"@, 46)) by (nonlinear_arith)
        requires
            unit_at(46) == ("gal"@, Dimension::Volume, 3785411784nat, 1000000000000nat),
            unit_at(47) == ("gallon"@, Dimension::Volume, 3785411784nat, 1000000000000nat),
    {
    }
    assert(scaled("qt"@, 48, "gal"@, 46, 1, 4)) by (nonlinear_arith)
        requires
            unit_at(46) == ("gal"@, Dimension::Volume, 3785411784nat, 1000000000000nat),
            unit_at(48) == ("qt"@, Dimension::Volume, 946352946nat, 1000000000000nat),
    {
    }
    assert(same_unit("quart"@, 49, "qt"@, 48)) by (nonlinear_arith)
        requires
            unit_at(48) == ("qt"@, Dimension::Volume, 946352946nat, 1000000000000nat),
            unit_at(49) == ("quart"@, Dimension::Volume, 946352946nat, 1000000000000nat),
    {
    }
    assert(scaled("pt"@, 50, "qt"@, 48, 1, 2)) by (nonlinear_arith)
        requires
            unit_at(48) == ("qt"@, Dimension::Volume, 946352946nat, 1000000000000nat),
            unit_at(50) == ("pt"@, Dimension::Volume, 473176473nat, 1000000000000nat),
    {
    }
    assert(same_unit("pint"@, 51, "pt"@, 50)) by (nonlinear_arith)
        requires
            unit_at(50) == ("pt"@, Dimension::Volume, 473176473nat, 1000000000000nat),
            unit_at(51) == ("pint"@, Dimension::Volume, 473176473nat, 1000000000000nat),
    {
    }
    assert(cubed("ft3"@, 52, "ft"@, 14, 1)) by (nonlinear_arith)
        requires
            unit_at(14) == ("ft"@, Dimension::Length, 3048nat, 10000nat),
            unit_at(52) == ("ft3"@, Dimension::Volume, 28316846592nat, 1000000000000nat),
    {
    }
    assert(same_unit("cubic_foot"@, 53, "ft3"@, 52)) by (nonlinear_arith)
        requires
            unit_at(52) == ("ft3"@, Dimension::Volume, 28316846592nat, 1000000000000nat),
            unit_at(53) == ("cubic_foot"@, Dimension::Volume, 28316846592nat, 1000000000000nat),
    {
    }
}

/// The area units of the table agree with their definitions: the square metre is the base unit; square units are their length squared; a hectare is 10000 m2, an acre 43560 square feet.
/// Every name of a unit carries the same factor.
pub proof fn lemma_area_units_match_definitions()
    ensures
        is_base("m2"@, 54),
        same_unit("sq_m"@, 55, "m2"@, 54),
        same_unit("square_meter"@, 56, "m2"@, 54),
        squared("km2"@, 57, "km"@, 3),
        same_unit("square_kilometer"@, 58, "km2"@, 57),
        squared("cm2"@, 59, "cm"@, 6),
        same_unit("square_centimeter"@, 60, "cm2"@, 59),
        squared("mm2"@, 61, "mm"@, 8),
        same_unit("square_millimeter"@, 62, "mm2"@, 61),
        squared("ft2"@, 66, "ft"@, 14),
        same_unit("square_foot"@, 67, "ft2"@, 66),
        squared("in2"@, 68, "in"@, 12),
        same_unit("square_inch"@, 69, "in2"@, 68),
        scaled("ha"@, 63, "m2"@, 54, 10000, 1),
        same_unit("hectare"@, 64, "ha"@, 63),
        scaled("acre"@, 65, "ft2"@, 66, 43560, 1),
{
    assert(unit_at(54) == ("m2"@, Dimension::Area, 1nat, 1nat));
    assert(same_unit("sq_m"@, 55, "m2"@, 54)) by (nonlinear_arith)
        requires
            unit_at(54) == ("m2"@, Dimension::Area, 1nat, 1nat),
            unit_at(55) == ("sq_m"@, Dimension::Area, 1nat, 1nat),
    {
    }
    assert(same_unit("square_meter"@, 56, "m2"@, 54)) by (nonlinear_arith)
        requires
            unit_at(54) == ("m2"@, Dimension::Area, 1nat, 1nat),
            unit_at(56) == ("square_meter"@, Dimension::Area, 1nat, 1nat),
    {
    }
    assert(squared("km2"@, 57, "km"@, 3)) by (nonlinear_arith)
        requires
            unit_at(3) == ("km"@, Dimension::Length, 1000nat, 1nat),
            unit_at(57) == ("km2"@, Dimension::Area, 1000000nat, 1nat),
    {
    }
    assert(same_unit("square_kilometer"@, 58, "km2"@, 57)) by (nonlinear_arith)
        requires
            unit_at(57) == ("km2"@, Dimension::Area, 1000000nat, 1nat),
            unit_at(58) == ("square_kilometer"@, Dimension::Area, 1000000nat, 1nat),
    {
    }
    assert(squared("cm2"@, 59, "cm"@, 6)) by (nonlinear_arith)
        requires
            unit_at(6) == ("cm"@, Dimension::Length, 1nat, 100nat),
            unit_at(59) == ("cm2"@, Dimension::Area, 1nat, 10000nat),
    {
    }
    assert(same_unit("square_centimeter"@, 60, "cm2"@, 59)) by (nonlinear_arith)
        requires
            unit_at(59) == ("cm2"@, Dimension::Area, 1nat, 10000nat),
            unit_at(60) == ("square_centimeter"@, Dimension::Area, 1nat, 10000nat),
    {
    }
    assert(squared("mm2"@, 61, "mm"@, 8)) by (nonlinear_arith)
        requires
            unit_at(8) == ("mm"@, Dimension::Length, 1nat, 1000nat),
            unit_at(61) == ("mm2"@, Dimension::Area, 1nat, 1000000nat),
    {
    }
    assert(same_unit("square_millimeter"@, 62, "mm2"@, 61)) by (nonlinear_arith)
        requires
            unit_at(61) == ("mm2"@, Dimension::Area, 1nat, 1000000nat),
            unit_at(62) == ("square_millimeter"@, Dimension::Area, 1nat, 1000000nat),
    {
    }
    assert(squared("ft2"@, 66, "ft"@, 14)) by (nonlinear_arith)
        requires
            unit_at(14) == ("ft"@, Dimension::Length, 3048nat, 10000nat),
            unit_at(66) == ("ft2"@, Dimension::Area, 9290304nat, 100000000nat),
    {
    }
    assert(same_unit("square_foot"@, 67, "ft2"@, 66)) by (nonlinear_arith)
        requires
            unit_at(66) == ("ft2"@, Dimension::Area, 9290304nat, 100000000nat),
            unit_at(67) == ("square_foot"@, Dimension::Area, 9290304nat, 100000000nat),
    {
    }
    assert(squared("in2"@, 68, "in"@, 12)) by (nonlinear_arith)
        requires
            unit_at(12) == ("in"@, Dimension::Length, 254nat, 10000nat),
            unit_at(68) == ("in2"@, Dimension::Area, 64516nat, 100000000nat),
    {
    }
    assert(same_unit("square_inch"@, 69, "in2"@, 68)) by (nonlinear_arith)
        requires
            unit_at(68) == ("in2"@, Dimension::Area, 64516nat, 100000000nat),
            unit_at(69) == ("square_inch"@, Dimension::Area, 64516nat, 100000000nat),
    {
    }
    assert(scaled("ha"@, 63, "m2"@, 54, 10000, 1)) by (nonlinear_arith)
        requires
            unit_at(54) == ("m2"@, Dimension::Area, 1nat, 1nat),
            unit_at(63) == ("ha"@, Dimension::Area, 10000nat, 1nat),
    {
    }
    assert(same_unit("hectare"@, 64, "ha"@, 63)) by (nonlinear_arith)
        requires
            unit_at(63) == ("ha"@, Dimension::Area, 10000nat, 1nat),
            unit_at(64) == ("hectare"@, Dimension::Area, 10000nat, 1nat),
    {
    }
    assert(scaled("acre"@, 65, "ft2"@, 66, 43560, 1)) by (nonlinear_arith)
        requires
            unit_at(65) == ("acre"@, Dimension::Area, 40468564224nat, 10000000nat),
            unit_at(66) == ("ft2"@, Dimension::Area, 9290304nat, 100000000nat),
    {
    }
}

/// The speed units of the table agree with their definitions: the metre per second is the base unit; the others are a length per hour or per second.
/// Every name of a unit carries the same factor.
pub proof fn lemma_speed_units_match_definitions()
    ensures
        is_base("m/s"@, 70),
        same_unit("mps"@, 71, "m/s"@, 70),
        per_time("km/h"@, 72, "km"@, 3, "h"@, 110),
        same_unit("kmh"@, 73, "km/h"@, 72),
        same_unit("kph"@, 74, "km/h"@, 72),
        per_time("mph"@, 75, "mi"@, 18, "h"@, 110),
        per_time("knot"@, 76, "nmi"@, 20, "h"@, 110),
        same_unit("kn"@, 77, "knot"@, 76),
        per_time("ft/s"@, 78, "ft"@, 14, "s"@, 99),
        same_unit("fps"@, 79, "ft/s"@, 78),
{
    assert(unit_at(70) == ("m/s"@, Dimension::Speed, 1nat, 1nat));
    assert(same_unit("mps"@, 71, "m/s"@, 70)) by (nonlinear_arith)
        requires
            unit_at(70) == ("m/s"@, Dimension::Speed, 1nat, 1nat),
            unit_at(71) == ("mps"@, Dimension::Speed, 1nat, 1nat),
    {
    }
    assert(per_time("km/h"@, 72, "km"@, 3, "h"@, 110)) by (nonlinear_arith)
        requires
            unit_at(3) == ("km"@, Dimension::Length, 1000nat, 1nat),
            unit_at(72) == ("km/h"@, Dimension::Speed, 1000nat, 3600nat),
            unit_at(110) == ("h"@, Dimension::Time, 3600nat, 1nat),
    {
    }
    assert(same_unit("kmh"@, 73, "km/h"@, 72)) by (nonlinear_arith)
        requires
            unit_at(72) == ("km/h"@, Dimension::Speed, 1000nat, 3600nat),
            unit_at(73) == ("kmh"@, Dimension::Speed, 1000nat, 3600nat),
    {
    }
    assert(same_unit("kph"@, 74, "km/h"@, 72)) by (nonlinear_arith)
        requires
            unit_at(72) == ("km/h"@, Dimension::Speed, 1000nat, 3600nat),
            unit_at(74) == ("kph"@, Dimension::Speed, 1000nat, 3600nat),
    {
    }
    assert(per_time("mph"@, 75, "mi"@, 18, "h"@, 110)) by (nonlinear_arith)
        requires
            unit_at(18) == ("mi"@, Dimension::Length, 1609344nat, 1000nat),
            unit_at(75) == ("mph"@, Dimension::Speed, 1609344nat, 3600000nat),
            unit_at(110) == ("h"@, Dimension::Time, 3600nat, 1nat),
    {
    }
    assert(per_time("knot"@, 76, "nmi"@, 20, "h"@, 110)) by (nonlinear_arith)
        requires
            unit_at(20) == ("nmi"@, Dimension::Length, 1852nat, 1nat),
            unit_at(76) == ("knot"@, Dimension::Speed, 1852nat, 3600nat),
            unit_at(110) == ("h"@, Dimension::Time, 3600nat, 1nat),
    {
    }
    assert(same_unit("kn"@, 77, "knot"@, 76)) by (nonlinear_arith)
        requires
            unit_at(76) == ("knot"@, Dimension::Speed, 1852nat, 3600nat),
            unit_at(77) == ("kn"@, Dimension::Speed, 1852nat, 3600nat),
    {
    }
    assert(per_time("ft/s"@, 78, "ft"@, 14, "s"@, 99)) by (nonlinear_arith)
        requires
            unit_at(14) == ("ft"@, Dimension::Length, 3048nat, 10000nat),
            unit_at(78) == ("ft/s"@, Dimension::Speed, 3048nat, 10000nat),
            unit_at(99) == ("s"@, Dimension::Time, 1nat, 1nat),
    {
    }
    assert(same_unit("fps"@, 79, "ft/s"@, 78)) by (nonlinear_arith)
        requires
            unit_at(78) == ("ft/s"@, Dimension::Speed, 3048nat, 10000nat),
            unit_at(79) == ("fps"@, Dimension::Speed, 3048nat, 10000nat),
    {
    }
}

/// The data units of the table agree with their definitions: the byte is the base unit; decimal prefixes step by 1000, binary ones by 1024.
/// Every name of a unit carries the same factor.
pub proof fn lemma_data_units_match_definitions()
    ensures
        is_base("B"@, 80),
        same_unit("byte"@, 81, "B"@, 80),
        scaled("KB"@, 82, "B"@, 80, 1000, 1),
        scaled("MB"@, 83, "KB"@, 82, 1000, 1),
        scaled("GB"@, 84, "MB"@, 83, 1000, 1),
        scaled("TB"@, 85, "GB"@, 84, 1000, 1),
        scaled("PB"@, 86, "TB"@, 85, 1000, 1),
        same_unit("kilobyte"@, 87, "KB"@, 82),
        same_unit("megabyte"@, 88, "MB"@, 83),
        same_unit("gigabyte"@, 89, "GB"@, 84),
        same_unit("terabyte"@, 90, "TB"@, 85),
        scaled("KiB"@, 91, "B"@, 80, 1024, 1),
        scaled("MiB"@, 92, "KiB"@, 91, 1024, 1),
        scaled("GiB"@, 93, "MiB"@, 92, 1024, 1),
        scaled("TiB"@, 94, "GiB"@, 93, 1024, 1),
        scaled("PiB"@, 95, "TiB"@, 94, 1024, 1),
        same_unit("kibibyte"@, 96, "KiB"@, 91),
        same_unit("mebibyte"@, 97, "MiB"@, 92),
        same_unit("gibibyte"@, 98, "GiB"@, 93),
{
    assert(unit_at(80) == ("B"@, Dimension::Data, 1nat, 1nat));
    assert(same_unit("byte"@, 81, "B"@, 80)) by (nonlinear_arith)
        requires
            unit_at(80) == ("B"@, Dimension::Data, 1nat, 1nat),
            unit_at(81) == ("byte"@, Dimension::Data, 1nat, 1nat),
    {
    }
    assert(scaled("KB"@, 82, "B"@, 80, 1000, 1)) by (nonlinear_arith)
        requires
            unit_at(80) == ("B"@, Dimension::Data, 1nat, 1nat),
            unit_at(82) == ("KB"@, Dimension::Data, 1000nat, 1nat),
    {
    }
    assert(scaled("MB"@, 83, "KB"@, 82, 1000, 1)) by (nonlinear_arith)
        requires
            unit_at(82) == ("KB"@, Dimension::Data, 1000nat, 1nat),
            unit_at(83) == ("MB"@, Dimension::Data, 1000000nat, 1nat),
    {
    }
    assert(scaled("GB"@, 84, "MB"@, 83, 1000, 1)) by (nonlinear_arith)
        requires
            unit_at(83) == ("MB"@, Dimension::Data, 1000000nat, 1nat),
            unit_at(84) == ("GB"@, Dimension::Data, 1000000000nat, 1nat),
    {
    }
    assert(scaled("TB"@, 85, "GB"@, 84, 1000, 1)) by (nonlinear_arith)
        requires
            unit_at(84) == ("GB"@, Dimension::Data, 1000000000nat, 1nat),
            unit_at(85) == ("TB"@, Dimension::Data, 1000000000000nat, 1nat),
    {
    }
    assert(scaled("PB"@, 86, "TB"@, 85, 1000, 1)) by (nonlinear_arith)
        requires
            unit_at(85) == ("TB"@, Dimension::Data, 1000000000000nat, 1nat),
            unit_at(86) == ("PB"@, Dimension::Data, 1000000000000000nat, 1nat),
    {
    }
    assert(same_unit("kilobyte"@, 87, "KB"@, 82)) by (nonlinear_arith)
        requires
            unit_at(82) == ("KB"@, Dimension::Data, 1000nat, 1nat),
            unit_at(87) == ("kilobyte"@, Dimension::Data, 1000nat, 1nat),
    {
    }
    assert(same_unit("megabyte"@, 88, "MB"@, 83)) by (nonlinear_arith)
        requires
            unit_at(83) == ("MB"@, Dimension::Data, 1000000nat, 1nat),
            unit_at(88) == ("megabyte"@, Dimension::Data, 1000000nat, 1nat),
    {
    }
    assert(same_unit("gigabyte"@, 89, "GB"@, 84)) by (nonlinear_arith)
        requires
            unit_at(84) == ("GB"@, Dimension::Data, 1000000000nat, 1nat),
            unit_at(89) == ("gigabyte"@, Dimension::Data, 1000000000nat, 1nat),
    {
    }
    assert(same_unit("terabyte"@, 90, "TB"@, 85)) by (nonlinear_arith)
        requires
            unit_at(85) == ("TB"@, Dimension::Data, 1000000000000nat, 1nat),
            unit_at(90) == ("terabyte"@, Dimension::Data, 1000000000000nat, 1nat),
    {
    }
    assert(scaled("KiB"@, 91, "B"@, 80, 1024, 1)) by (nonlinear_arith)
        requires
            unit_at(80) == ("B"@, Dimension::Data, 1nat, 1nat),
            unit_at(91) == ("KiB"@, Dimension::Data, 1024nat, 1nat),
    {
    }
    assert(scaled("MiB"@, 92, "KiB"@, 91, 1024, 1)) by (nonlinear_arith)
        requires
            unit_at(91) == ("KiB"@, Dimension::Data, 1024nat, 1nat),
            unit_at(92) == ("MiB"@, Dimension::Data, 1048576nat, 1nat),
    {
    }
    assert(scaled("GiB"@, 93, "MiB"@, 92, 1024, 1)) by (nonlinear_arith)
        requires
            unit_at(92) == ("MiB"@, Dimension::Data, 1048576nat, 1nat),
            unit_at(93) == ("GiB"@, Dimension::Data, 1073741824nat, 1nat),
    {
    }
    assert(scaled("TiB"@, 94, "GiB"@, 93, 1024, 1)) by (nonlinear_arith)
        requires
            unit_at(93) == ("GiB"@, Dimension::Data, 1073741824nat, 1nat),
            unit_at(94) == ("TiB"@, Dimension::Data, 1099511627776nat, 1nat),
    {
    }
    assert(scaled("PiB"@, 95, "TiB"@, 94, 1024, 1)) by (nonlinear_arith)
        requires
            unit_at(94) == ("TiB"@, Dimension::Data, 1099511627776nat, 1nat),
            unit_at(95) == ("PiB"@, Dimension::Data, 1125899906842624nat, 1nat),
    {
    }
    assert(same_unit("kibibyte"@, 96, "KiB"@, 91)) by (nonlinear_arith)
        requires
            unit_at(91) == ("KiB"@, Dimension::Data, 1024nat, 1nat),
            unit_at(96) == ("kibibyte"@, Dimension::Data, 1024nat, 1nat),
    {
    }
    assert(same_unit("mebibyte"@, 97, "MiB"@, 92)) by (nonlinear_arith)
        requires
            unit_at(92) == ("MiB"@, Dimension::Data, 1048576nat, 1nat),
            unit_at(97) == ("mebibyte"@, Dimension::Data, 1048576nat, 1nat),
    {
    }
    assert(same_unit("gibibyte"@, 98, "GiB"@, 93)) by (nonlinear_arith)
        requires
            unit_at(93) == ("GiB"@, Dimension::Data, 1073741824nat, 1nat),
            unit_at(98) == ("gibibyte"@, Dimension::Data, 1073741824nat, 1nat),
    {
    }
}

/// The time units of the table agree with their definitions: the second is the base unit; 60 seconds make a minute, 60 minutes an hour, 24 hours a day, 7 days a week; the Julian year is 365.25 days and a month is a twelfth of it.
/// Every name of a unit carries the same factor.
pub proof fn lemma_time_units_match_definitions()
    ensures
        is_base("s"@, 99),
        same_unit("sec"@, 100, "s"@, 99),
        same_unit("second"@, 101, "s"@, 99),
        scaled("ms"@, 102, "s"@, 99, 1, 1000),
        same_unit("millisecond"@, 103, "ms"@, 102),
        scaled("us"@, 104, "ms"@, 102, 1, 1000),
        same_unit("microsecond"@, 105, "us"@, 104),
        scaled("ns"@, 106, "us"@, 104, 1, 1000),
        same_unit("nanosecond"@, 107, "ns"@, 106),
        scaled("min"@, 108, "s"@, 99, 60, 1),
        same_unit("minute"@, 109, "min"@, 108),
        scaled("h"@, 110, "min"@, 108, 60, 1),
        same_unit("hr"@, 111, "h"@, 110),
        same_unit("hour"@, 112, "h"@, 110),
        scaled("day"@, 113, "h"@, 110, 24, 1),
        same_unit("d"@, 114, "day"@, 113),
        scaled("week"@, 115, "day"@, 113, 7, 1),
        same_unit("wk"@, 116, "week"@, 115),
        scaled("year"@, 118, "day"@, 113, 1461, 4),
        same_unit("yr"@, 119, "year"@, 118),
        scaled("month"@, 117, "year"@, 118, 1, 12),
{
    assert(unit_at(99) == ("s"@, Dimension::Time, 1nat, 1nat));
    assert(same_unit("sec"@, 100, "s"@, 99)) by (nonlinear_arith)
        requires
            unit_at(99) == ("s"@, Dimension::Time, 1nat, 1nat),
            unit_at(100) == ("sec"@, Dimension::Time, 1nat, 1nat),
    {
    }
    assert(same_unit("second"@, 101, "s"@, 99)) by (nonlinear_arith)
        requires
            unit_at(99) == ("s"@, Dimension::Time, 1nat, 1nat),
            unit_at(101) == ("second"@, Dimension::Time, 1nat, 1nat),
    {
    }
    assert(scaled("ms"@, 102, "s"@, 99, 1, 1000)) by (nonlinear_arith)
        requires
            unit_at(99) == ("s"@, Dimension::Time, 1nat, 1nat),
            unit_at(102) == ("ms"@, Dimension::Time, 1nat, 1000nat),
    {
    }
    assert(same_unit("millisecond"@, 103, "ms"@, 102)) by (nonlinear_arith)
        requires
            unit_at(102) == ("ms"@, Dimension::Time, 1nat, 1000nat),
            unit_at(103) == ("millisecond"@, Dimension::Time, 1nat, 1000nat),
    {
    }
    assert(scaled("us"@, 104, "ms"@, 102, 1, 1000)) by (nonlinear_arith)
        requires
            unit_at(102) == ("ms"@, Dimension::Time, 1nat, 1000nat),
            unit_at(104) == ("us"@, Dimension::Time, 1nat, 1000000nat),
    {
    }
    assert(same_unit("microsecond"@, 105, "us"@, 104)) by (nonlinear_arith)
        requires
            unit_at(104) == ("us"@, Dimension::Time, 1nat, 1000000nat),
            unit_at(105) == ("microsecond"@, Dimension::Time, 1nat, 1000000nat),
    {
    }
    assert(scaled("ns"@, 106, "us"@, 104, 1, 1000)) by (nonlinear_arith)
        requires
            unit_at(104) == ("us"@, Dimension::Time, 1nat, 1000000nat),
            unit_at(106) == ("ns"@, Dimension::Time, 1nat, 1000000000nat),
    {
    }
    assert(same_unit("nanosecond"@, 107, "ns"@, 106)) by (nonlinear_arith)
        requires
            unit_at(106) == ("ns"@, Dimension::Time, 1nat, 1000000000nat),
            unit_at(107) == ("nanosecond"@, Dimension::Time, 1nat, 1000000000nat),
    {
    }
    assert(scaled("min"@, 108, "s"@, 99, 60, 1)) by (nonlinear_arith)
        requires
            unit_at(99) == ("s"@, Dimension::Time, 1nat, 1nat),
            unit_at(108) == ("min"@, Dimension::Time, 60nat, 1nat),
    {
    }
    assert(same_unit("minute"@, 109, "min"@, 108)) by (nonlinear_arith)
        requires
            unit_at(108) == ("min"@, Dimension::Time, 60nat, 1nat),
            unit_at(109) == ("minute"@, Dimension::Time, 60nat, 1nat),
    {
    }
    assert(scaled("h"@, 110, "min"@, 108, 60, 1)) by (nonlinear_arith)
        requires
            unit_at(108) == ("min"@, Dimension::Time, 60nat, 1nat),
            unit_at(110) == ("h"@, Dimension::Time, 3600nat, 1nat),
    {
    }
    assert(same_unit("hr"@, 111, "h"@, 110)) by (nonlinear_arith)
        requires
            unit_at(110) == ("h"@, Dimension::Time, 3600nat, 1nat),
            unit_at(111) == ("hr"@, Dimension::Time, 3600nat, 1nat),
    {
    }
    assert(same_unit("hour"@, 112, "h"@, 110)) by (nonlinear_arith)
        requires
            unit_at(110) == ("h"@, Dimension::Time, 3600nat, 1nat),
            unit_at(112) == ("hour"@, Dimension::Time, 3600nat, 1nat),
    {
    }
    assert(scaled("day"@, 113, "h"@, 110, 24, 1)) by (nonlinear_arith)
        requires
            unit_at(110) == ("h"@, Dimension::Time, 3600nat, 1nat),
            unit_at(113) == ("day"@, Dimension::Time, 86400nat, 1nat),
    {
    }
    assert(same_unit("d"@, 114, "day"@, 113)) by (nonlinear_arith)
        requires
            unit_at(113) == ("day"@, Dimension::Time, 86400nat, 1nat),
            unit_at(114) == ("d"@, Dimension::Time, 86400nat, 1nat),
    {
    }
    assert(scaled("week"@, 115, "day"@, 113, 7, 1)) by (nonlinear_arith)
        requires
            unit_at(113) == ("day"@, Dimension::Time, 86400nat, 1nat),
            unit_at(115) == ("week"@, Dimension::Time, 604800nat, 1nat),
    {
    }
    assert(same_unit("wk"@, 116, "week"@, 115)) by (nonlinear_arith)
        requires
            unit_at(115) == ("week"@, Dimension::Time, 604800nat, 1nat),
            unit_at(116) == ("wk"@, Dimension::Time, 604800nat, 1nat),
    {
    }
    assert(scaled("year"@, 118, "day"@, 113, 1461, 4)) by (nonlinear_arith)
        requires
            unit_at(113) == ("day"@, Dimension::Time, 86400nat, 1nat),
            unit_at(118) == ("year"@, Dimension::Time, 31557600nat, 1nat),
    {
    }
    assert(same_unit("yr"@, 119, "year"@, 118)) by (nonlinear_arith)
        requires
            unit_at(118) == ("year"@, Dimension::Time, 31557600nat, 1nat),
            unit_at(119) == ("yr"@, Dimension::Time, 31557600nat, 1nat),
    {
    }
    assert(scaled("month"@, 117, "year"@, 118, 1, 12)) by (nonlinear_arith)
        requires
            unit_at(117) == ("month"@, Dimension::Time, 2629800nat, 1nat),
            unit_at(118) == ("year"@, Dimension::Time, 31557600nat, 1nat),
    {
    }
}

/// The first entry of `t` named `name`, with its dimension and factor.
pub open spec fn find_unit(t: Seq<(Seq<char>, Dimension, nat, nat)>, name: Seq<char>) -> Option<(Dimension, nat, nat)>
    decreases t.len(),
{
    if t.len() == 0 {
        None
    } else if t[0].0 == name {
        Some((t[0].1, t[0].2, t[0].3))
    } else {
        find_unit(t.drop_first(), name)
    }
}

/// The dimension and exact factor of a linear unit, if the name is one.
pub open spec fn spec_lookup(name: Seq<char>) -> Option<(Dimension, nat, nat)> {
    find_unit(spec_linear_units(), name)
}

proof fn lemma_find_unit_skip(t: Seq<(Seq<char>, Dimension, nat, nat)>, name: Seq<char>, i: int)
    requires
        0 <= i < t.len(),
        t[i].0 != name,
    ensures
        find_unit(t.skip(i), name) == find_unit(t.skip(i + 1), name),
{
    assert(t.skip(i).drop_first() =~= t.skip(i + 1));
}

/// Case-sensitive lookup of a linear unit: its dimension and its factor to the
/// SI base unit as an exact fraction. Temperatures are not in the table.
pub fn lookup(name: &str) -> (r: Option<(Dimension, u64, u64)>)
    ensures
        match r {
            Some((d, n, k)) => spec_lookup(name@) == Some((d, n as nat, k as nat)),
            None => spec_lookup(name@).is_none(),
        },
{
    let ghost t = spec_linear_units();
    let mut i: usize = 0;
    assert(t.skip(0) =~= t);
    while i < LINEAR_UNIT_COUNT
        invariant
            t == spec_linear_units(),
            i <= t.len(),
            find_unit(t, name@) == find_unit(t.skip(i as int), name@),
        decreases LINEAR_UNIT_COUNT - i,
    {
        let e = unit_entry(i);
        if str_eq(e.name, name) {
            return Some((e.dim, e.num, e.den));
        }
        proof {
            lemma_find_unit_skip(t, name@, i as int);
        }
        i = i + 1;
    }
    assert(t.skip(i as int).len() == 0);
    None
}

/// The four temperature units, converted by an affine map.
pub open spec fn is_temperature_name(name: Seq<char>) -> bool {
    name == "C"@ || name == "F"@ || name == "K"@ || name == "R"@
}

/// Whether a unit name is one of the temperature units C, F, K, R.
/// The answer is always present.
pub fn is_temperature_unit(name: &str) -> (r: Option<bool>)
    ensures
        r == Some(is_temperature_name(name@)),
{
    Some(str_eq(name, "C") || str_eq(name, "F") || str_eq(name, "K") || str_eq(name, "R"))
}

/// The names of all linear units, in table order (temperatures excluded).
pub fn all_unit_names() -> (names: Vec<&'static str>)
    ensures
        names@.len() == spec_linear_units().len(),
        forall|i: int| 0 <= i < names@.len() ==> #[trigger] names@[i]@ == spec_linear_units()[i].0,
{
    let ghost t = spec_linear_units();
    let mut names: Vec<&'static str> = Vec::new();
    let mut i: usize = 0;
    while i < LINEAR_UNIT_COUNT
        invariant
            t == spec_linear_units(),
            i <= t.len(),
            names@.len() == i,
            forall|k: int| 0 <= k < i ==> #[trigger] names@[k]@ == t[k].0,
        decreases LINEAR_UNIT_COUNT - i,
    {
        names.push(unit_entry(i).name);
        i = i + 1;
    }
    names
}

} // verus!
