//! Where a picture was taken.
use vstd::prelude::*;

use crate::metadata::curated;
use crate::metadata::fields;
use crate::metadata::fields::Ratio;

verus! {

/// An angle in degrees, minutes and seconds, and the side of the equator or
/// of the zero meridian that it is on: negative to the south and the west.
#[derive(Debug, Clone, Copy, PartialEq, Eq, Structural)]
pub struct Angle {
    pub degrees: Ratio,
    pub minutes: Ratio,
    pub seconds: Ratio,
    pub negative: bool,
}

/// A height in metres over or under the sea.
#[derive(Debug, Clone, Copy, PartialEq, Eq, Structural)]
pub struct Altitude {
    pub metres: Ratio,
    pub below_sea_level: bool,
}

/// Where a picture was taken.
#[derive(Debug, Clone, Copy, PartialEq, Eq, Structural)]
pub struct Location {
    pub latitude: Angle,
    pub longitude: Angle,
    pub altitude: Option<Altitude>,
}

/// A capital or small ASCII letter, as the capital one.
pub open spec fn capital(b: u8) -> int {
    if 0x61 <= b <= 0x7a {
        b - 0x20
    } else {
        b as int
    }
}

/// The angle that three fractions and the bytes of a hemisphere tag stand for.
/// `letter` is the negative hemisphere's, a capital.
pub open spec fn angle_of(dms: Seq<Ratio>, hemisphere: Option<Seq<u8>>, letter: u8) -> Option<
    Angle,
> {
    if dms.len() != 3 || dms[0].denom == 0 || dms[1].denom == 0 || dms[2].denom == 0 {
        None
    } else {
        Some(
            Angle {
                degrees: dms[0],
                minutes: dms[1],
                seconds: dms[2],
                negative: match hemisphere {
                    Some(h) => h.len() > 0 && capital(h[0]) == letter,
                    None => false,
                },
            },
        )
    }
}

/// The angle that three fractions and the bytes of a hemisphere tag stand for.
pub fn angle(dms: &[Ratio], hemisphere: Option<&[u8]>, letter: u8) -> (r: Option<Angle>)
    ensures
        r == angle_of(dms@, fields::bytes_in(hemisphere), letter),
{
    if dms.len() != 3 || dms[0].denom == 0 || dms[1].denom == 0 || dms[2].denom == 0 {
        return None;
    }
    let negative = match hemisphere {
        Some(h) => h.len() > 0 && (if 0x61 <= h[0] && h[0] <= 0x7a {
            h[0] - 0x20
        } else {
            h[0]
        }) == letter,
        None => false,
    };
    Some(Angle { degrees: dms[0], minutes: dms[1], seconds: dms[2], negative })
}

/// The height that a fraction and the reference tag stand for: the reference 1
/// is below the sea.
pub open spec fn altitude_of(metres: Option<Ratio>, reference: Option<u32>) -> Option<Altitude> {
    match metres {
        Some(m) => if m.denom == 0 {
            None
        } else {
            Some(Altitude { metres: m, below_sea_level: reference == Some(1u32) })
        },
        None => None,
    }
}

/// The height that a fraction and the reference tag stand for.
pub fn altitude(metres: Option<Ratio>, reference: Option<u32>) -> (r: Option<Altitude>)
    ensures
        r == altitude_of(metres, reference),
{
    match metres {
        Some(m) => if m.denom == 0 {
            None
        } else {
            let below_sea_level = match reference {
                Some(v) => v == 1,
                None => false,
            };
            Some(Altitude { metres: m, below_sea_level })
        },
        None => None,
    }
}

/// How a position reads, "-8.4095, 115.1889", given the two numbers.
pub fn position_text(latitude: &str, longitude: &str) -> (r: String)
    ensures
        r@ == latitude@ + seq![',', ' '] + longitude@,
{
    let mut out = latitude.to_owned();
    out.push(',');
    out.push(' ');
    out.append(longitude);
    assert(out@ =~= latitude@ + seq![',', ' '] + longitude@);
    out
}

/// How a height reads, "12 m" or "-3 m", given the number.
pub fn altitude_text(number: &str) -> (r: String)
    ensures
        r@ == curated::without_zeros(number@) + seq![' ', 'm'],
{
    let mut out = curated::trim_decimal(number);
    out.push(' ');
    out.push('m');
    assert(out@ =~= curated::without_zeros(number@) + seq![' ', 'm']);
    out
}

/// The page of OpenStreetMap with a marker at a position.
pub open spec fn map_page(latitude: Seq<char>, longitude: Seq<char>) -> Seq<char> {
    "https://www.openstreetmap.org/?mlat="@ + latitude + "&mlon="@ + longitude + "#map=16/"@
        + latitude + "/"@ + longitude
}

/// The page of OpenStreetMap with a marker at a position, given the two
/// numbers.
pub fn map_url(latitude: &str, longitude: &str) -> (r: String)
    ensures
        r@ == map_page(latitude@, longitude@),
{
    let mut out = "https://www.openstreetmap.org/?mlat=".to_owned();
    out.append(latitude);
    out.append("&mlon=");
    out.append(longitude);
    out.append("#map=16/");
    out.append(latitude);
    out.append("/");
    out.append(longitude);
    out
}

} // verus!
