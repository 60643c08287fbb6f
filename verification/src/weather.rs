//! Weather reports as the forecast service words them, and the pictures that
//! stand for its icon codes.

use crate::text::chars_of;
use vstd::prelude::*;
use vstd::string::*;

verus! {

/// One condition of a weather report.
pub struct Weather {
    pub main: String,
    pub icon: String,
}

/// A warning issued for the place of a report.
pub struct Alert {
    pub sender_name: String,
    pub event: String,
    pub description: String,
}

/// Clear sky.
pub const CLEAR_SKY: &'static str = "\n   \\   /  \n    .-.    \n \u{2015} (   ) \u{2015}\n    `-\u{2019}\n   /   \\ \n";

/// A few clouds.
pub const FEW_CLOUDS: &'static str = "\n  \\  /      \n_ /\"\".-.    \n  \\_(   ).  \n  /(___(__) \n \n";

/// Scattered, broken or overcast clouds.
pub const CLOUDS: &'static str = "\n\n   .-.   \n  (   ). \n (___(__)\n \n";

/// Shower rain.
pub const SHOWERS: &'static str = "\n   .-.   \n  (   ). \n (___(__)\n  \u{2018} \u{2018} \u{2018} \u{2018}\n \u{2018} \u{2018} \u{2018} \u{2018}\n";

/// Rain.
pub const RAIN: &'static str = "\n   .-.   \n  (   ). \n (___(__)\n ,\u{2018},\u{2018},\u{2018},\u{2018}\n ,\u{2019},\u{2019},\u{2019},\u{2019}\n";

/// Thunderstorm.
pub const THUNDERSTORM: &'static str = "\n   .-.\t\n  ( _ ).  \n (_./ /_)\n \u{2018} \u{2018}/_ ,'\n ,\u{2018},\u{2018}/'\u{2018},\n";

/// Snow.
pub const SNOW: &'static str = "\n   .-.   \n  (   ). \n (___(__)\n  *  *  *\n *  *  *\n";

/// Mist.
pub const MIST: &'static str = "\n\n_ - _ - _ \n _ - _ - _ \n_ - _ - _ \n\n";

/// Whether `code` is an icon code: the two given digits, and `d` for day or
/// `n` for night.
pub open spec fn is_icon_code(code: Seq<char>, tens: char, ones: char) -> bool {
    code.len() == 3 && code[0] == tens && code[1] == ones && (code[2] == 'd' || code[2] == 'n')
}

/// The picture for an icon code; none for a code that is not known.
pub open spec fn weather_art(code: Seq<char>) -> Seq<char> {
    if is_icon_code(code, '0', '1') {
        CLEAR_SKY@
    } else if is_icon_code(code, '0', '2') {
        FEW_CLOUDS@
    } else if is_icon_code(code, '0', '3') || is_icon_code(code, '0', '4') {
        CLOUDS@
    } else if is_icon_code(code, '0', '9') {
        SHOWERS@
    } else if is_icon_code(code, '1', '0') {
        RAIN@
    } else if is_icon_code(code, '1', '1') {
        THUNDERSTORM@
    } else if is_icon_code(code, '1', '3') {
        SNOW@
    } else if is_icon_code(code, '5', '0') {
        MIST@
    } else {
        Seq::empty()
    }
}

/// The picture for an icon code, drawn with characters; empty for a code that
/// is not known.
pub fn get_weather_icon(icon: String) -> (art: String)
    ensures
        art@ == weather_art(icon@),
{
    let code = chars_of(icon.as_str());
    if code.len() != 3 || (code[2] != 'd' && code[2] != 'n') {
        return String::new();
    }
    let tens = code[0];
    let ones = code[1];
    if (tens == '0' && ones == '1') {
        String::from_str(CLEAR_SKY)
    } else if (tens == '0' && ones == '2') {
        String::from_str(FEW_CLOUDS)
    } else if (tens == '0' && ones == '3') || (tens == '0' && ones == '4') {
        String::from_str(CLOUDS)
    } else if (tens == '0' && ones == '9') {
        String::from_str(SHOWERS)
    } else if (tens == '1' && ones == '0') {
        String::from_str(RAIN)
    } else if (tens == '1' && ones == '1') {
        String::from_str(THUNDERSTORM)
    } else if (tens == '1' && ones == '3') {
        String::from_str(SNOW)
    } else if (tens == '5' && ones == '0') {
        String::from_str(MIST)
    } else {
        String::new()
    }
}

} // verus!
