use calpersonal::weather::{get_weather_icon, CLEAR_SKY, CLOUDS, MIST, THUNDERSTORM};

#[test]
fn icon_for_day_and_night() {
    assert_eq!(get_weather_icon("01d".to_string()), CLEAR_SKY);
    assert_eq!(get_weather_icon("01n".to_string()), CLEAR_SKY);
    assert_eq!(
        get_weather_icon("01d".to_string()),
        "\n   \\   /  \n    .-.    \n \u{2015} (   ) \u{2015}\n    `-\u{2019}\n   /   \\ \n"
    );
}

#[test]
fn icons_that_share_a_picture() {
    assert_eq!(get_weather_icon("03d".to_string()), CLOUDS);
    assert_eq!(get_weather_icon("04n".to_string()), CLOUDS);
    assert_eq!(get_weather_icon("04n".to_string()), "\n\n   .-.   \n  (   ). \n (___(__)\n \n");
}

#[test]
fn icons_with_their_own_picture() {
    assert_eq!(get_weather_icon("11d".to_string()), THUNDERSTORM);
    assert_eq!(get_weather_icon("50n".to_string()), MIST);
    assert_eq!(
        get_weather_icon("50n".to_string()),
        "\n\n_ - _ - _ \n _ - _ - _ \n_ - _ - _ \n\n"
    );
}

#[test]
fn unknown_icon_has_no_picture() {
    assert_eq!(get_weather_icon("".to_string()), "");
    assert_eq!(get_weather_icon("01x".to_string()), "");
    assert_eq!(get_weather_icon("99d".to_string()), "");
    assert_eq!(get_weather_icon("01dd".to_string()), "");
}
