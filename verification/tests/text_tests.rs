use snake_server::color::Rgb;
use snake_server::text::u64_to_string;

#[test]
fn decimal_rendering_is_exact() {
    assert_eq!(u64_to_string(0), "0");
    assert_eq!(u64_to_string(7), "7");
    assert_eq!(u64_to_string(10), "10");
    assert_eq!(u64_to_string(12_345), "12345");
    assert_eq!(u64_to_string(u64::MAX), "18446744073709551615");
}

#[test]
fn random_colors_come_from_their_palettes() {
    for _ in 0..20 {
        let c = Rgb::random();
        let common = [
            Rgb(255, 0, 0),
            Rgb(0, 255, 0),
            Rgb(0, 0, 255),
            Rgb(255, 255, 0),
            Rgb(0, 255, 255),
            Rgb(255, 0, 255),
            Rgb(255, 165, 0),
            Rgb(128, 0, 128),
            Rgb(255, 192, 203),
            Rgb(165, 42, 42),
            Rgb(0, 0, 0),
            Rgb(255, 255, 255),
            Rgb(128, 128, 128),
        ];
        assert!(common.contains(&c));
        let f = Rgb::random_food();
        let food = [
            Rgb(255, 0, 0),
            Rgb(0, 255, 0),
            Rgb(0, 0, 255),
            Rgb(255, 255, 0),
            Rgb(255, 192, 203),
        ];
        assert!(food.contains(&f));
    }
}
