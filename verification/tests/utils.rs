use amberol::song::Rgb;
use amberol::utils::{
    cmp_like_nautilus, cmp_two_files, color_format, format_remaining_time, format_time,
    load_palette, sorts_last, ColorFormat, Comparison,
};

#[test]
fn times_are_minutes_and_seconds() {
    assert_eq!(format_time(0), "0:00");
    assert_eq!(format_time(5), "0:05");
    assert_eq!(format_time(59), "0:59");
    assert_eq!(format_time(60), "1:00");
    assert_eq!(format_time(75), "1:15");
    assert_eq!(format_time(600), "10:00");
    assert_eq!(format_time(3725), "62:05");
    assert_eq!(format_time(i64::MAX), "153722867280912930:07");
}

#[test]
fn times_match_the_usual_formatting() {
    let mut samples: Vec<i64> = (-200..400).collect();
    samples.extend([i64::MIN, i64::MIN + 1, i64::MAX, -3600, 3600, 86_399, -86_399]);
    for t in samples {
        let minutes = if t == i64::MIN { t / 60 } else { (t - (t % 60)) / 60 };
        assert_eq!(format_time(t), format!("{}:{:02}", minutes, t % 60), "for {t}");
    }
}

#[test]
fn negative_times() {
    assert_eq!(format_time(-5), "0:-5");
    assert_eq!(format_time(-60), "-1:00");
    assert_eq!(format_time(-65), "-1:-5");
    assert_eq!(format_time(-75), "-1:-15");
}

#[test]
fn remaining_times_carry_mark_and_minus() {
    assert_eq!(format_remaining_time(75), "\u{200e}\u{2212}1:15");
    assert_eq!(format_remaining_time(0), "\u{200e}\u{2212}0:00");
}

#[test]
fn hidden_names_sort_last() {
    assert!(sorts_last(".hidden"));
    assert!(sorts_last("#backup#"));
    assert!(!sorts_last("normal"));
    assert!(!sorts_last(""));
    assert!(!sorts_last("a.b"));
    assert_eq!(cmp_like_nautilus("a", ".a", Comparison::Greater), Comparison::Less);
    assert_eq!(cmp_like_nautilus(".a", "a", Comparison::Less), Comparison::Greater);
    assert_eq!(cmp_like_nautilus("#a", "b", Comparison::Less), Comparison::Greater);
    assert_eq!(cmp_like_nautilus(".a", "#b", Comparison::Less), Comparison::Less);
    assert_eq!(cmp_like_nautilus("a", "b", Comparison::Greater), Comparison::Greater);
    assert_eq!(cmp_like_nautilus("a", "a", Comparison::Equal), Comparison::Equal);
}

#[test]
fn files_rank_by_folder_then_by_name() {
    assert_eq!(
        cmp_two_files("x", "y", Comparison::Less, "b", "a", Comparison::Greater),
        Comparison::Less
    );
    assert_eq!(
        cmp_two_files("x", "x", Comparison::Equal, "b", "a", Comparison::Greater),
        Comparison::Greater
    );
    assert_eq!(
        cmp_two_files("x", "x", Comparison::Equal, "b", ".a", Comparison::Greater),
        Comparison::Less
    );
    assert_eq!(
        cmp_two_files(".x", "y", Comparison::Less, "a", "b", Comparison::Less),
        Comparison::Greater
    );
}

#[test]
fn color_formats() {
    assert_eq!(color_format(true), ColorFormat::Rgba);
    assert_eq!(color_format(false), ColorFormat::Rgb);
}

#[test]
fn palette_of_a_two_coloured_picture() {
    let mut pixels = Vec::new();
    for i in 0..4000 {
        if i % 2 == 0 {
            pixels.extend_from_slice(&[200, 30, 30]);
        } else {
            pixels.extend_from_slice(&[20, 40, 220]);
        }
    }
    let palette = load_palette(&pixels, false).unwrap();
    assert!(!palette.is_empty() && palette.len() <= 4);
    let expected: Vec<Rgb> = color_thief::get_palette(&pixels, color_thief::ColorFormat::Rgb, 5, 4)
        .unwrap()
        .iter()
        .map(|c| Rgb { r: c.r, g: c.g, b: c.b })
        .collect();
    assert_eq!(palette, expected);
    let with_alpha: Vec<u8> = pixels.chunks(3).flat_map(|p| [p[0], p[1], p[2], 255]).collect();
    let palette = load_palette(&with_alpha, true).unwrap();
    assert!(palette.iter().any(|c| c.r > 150 && c.b < 100));
}
