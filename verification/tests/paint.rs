use arcus::color::Color;
use arcus::paint::colorize_line;

fn rgb(r: u8, g: u8, b: u8) -> Color {
    Color::new(r, g, b)
}

#[test]
fn each_character_gets_its_own_escape_sequence() {
    let anchors = vec![rgb(0, 0, 0), rgb(255, 255, 255)];
    let out = colorize_line(&anchors, "ab");
    assert_eq!(
        out,
        "\u{1b}[38;2;0;0;0ma\u{1b}[0m\u{1b}[38;2;127;127;127mb\u{1b}[0m"
    );
}

#[test]
fn painted_output_matches_ansi_term() {
    let anchors = vec![rgb(10, 20, 30), rgb(10, 20, 30)];
    let out = colorize_line(&anchors, "x");
    let expected = ansi_term::Colour::RGB(10, 20, 30).paint("x").to_string();
    assert_eq!(out, expected);
}

#[test]
fn empty_input_paints_nothing() {
    let anchors = vec![rgb(1, 2, 3), rgb(4, 5, 6)];
    assert_eq!(colorize_line(&anchors, ""), "");
}

#[test]
fn combining_mark_stays_in_one_cluster() {
    // "a" + COMBINING ACUTE ACCENT is one grapheme cluster of two code
    // points; it must receive one color and "b" the next.
    let anchors = vec![rgb(0, 0, 0), rgb(200, 0, 0)];
    let out = colorize_line(&anchors, "a\u{0301}b");
    assert_eq!(
        out,
        "\u{1b}[38;2;0;0;0ma\u{0301}\u{1b}[0m\u{1b}[38;2;100;0;0mb\u{1b}[0m"
    );
}

#[test]
fn emoji_cluster_counts_as_one_position() {
    // The flag is two code points (regional indicators) but one cluster:
    // two clusters in all, so the gradient has exactly two positions.
    let anchors = vec![rgb(0, 0, 0), rgb(80, 0, 0)];
    let out = colorize_line(&anchors, "🇷🇺x");
    assert_eq!(
        out,
        "\u{1b}[38;2;0;0;0m🇷🇺\u{1b}[0m\u{1b}[38;2;40;0;0mx\u{1b}[0m"
    );
}

#[test]
fn newline_is_painted_like_any_cluster() {
    let anchors = vec![rgb(9, 9, 9), rgb(9, 9, 9)];
    let out = colorize_line(&anchors, "a\n");
    assert_eq!(
        out,
        "\u{1b}[38;2;9;9;9ma\u{1b}[0m\u{1b}[38;2;9;9;9m\n\u{1b}[0m"
    );
}
