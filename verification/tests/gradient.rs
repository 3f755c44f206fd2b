use arcus::color::Color;
use arcus::gradient::calculate_delta;
use arcus::gradient::interpolate;

fn rgb(r: u8, g: u8, b: u8) -> Color {
    Color::new(r, g, b)
}

#[test]
fn black_to_white_over_four_positions() {
    let anchors = vec![rgb(0, 0, 0), rgb(255, 255, 255)];
    let out = interpolate(&anchors, 4);
    assert_eq!(
        out,
        vec![
            rgb(0, 0, 0),
            rgb(63, 63, 63),
            rgb(127, 127, 127),
            rgb(191, 191, 191),
        ]
    );
}

#[test]
fn minimum_input_two_anchors_length_one() {
    let anchors = vec![rgb(10, 20, 30), rgb(200, 100, 50)];
    let out = interpolate(&anchors, 1);
    assert_eq!(out, vec![rgb(10, 20, 30)]);
}

#[test]
fn length_zero_yields_empty_output() {
    let anchors = vec![rgb(1, 2, 3), rgb(4, 5, 6)];
    let out = interpolate(&anchors, 0);
    assert_eq!(out, Vec::new());
}

#[test]
fn length_equals_output_count_for_many_shapes() {
    let anchors3 = vec![rgb(0, 0, 0), rgb(100, 0, 0), rgb(0, 100, 0)];
    for length in 0..40usize {
        assert_eq!(interpolate(&anchors3, length).len(), length);
    }
    let anchors5 = vec![
        rgb(0, 0, 0),
        rgb(50, 0, 0),
        rgb(0, 50, 0),
        rgb(0, 0, 50),
        rgb(25, 25, 25),
    ];
    for length in 0..40usize {
        assert_eq!(interpolate(&anchors5, length).len(), length);
    }
}

#[test]
fn first_color_is_first_anchor() {
    let anchors = vec![rgb(7, 8, 9), rgb(200, 10, 0), rgb(0, 0, 255)];
    let out = interpolate(&anchors, 11);
    assert_eq!(out[0], rgb(7, 8, 9));
}

#[test]
fn remainder_tail_repeats_last_anchor() {
    // 7 positions over 2 segments: size 3, remainder 1.
    let anchors = vec![rgb(0, 0, 0), rgb(90, 90, 90), rgb(30, 60, 120)];
    let out = interpolate(&anchors, 7);
    assert_eq!(out.len(), 7);
    assert_eq!(out[6], rgb(30, 60, 120));
}

#[test]
fn fewer_positions_than_segments_all_show_last_anchor() {
    let anchors = vec![rgb(1, 1, 1), rgb(2, 2, 2), rgb(3, 3, 3), rgb(9, 9, 9)];
    let out = interpolate(&anchors, 2);
    assert_eq!(out, vec![rgb(9, 9, 9), rgb(9, 9, 9)]);
}

#[test]
fn channels_move_monotonically_within_a_segment() {
    // One segment of 20 positions, rising red, falling green, flat blue.
    let anchors = vec![rgb(0, 200, 77), rgb(10, 100, 77)];
    let out = interpolate(&anchors, 20);
    for w in out.windows(2) {
        assert!(w[0].r <= w[1].r);
        assert!(w[0].g >= w[1].g);
        assert_eq!(w[0].b, 77);
    }
}

#[test]
fn descending_channel_exact_values() {
    // Delta -255 over 4 positions: 0, -63, -127, -191 from 255.
    let anchors = vec![rgb(255, 0, 0), rgb(0, 0, 0)];
    let out = interpolate(&anchors, 4);
    assert_eq!(
        out,
        vec![rgb(255, 0, 0), rgb(192, 0, 0), rgb(128, 0, 0), rgb(64, 0, 0)]
    );
}

#[test]
fn segments_partition_the_length() {
    // 3 anchors and length 11: two segments of 5, remainder 1.
    let anchors = vec![rgb(0, 0, 0), rgb(100, 100, 100), rgb(200, 200, 200)];
    let out = interpolate(&anchors, 11);
    assert_eq!(out.len(), 11);
    // Segment boundary: position 5 starts the second segment at its anchor.
    assert_eq!(out[5], rgb(100, 100, 100));
    // The single remainder position shows the last anchor.
    assert_eq!(out[10], rgb(200, 200, 200));
}

#[test]
fn delta_is_signed_per_channel_difference() {
    let d = calculate_delta(&rgb(0, 0, 10), &rgb(255, 0, 0));
    assert_eq!(d, (255, 0, -10));
    let d = calculate_delta(&rgb(200, 10, 0), &rgb(10, 10, 200));
    assert_eq!(d, (-190, 0, 200));
}
