use mathlib::canvas::Canvas;
use mathlib::ppm::Rgb;

// The channel bytes below are the original colors already clamped the way
// the encoding rule demands: a channel below 0 becomes 0, one above the
// maximum becomes 255, anything else is floor(value * 256) saturated to a
// byte.

#[test]
fn ppm_corret_headers_ppm() {
    let (w, h) = (5, 3);
    let canvas: Canvas<Rgb> = Canvas::new(w, h, Rgb::new(0, 0, 0));
    let string = canvas.canvas_to_ppm();
    let exp = format!("P3\n# automatically generated plain ppm file\n{w} {h}\n255\n");
    assert!(string.starts_with(&exp));
}

#[test]
fn ppm_correct_output_ppm() {
    let (w, h) = (5, 3);
    let mut canvas: Canvas<Rgb> = Canvas::new(w, h, Rgb::new(0, 0, 0));
    // Col(1.5, 0.0, 0.0) clamped
    canvas.write_px(0, 0, Rgb::new(255, 0, 0));
    // Col(0.0, 0.5, 0.0) clamped
    canvas.write_px(2, 1, Rgb::new(0, 128, 0));
    // Col(-0.5, 0.0, 1.0) clamped
    canvas.write_px(4, 2, Rgb::new(0, 0, 255));
    let result = canvas.canvas_to_ppm();

    let l1 = format!("P3\n# automatically generated plain ppm file\n{w} {h}\n255\n");
    let l2 = "255 0 0  0 0 0  0 0 0  0 0 0  0 0 0  \n\n";
    let l3 = "0 0 0  0 0 0  0 128 0  0 0 0  0 0 0  \n\n";
    let l4 = "0 0 0  0 0 0  0 0 0  0 0 0  0 0 255  \n";
    let exp = l1 + l2 + l3 + l4;
    assert_eq!(exp, result);
}

#[test]
fn newline_after_5_colors_ppm() {
    let (w, h) = (11, 1);
    let canvas: Canvas<Rgb> = Canvas::new(w, h, Rgb::new(255, 255, 255));
    let result = canvas.canvas_to_ppm();

    let l1 = format!("P3\n# automatically generated plain ppm file\n{w} {h}\n255\n");
    let l2 = "255 255 255  255 255 255  255 255 255  255 255 255  255 255 255  \n";
    let l3 = "255 255 255  255 255 255  255 255 255  255 255 255  255 255 255  \n";
    let l4 = "255 255 255  \n";
    let exp = l1 + l2 + l3 + l4;
    assert_eq!(exp, result);
}

#[test]
fn ppm_of_empty_canvas_is_header_only() {
    let canvas: Canvas<Rgb> = Canvas::new(0, 0, Rgb::new(0, 0, 0));
    let result = canvas.canvas_to_ppm();
    assert_eq!(result, "P3\n# automatically generated plain ppm file\n0 0\n255\n");
}

#[test]
fn ppm_header_writes_multi_digit_dimensions() {
    let canvas: Canvas<Rgb> = Canvas::new(120, 45, Rgb::new(0, 0, 0));
    let result = canvas.canvas_to_ppm();
    assert!(result.starts_with("P3\n# automatically generated plain ppm file\n120 45\n255\n"));
}

#[test]
fn row_pixels_are_rgba_with_opaque_alpha() {
    let mut canvas: Canvas<Rgb> = Canvas::new(3, 2, Rgb::new(0, 0, 0));
    canvas.write_px(0, 1, Rgb::new(10, 20, 30));
    canvas.write_px(2, 1, Rgb::new(7, 8, 9));
    let row = canvas.get_row_pixels(1);
    assert_eq!(
        row,
        vec![10, 20, 30, 255, 0, 0, 0, 255, 7, 8, 9, 255]
    );
    let top = canvas.get_row_pixels(0);
    assert_eq!(top, vec![0, 0, 0, 255, 0, 0, 0, 255, 0, 0, 0, 255]);
}
