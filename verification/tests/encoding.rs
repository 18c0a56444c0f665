use gif2asm::convert::encode;
use gif2asm::frame::Frame;
use gif2asm::hex::push_hex;
use gif2asm::directive::push_byte_line;
use gif2asm::palette::Palette;
use gif2asm::sinks::{select_outputs, Sinks};

fn two_colours() -> Palette {
    Palette::new(vec![255, 0, 0, 0, 255, 0]).unwrap()
}

#[test]
fn hex_digits_are_upper_case_and_two_wide() {
    let mut out = String::new();
    push_hex(&mut out, 0x00);
    push_hex(&mut out, 0x0a);
    push_hex(&mut out, 0xff);
    push_hex(&mut out, 0x9c);
    assert_eq!(out, "000AFF9C");
}

#[test]
fn byte_line_separates_by_commas_without_a_trailing_one() {
    let mut out = String::from("x");
    push_byte_line(&mut out, &[1, 2, 3, 0xab, 5], 1, 3, true);
    assert_eq!(out, "x.byte $02, $03, $AB\n");
    let mut plain = String::new();
    push_byte_line(&mut plain, &[1, 2], 0, 2, false);
    assert_eq!(plain, ".byte 01, 02\n");
}

#[test]
fn byte_line_of_one_value_and_of_none() {
    let mut out = String::new();
    push_byte_line(&mut out, &[7], 0, 1, true);
    assert_eq!(out, ".byte $07\n");
    let mut none = String::new();
    push_byte_line(&mut none, &[7], 1, 0, true);
    assert_eq!(none, ".byte\n");
}

#[test]
fn palette_rejects_broken_triples() {
    assert!(Palette::new(vec![1, 2, 3, 4]).is_none());
    assert!(Palette::new(vec![0; 771]).is_none());
    assert!(Palette::new(vec![0; 768]).is_some());
    assert!(Palette::new(Vec::new()).is_some());
}

#[test]
fn palette_entries_and_channels() {
    let p = two_colours();
    assert_eq!(p.entries(), 2);
    assert_eq!(p.rgb(), &[255, 0, 0, 0, 255, 0]);
}

#[test]
fn palette_bytes_are_size_then_bgr0() {
    let mut out = Vec::new();
    two_colours().write_bytes(&mut out);
    assert_eq!(out, vec![2, 0, 0, 255, 0, 0, 255, 0, 0]);
}

#[test]
fn palette_bytes_reorder_each_entry() {
    let p = Palette::new(vec![1, 2, 3, 4, 5, 6, 7, 8, 9]).unwrap();
    let mut out = vec![0xee];
    p.write_bytes(&mut out);
    assert_eq!(out, vec![0xee, 3, 3, 2, 1, 0, 6, 5, 4, 0, 9, 8, 7, 0]);
}

#[test]
fn palette_text_has_both_headers() {
    let mut out = String::new();
    two_colours().write_text(&mut out, "pic");
    assert_eq!(
        out,
        "\npic_clut_size:\n.byte 02\n\npic_clut:\n.byte $00, $00, $FF, $00\n.byte $00, $FF, $00, $00\n"
    );
}

#[test]
fn palette_of_256_entries_wraps_size_to_zero() {
    let mut rgb = Vec::new();
    for i in 0..256usize {
        rgb.push(i as u8);
        rgb.push(0);
        rgb.push(255 - i as u8);
    }
    let p = Palette::new(rgb).unwrap();
    assert_eq!(p.entries(), 256);
    let mut out = Vec::new();
    p.write_bytes(&mut out);
    assert_eq!(out.len(), 1 + 4 * 256);
    assert_eq!(out[0], 0);
    assert_eq!(&out[1..5], &[255, 0, 0, 0]);
    assert_eq!(&out[1 + 4 * 255..], &[0, 0, 255, 0]);
    let mut text = String::new();
    p.write_text(&mut text, "w");
    assert!(text.starts_with("\nw_clut_size:\n.byte 00\n\nw_clut:\n.byte $FF, $00, $00, $00\n"));
    assert_eq!(text.lines().filter(|l| l.starts_with(".byte $")).count(), 256);
}

#[test]
fn empty_palette_keeps_size_byte_and_header() {
    let p = Palette::new(Vec::new()).unwrap();
    let mut out = Vec::new();
    p.write_bytes(&mut out);
    assert_eq!(out, vec![0]);
    let mut text = String::new();
    p.write_text(&mut text, "e");
    assert_eq!(text, "\ne_clut_size:\n.byte 00\n\ne_clut:\n");
}

#[test]
fn frame_rejects_wrong_pixel_count() {
    assert!(Frame::new(2, 2, vec![0, 1, 2]).is_none());
    assert!(Frame::new(2, 2, vec![0, 1, 2, 3, 4]).is_none());
    assert!(Frame::new(0, 5, Vec::new()).is_some());
    assert!(Frame::new(0, 0, vec![1]).is_none());
}

#[test]
fn frame_getters() {
    let f = Frame::new(3, 2, vec![1, 2, 3, 4, 5, 6]).unwrap();
    assert_eq!(f.width(), 3);
    assert_eq!(f.height(), 2);
    assert_eq!(f.pixels(), &[1, 2, 3, 4, 5, 6]);
}

#[test]
fn frame_bytes_are_header_then_pixels() {
    let f = Frame::new(2, 1, vec![0, 1]).unwrap();
    let mut out = Vec::new();
    f.write_bytes(&mut out);
    assert_eq!(out, vec![2, 0, 1, 0, 0, 1]);
}

#[test]
fn frame_width_256_splits_into_low_and_high() {
    let f = Frame::new(256, 1, vec![9; 256]).unwrap();
    let mut out = Vec::new();
    f.write_bytes(&mut out);
    assert_eq!(&out[..4], &[0, 1, 1, 0]);
    assert_eq!(out[0] as u32 + 256 * out[1] as u32, 256);
    assert_eq!(&out[4..], &[9u8; 256][..]);
    let mut text = String::new();
    f.write_text(&mut text, "wide");
    assert!(text.starts_with("\nwide_img_size:\n.byte 00, 01\n.byte 01, 00\n\nwide_img:\n.byte $09,"));
}

#[test]
fn frame_dimensions_decode_back() {
    let f = Frame::new(0x0203, 0, Vec::new()).unwrap();
    let mut out = Vec::new();
    f.write_bytes(&mut out);
    assert_eq!(out, vec![3, 2, 0, 0]);
    let g = Frame::new(1, 0x0104, vec![0; 0x0104]).unwrap();
    let mut out = Vec::new();
    g.write_bytes(&mut out);
    assert_eq!(&out[..4], &[1, 0, 4, 1]);
}

#[test]
fn frame_text_lists_one_row_per_line() {
    let f = Frame::new(3, 2, vec![1, 2, 3, 0x0a, 0x0b, 0x0c]).unwrap();
    let mut out = String::new();
    f.write_text(&mut out, "pic");
    assert_eq!(
        out,
        "\npic_img_size:\n.byte 03, 00\n.byte 02, 00\n\npic_img:\n.byte $01, $02, $03\n.byte $0A, $0B, $0C\n"
    );
}

#[test]
fn last_pixel_of_each_row_comes_from_that_row() {
    let f = Frame::new(2, 3, vec![10, 11, 20, 21, 30, 31]).unwrap();
    let mut out = String::new();
    f.write_text(&mut out, "r");
    let rows: Vec<&str> = out.lines().filter(|l| l.starts_with(".byte $")).collect();
    assert_eq!(rows, vec![".byte $0A, $0B", ".byte $14, $15", ".byte $1E, $1F"]);
}

#[test]
fn frame_of_width_one() {
    let f = Frame::new(1, 2, vec![5, 6]).unwrap();
    let mut out = String::new();
    f.write_text(&mut out, "n");
    assert_eq!(out, "\nn_img_size:\n.byte 01, 00\n.byte 02, 00\n\nn_img:\n.byte $05\n.byte $06\n");
}

#[test]
fn frame_without_rows_has_headers_only() {
    let f = Frame::new(4, 0, Vec::new()).unwrap();
    let mut out = String::new();
    f.write_text(&mut out, "z");
    assert_eq!(out, "\nz_img_size:\n.byte 04, 00\n.byte 00, 00\n\nz_img:\n");
}

#[test]
fn listing_literals_reproduce_the_binary_table() {
    let p = Palette::new(vec![0x12, 0x34, 0x56, 0x9a, 0xbc, 0xde]).unwrap();
    let mut text = String::new();
    p.write_text(&mut text, "c");
    let mut bytes = Vec::new();
    p.write_bytes(&mut bytes);
    let mut read = Vec::new();
    for line in text.lines().filter(|l| l.starts_with(".byte")) {
        for item in line[5..].split(',') {
            let digits = item.trim().trim_start_matches('$');
            read.push(u8::from_str_radix(digits, 16).unwrap());
        }
    }
    assert_eq!(read, bytes);
}

#[test]
fn listing_literals_reproduce_the_binary_frame() {
    let f = Frame::new(3, 2, vec![0, 0x7f, 0x80, 0xff, 0x10, 0x01]).unwrap();
    let mut text = String::new();
    f.write_text(&mut text, "c");
    let mut bytes = Vec::new();
    f.write_bytes(&mut bytes);
    let mut read = Vec::new();
    for line in text.lines().filter(|l| l.starts_with(".byte")) {
        for item in line[5..].split(',') {
            let digits = item.trim().trim_start_matches('$');
            read.push(u8::from_str_radix(digits, 16).unwrap());
        }
    }
    assert_eq!(read, bytes);
}

#[test]
fn default_output_is_the_listing() {
    assert_eq!(select_outputs(false, false), (true, false));
    assert_eq!(select_outputs(true, false), (true, false));
    assert_eq!(select_outputs(false, true), (false, true));
    assert_eq!(select_outputs(true, true), (true, true));
}

#[test]
fn switched_off_outputs_stay_absent() {
    let f = Frame::new(1, 1, vec![3]).unwrap();
    let mut only_text = Sinks::open(true, false);
    only_text.write_palette("p", &two_colours());
    only_text.write_frame("p", &f);
    assert!(only_text.listing.is_some());
    assert!(only_text.clut.is_none());
    assert!(only_text.img.is_none());
    let mut only_bin = Sinks::open(false, true);
    only_bin.write_palette("p", &two_colours());
    only_bin.write_frame("p", &f);
    assert!(only_bin.listing.is_none());
    assert_eq!(only_bin.clut, Some(vec![2, 0, 0, 255, 0, 0, 255, 0, 0]));
    assert_eq!(only_bin.img, Some(vec![1, 0, 1, 0, 3]));
}

#[test]
fn palette_goes_to_the_table_and_frames_to_the_image() {
    let f = Frame::new(2, 1, vec![0, 1]).unwrap();
    let p = two_colours();
    let out = encode("pic", true, true, Some(&p), &[f]);
    assert_eq!(out.clut, Some(vec![2, 0, 0, 255, 0, 0, 255, 0, 0]));
    assert_eq!(out.img, Some(vec![2, 0, 1, 0, 0, 1]));
    assert_eq!(
        out.listing.unwrap(),
        "\npic_clut_size:\n.byte 02\n\npic_clut:\n.byte $00, $00, $FF, $00\n.byte $00, $FF, $00, $00\n\
         \npic_img_size:\n.byte 02, 00\n.byte 01, 00\n\npic_img:\n.byte $00, $01\n"
    );
}

#[test]
fn no_palette_leaves_the_table_empty() {
    let f = Frame::new(1, 1, vec![0]).unwrap();
    let out = encode("n", true, true, None, &[f]);
    assert_eq!(out.clut, Some(Vec::new()));
    assert_eq!(out.listing.unwrap(), "\nn_img_size:\n.byte 01, 00\n.byte 01, 00\n\nn_img:\n.byte $00\n");
}

#[test]
fn frames_repeat_the_same_labels() {
    let a = Frame::new(1, 1, vec![1]).unwrap();
    let b = Frame::new(2, 1, vec![2, 3]).unwrap();
    let out = encode("m", true, true, None, &[a, b]);
    assert_eq!(out.img, Some(vec![1, 0, 1, 0, 1, 2, 0, 1, 0, 2, 3]));
    assert_eq!(
        out.listing.unwrap(),
        "\nm_img_size:\n.byte 01, 00\n.byte 01, 00\n\nm_img:\n.byte $01\n\
         \nm_img_size:\n.byte 02, 00\n.byte 01, 00\n\nm_img:\n.byte $02, $03\n"
    );
}

#[test]
fn encoding_twice_gives_the_same_outputs() {
    let p = two_colours();
    let first = encode("t", true, true, Some(&p), &[Frame::new(2, 1, vec![0, 1]).unwrap()]);
    let second = encode("t", true, true, Some(&p), &[Frame::new(2, 1, vec![0, 1]).unwrap()]);
    assert_eq!(first.listing, second.listing);
    assert_eq!(first.clut, second.clut);
    assert_eq!(first.img, second.img);
}
