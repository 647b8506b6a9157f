use gate_os::framebuffer::{
    init, is_printable, FrameBufferInfo, FrameBufferWriter, PixelFormat, BORDER_PADDING,
};
use gate_os::vga::{from_ansi, from_index, Color, Palette};
use gate_os::vt::VtEvent;

fn small_info() -> FrameBufferInfo {
    FrameBufferInfo {
        width: 80,
        height: 60,
        stride: 96,
        bytes_per_pixel: 4,
        pixel_format: PixelFormat::Rgb,
    }
}

fn small_terminal() -> FrameBufferWriter {
    let info = small_info();
    init(vec![0xAA; 96 * 60 * 4], info).expect("the geometry fits the buffer")
}

#[test]
fn new_terminal_is_cleared() {
    let term = small_terminal();
    assert_eq!(term.position(), (BORDER_PADDING, BORDER_PADDING));
    assert!(term.buffer().iter().all(|b| *b == 0));
    assert_eq!(term.color(), (Color::White, Color::Black));
    assert!(term.echo());
}

#[test]
fn init_refuses_a_short_buffer() {
    assert!(init(vec![0; 96 * 60 * 4 - 1], small_info()).is_none());
    assert!(init(vec![0; 96 * 60 * 4], small_info()).is_some());
}

#[test]
fn two_letters_newline_letter() {
    let mut term = small_terminal();
    term.write_str("AB\nC");
    assert_eq!(term.column(), 1);
    assert_eq!(term.row(), 1);
    assert_eq!(term.position(), (1 + 7, 1 + 18));
}

#[test]
fn glyph_pixels_are_drawn() {
    let mut term = small_terminal();
    term.write_char('A');
    assert!(term.buffer().iter().any(|b| *b != 0));
    assert_eq!(term.position(), (8, 1));
    // nothing is drawn outside the cell of the glyph
    let info = term.info();
    for y in 0..info.height {
        for x in 0..info.width {
            if x >= 8 || y >= 17 || x == 0 || y == 0 {
                let off = (y * info.stride + x) * 4;
                assert_eq!(&term.buffer()[off..off + 4], &[0, 0, 0, 0]);
            }
        }
    }
}

#[test]
fn printable_bytes() {
    assert!(is_printable(b'a'));
    assert!(is_printable(0x08));
    assert!(is_printable(0x0A));
    assert!(is_printable(0x0D));
    assert!(is_printable(0xFF));
    assert!(!is_printable(0x00));
    assert!(!is_printable(0x1B));
}

#[test]
fn sgr_sets_colors_through_the_parser() {
    let mut term = small_terminal();
    term.write_str("\x1b[31;44m");
    assert_eq!(term.color(), (Color::Red, Color::Blue));
    term.write_str("\x1b[0m");
    assert_eq!(term.color(), (Color::White, Color::Black));
}

fn pixel(term: &FrameBufferWriter, x: usize, y: usize) -> Vec<u8> {
    let info = term.info();
    let off = (y * info.stride + x) * info.bytes_per_pixel;
    term.buffer()[off..off + info.bytes_per_pixel].to_vec()
}

fn raster_of(c: char) -> Vec<Vec<u8>> {
    noto_sans_mono_bitmap::get_raster(
        c,
        noto_sans_mono_bitmap::FontWeight::Regular,
        noto_sans_mono_bitmap::RasterHeight::Size16,
    )
    .expect("the font has the character")
    .raster()
    .iter()
    .map(|row| row.to_vec())
    .collect()
}

fn terminal_of(format: PixelFormat, bytes_per_pixel: usize) -> FrameBufferWriter {
    let info =
        FrameBufferInfo { width: 40, height: 40, stride: 48, bytes_per_pixel, pixel_format: format };
    init(vec![0x11; 48 * 40 * bytes_per_pixel], info).expect("the geometry fits the buffer")
}

#[test]
fn a_glyph_is_blended_into_the_foreground_color() {
    let mut term = terminal_of(PixelFormat::Rgb, 4);
    // light gray is (0xC0, 0xC0, 0xC0), blue is (0, 0, 0x80)
    term.set_color(Color::LightGray, Color::Blue);
    term.write_char('g');
    let raster = raster_of('g');
    assert_eq!(raster.len(), 16);
    let mut strong = 0;
    for (gy, row) in raster.iter().enumerate() {
        assert_eq!(row.len(), 7);
        for (gx, intensity) in row.iter().enumerate() {
            let i = *intensity as u32;
            let expected = if i > 10 {
                let c = (0xC0 * i / 255) as u8;
                strong += 1;
                vec![c, c, c, 0]
            } else {
                vec![0, 0, 0x80, 0]
            };
            assert_eq!(pixel(&term, 1 + gx, 1 + gy), expected);
        }
    }
    assert!(strong > 0);
    // the row of pixels under the glyph is untouched
    assert_eq!(pixel(&term, 1, 17), vec![0, 0, 0, 0]);
}

#[test]
fn pixels_are_laid_out_as_the_format_asks() {
    let raster = raster_of('#');
    let mut bgr = terminal_of(PixelFormat::Bgr, 3);
    bgr.set_color(Color::Brown, Color::Red);
    bgr.write_char('#');
    let mut gray = terminal_of(PixelFormat::U8, 1);
    gray.write_char('#');
    let mut lit = 0;
    for (gy, row) in raster.iter().enumerate() {
        for (gx, intensity) in row.iter().enumerate() {
            let i = *intensity as u32;
            // brown is (0x80, 0x80, 0), red is (0x80, 0, 0)
            let expected = if i > 10 {
                vec![0, (0x80 * i / 255) as u8, (0x80 * i / 255) as u8]
            } else {
                vec![0, 0, 0x80]
            };
            assert_eq!(pixel(&bgr, 1 + gx, 1 + gy), expected);
            assert_eq!(pixel(&gray, 1 + gx, 1 + gy), vec![if i > 200 { 0xf } else { 0 }]);
            if i > 200 {
                lit += 1;
            }
        }
    }
    assert!(lit > 0);
}

#[test]
fn a_character_that_the_font_lacks_moves_the_cursor_like_any_other() {
    let mut term = small_terminal();
    term.write_char('\u{4e2d}');
    assert_eq!(term.position(), (8, 1));
    term.write_byte(0x01);
    assert_eq!(term.position(), (15, 1));
}

#[test]
fn a_full_line_wraps_and_a_full_screen_clears() {
    let mut term = small_terminal();
    // 80 pixels hold eleven glyphs of 7 pixels behind the border
    for _ in 0..11 {
        term.write_char('a');
    }
    assert_eq!(term.position(), (78, 1));
    term.write_char('b');
    assert_eq!(term.position(), (8, 19));
    term.write_byte(b'\r');
    assert_eq!(term.position(), (1, 19));
    term.write_byte(b'\n');
    assert_eq!(term.position(), (1, 37));
    assert!(term.buffer().iter().any(|b| *b != 0));
    // a third line would start at 55, and 55 + 18 passes the height of 60
    term.write_byte(b'\n');
    assert_eq!(term.position(), (1, 55));
    term.write_char('c');
    assert_eq!(term.position(), (8, 1));
    let lit = (0..term.buffer().len()).filter(|k| term.buffer()[*k] != 0).count();
    assert!(lit > 0);
    for y in 17..60 {
        for x in 0..80 {
            assert_eq!(pixel(&term, x, y), vec![0, 0, 0, 0]);
        }
    }
}

#[test]
fn a_line_feed_at_the_bottom_clears_the_screen() {
    let mut term = small_terminal();
    term.write_str("x\n\n\n");
    assert_eq!(term.position(), (1, 55));
    assert!(term.buffer().iter().any(|b| *b != 0));
    term.write_str("\n");
    assert_eq!(term.position(), (1, 1));
    assert!(term.buffer().iter().all(|b| *b == 0));
}

#[test]
fn backspace_erases_the_cell_before_the_cursor() {
    let mut term = small_terminal();
    term.write_str("ab");
    assert_eq!(term.position(), (15, 1));
    term.write_byte(0x08);
    assert_eq!(term.position(), (8, 1));
    for y in 1..17 {
        for x in 8..15 {
            assert_eq!(pixel(&term, x, y), vec![0, 0, 0, 0]);
        }
    }
    assert!((1..17).any(|y| (1..8).any(|x| pixel(&term, x, y) != vec![0, 0, 0, 0])));
    term.write_byte(0x08);
    term.write_byte(0x08);
    assert_eq!(term.position(), (1, 1));
    assert!(term.buffer().iter().all(|b| *b == 0));
}

#[test]
fn cursor_movements_stop_at_the_edges() {
    let mut term = small_terminal();
    term.csi_dispatch(&[5], 'C');
    assert_eq!(term.position(), (6, 1));
    term.csi_dispatch(&[], 'B');
    assert_eq!(term.position(), (6, 2));
    term.csi_dispatch(&[0], 'B');
    assert_eq!(term.position(), (6, 3));
    term.csi_dispatch(&[2], 'D');
    assert_eq!(term.position(), (4, 3));
    term.csi_dispatch(&[1], 'A');
    assert_eq!(term.position(), (4, 2));
    term.csi_dispatch(&[1000], 'A');
    assert_eq!(term.position(), (4, 0));
    term.csi_dispatch(&[1000], 'D');
    assert_eq!(term.position(), (0, 0));
    term.csi_dispatch(&[65535], 'C');
    assert_eq!(term.position(), (79, 0));
    term.csi_dispatch(&[1, 60], 'B');
    assert_eq!(term.position(), (79, 59));
}

#[test]
fn the_cursor_is_placed() {
    let mut term = small_terminal();
    term.csi_dispatch(&[20], 'G');
    assert_eq!(term.position(), (19, 1));
    term.csi_dispatch(&[80], 'G');
    assert_eq!(term.position(), (79, 1));
    term.csi_dispatch(&[81], 'G');
    assert_eq!(term.position(), (79, 1));
    term.csi_dispatch(&[], 'G');
    assert_eq!(term.position(), (0, 1));
    term.csi_dispatch(&[10, 30], 'H');
    assert_eq!(term.position(), (29, 9));
    term.csi_dispatch(&[60, 80, 7], 'H');
    assert_eq!(term.position(), (79, 59));
    term.csi_dispatch(&[61, 1], 'H');
    assert_eq!(term.position(), (79, 59));
    term.csi_dispatch(&[1, 81], 'H');
    assert_eq!(term.position(), (79, 59));
    term.csi_dispatch(&[5], 'H');
    assert_eq!(term.position(), (0, 4));
    term.csi_dispatch(&[0, 0], 'H');
    assert_eq!(term.position(), (0, 0));
    term.write_str("\x1b[3;4H");
    assert_eq!(term.position(), (3, 2));
    term.set_position(10, 20);
    assert_eq!(term.position(), (10, 20));
    term.set_position(80, 20);
    assert_eq!(term.position(), (10, 20));
}

#[test]
fn erase_in_display_clears_only_with_two() {
    let mut term = small_terminal();
    term.write_str("abc");
    term.csi_dispatch(&[0], 'J');
    assert!(term.buffer().iter().any(|b| *b != 0));
    assert_eq!(term.position(), (22, 1));
    term.csi_dispatch(&[2], 'J');
    assert!(term.buffer().iter().all(|b| *b == 0));
    assert_eq!(term.position(), (0, 0));
}

#[test]
fn erase_in_line_paints_the_background() {
    let mut term = small_terminal();
    term.set_color(Color::White, Color::Green);
    term.write_str("abcd");
    term.set_position(10, 1);
    term.csi_dispatch(&[0], 'K');
    assert_eq!(term.position(), (10, 1));
    for y in 1..17 {
        for x in 10..80 {
            assert_eq!(pixel(&term, x, y), vec![0, 0x80, 0, 0]);
        }
    }
    // the first glyph is still there, and the rows outside of the line are as they were
    assert!((1..17).any(|y| (1..8).any(|x| pixel(&term, x, y)[0] != 0)));
    assert_eq!(pixel(&term, 10, 0), vec![0, 0, 0, 0]);
    assert_eq!(pixel(&term, 10, 17), vec![0, 0, 0, 0]);
    // the columns beyond the width are no part of the screen
    let off = (1 * 96 + 80) * 4;
    assert_eq!(&term.buffer()[off..off + 4], &[0, 0, 0, 0]);
    term.csi_dispatch(&[1], 'K');
    assert!((1..17).any(|y| (1..8).any(|x| pixel(&term, x, y)[0] != 0)));
    term.csi_dispatch(&[2], 'K');
    for y in 1..17 {
        for x in 0..80 {
            assert_eq!(pixel(&term, x, y), vec![0, 0x80, 0, 0]);
        }
    }
}

#[test]
fn erase_in_line_stops_at_the_bottom() {
    let mut term = small_terminal();
    term.set_color(Color::White, Color::Red);
    term.set_position(70, 50);
    term.csi_dispatch(&[], 'K');
    for y in 50..60 {
        assert_eq!(pixel(&term, 70, y), vec![0x80, 0, 0, 0]);
        assert_eq!(pixel(&term, 79, y), vec![0x80, 0, 0, 0]);
        assert_eq!(pixel(&term, 69, y), vec![0, 0, 0, 0]);
    }
    assert_eq!(term.buffer().len(), 96 * 60 * 4);
}

#[test]
fn colors_are_selected() {
    let mut term = small_terminal();
    term.csi_dispatch(&[31], 'm');
    assert_eq!(term.color(), (Color::Red, Color::Black));
    term.csi_dispatch(&[44], 'm');
    assert_eq!(term.color(), (Color::White, Color::Blue));
    term.csi_dispatch(&[96, 107], 'm');
    assert_eq!(term.color(), (Color::LightCyan, Color::White));
    term.csi_dispatch(&[96, 107, 0, 33], 'm');
    assert_eq!(term.color(), (Color::Brown, Color::Black));
    term.csi_dispatch(&[1, 38, 98], 'm');
    assert_eq!(term.color(), (Color::White, Color::Black));
    term.csi_dispatch(&[90, 100], 'm');
    assert_eq!(term.color(), (Color::DarkGray, Color::DarkGray));
    term.csi_dispatch(&[], 'm');
    assert_eq!(term.color(), (Color::White, Color::Black));
    for (i, color) in [Color::Black, Color::Blue, Color::Green, Color::Cyan].iter().enumerate() {
        term.set_color(*color, Color::Pink);
        assert_eq!(term.color(), (*color, Color::Pink));
        assert_eq!(color.index(), i);
    }
}

#[test]
fn echo_is_switched_by_parameter_twelve() {
    let mut term = small_terminal();
    term.csi_dispatch(&[12], 'l');
    assert!(!term.echo());
    term.csi_dispatch(&[4], 'h');
    assert!(!term.echo());
    term.csi_dispatch(&[4, 12], 'h');
    assert!(!term.echo());
    term.csi_dispatch(&[12, 4], 'h');
    assert!(term.echo());
    term.csi_dispatch(&[], 'l');
    assert!(term.echo());
    term.disable_echo();
    assert!(!term.echo());
    term.enable_echo();
    assert!(term.echo());
}

#[test]
fn unknown_sequences_change_nothing() {
    let mut term = small_terminal();
    term.write_str("a");
    let before = term.buffer().clone();
    term.csi_dispatch(&[5], 'z');
    term.write_str("\x1b[5n\x1b]0;title\x07");
    assert_eq!(*term.buffer(), before);
    assert_eq!(term.position(), (8, 1));
}

#[test]
fn an_escape_sequence_may_come_in_pieces() {
    let mut term = small_terminal();
    term.write_str("\x1b[3");
    term.write_str("2");
    assert_eq!(term.color(), (Color::White, Color::Black));
    term.write_str("m");
    assert_eq!(term.color(), (Color::Green, Color::Black));
}

#[test]
fn events_are_carried_out_in_order() {
    let mut term = small_terminal();
    let events = vec![
        VtEvent::Print('A'),
        VtEvent::Print('B'),
        VtEvent::Execute(b'\n'),
        VtEvent::Csi { params: vec![35], action: 'm' },
        VtEvent::Print('C'),
    ];
    term.apply_events(&events);
    assert_eq!((term.column(), term.row()), (1, 1));
    assert_eq!(term.color(), (Color::Magenta, Color::Black));
    let mut same = small_terminal();
    same.write_str("AB\n\x1b[35mC");
    assert_eq!(same.buffer(), term.buffer());
    same.apply(&VtEvent::Execute(b'\r'));
    assert_eq!(same.position(), (1, 19));
}

#[test]
fn whatever_is_written_the_cursor_stays_on_the_screen() {
    let mut term = small_terminal();
    let mut seed: u32 = 12345;
    let mut bytes = Vec::new();
    for _ in 0..4000 {
        seed = seed.wrapping_mul(1664525).wrapping_add(1013904223);
        let pick = (seed >> 24) as u8;
        match pick % 8 {
            0 => bytes.extend_from_slice(b"\x1b["),
            1 => bytes.push(b"ABCDGHJKhlm;"[(pick / 8) as usize % 12]),
            2 => bytes.push(b'0' + pick % 10),
            3 => bytes.push(b"\n\r\x08"[(pick / 8) as usize % 3]),
            _ => bytes.push(pick),
        }
    }
    for chunk in bytes.chunks(7) {
        term.write_bytes(chunk);
        let (x, y) = term.position();
        assert!(x < 80 && y < 60);
        assert_eq!(term.buffer().len(), 96 * 60 * 4);
    }
}

#[test]
fn colors_and_their_numbers() {
    let all = [
        (Color::Black, 30),
        (Color::Blue, 34),
        (Color::Green, 32),
        (Color::Cyan, 36),
        (Color::Red, 31),
        (Color::Magenta, 35),
        (Color::Brown, 33),
        (Color::LightGray, 37),
        (Color::DarkGray, 90),
        (Color::LightBlue, 94),
        (Color::LightGreen, 92),
        (Color::LightCyan, 96),
        (Color::LightRed, 91),
        (Color::Pink, 95),
        (Color::Yellow, 93),
        (Color::White, 97),
    ];
    for (index, (color, ansi)) in all.iter().enumerate() {
        assert_eq!(color.index(), index);
        assert_eq!(from_index(index), *color);
        assert_eq!(color.to_ansi(), *ansi);
        assert_eq!(from_ansi(*ansi), *color);
    }
    assert_eq!(from_index(16), Color::Black);
    assert_eq!(from_ansi(0), Color::Black);
    assert_eq!(from_ansi(38), Color::Black);
    let palette = Palette::default();
    assert_eq!(palette.get(Color::Black), (0, 0, 0));
    assert_eq!(palette.get(Color::LightGray), (0xC0, 0xC0, 0xC0));
    assert_eq!(palette.get(Color::Yellow), (0xFF, 0xFF, 0));
    assert_eq!(palette.get(Color::White), (0xFF, 0xFF, 0xFF));
}

#[test]
fn the_palette_is_changed() {
    let mut term = small_terminal();
    let mut palette = Palette::default();
    palette.colors[15] = (10, 20, 30);
    palette.colors[0] = (1, 2, 3);
    term.set_palette(palette);
    term.write_char(' ');
    assert_eq!(pixel(&term, 1, 1), vec![1, 2, 3, 0]);
    gate_os::framebuffer::set_palette(&mut term, Palette::default());
    gate_os::framebuffer::set_color(&mut term, Color::Red, Color::Blue);
    assert_eq!(gate_os::framebuffer::color(&term), (Color::Red, Color::Blue));
    assert_eq!(gate_os::framebuffer::cols(&term), 80);
    assert_eq!(gate_os::framebuffer::rows(&term), 60);
    gate_os::framebuffer::print_fmt(&mut term, "\x1b[2Jok");
    assert_eq!(term.position(), (14, 0));
}

#[test]
fn geometries_that_do_not_fit() {
    let fits = |width, height, stride, bytes_per_pixel, len| {
        FrameBufferInfo { width, height, stride, bytes_per_pixel, pixel_format: PixelFormat::Rgb }
            .check_fits(len)
    };
    assert!(fits(9, 19, 9, 1, 9 * 19));
    assert!(!fits(8, 19, 9, 1, 9 * 19));
    assert!(!fits(9, 18, 9, 1, 9 * 19));
    assert!(!fits(9, 19, 8, 1, 9 * 19));
    assert!(!fits(9, 19, 9, 0, 9 * 19));
    assert!(!fits(9, 19, 9, 5, 9 * 19 * 5));
    assert!(!fits(9, 19, 9, 1, 9 * 19 - 1));
    assert!(fits(9, 19, 9, 4, 9 * 19 * 4 + 3));
    assert!(!fits(usize::MAX, usize::MAX, usize::MAX, 4, usize::MAX));
}
