use v3s_monitor::oled::{
    get_eth02_ip, get_time, next_frame, BusWrite, Oled, BUFFER_LEN, FONT_5X8, HEIGHT,
    INIT_COMMANDS, PAGES, WIDTH,
};

#[test]
fn display_geometry() {
    assert_eq!(WIDTH, 128);
    assert_eq!(HEIGHT, 32);
    assert_eq!(PAGES, 4);
    assert_eq!(BUFFER_LEN, 512);
    assert_eq!(FONT_5X8.len(), 480);
    assert_eq!(&FONT_5X8[0..5], &[0, 0, 0, 0, 0]);
    assert_eq!(&FONT_5X8[(65 - 32) * 5..(65 - 32) * 5 + 5], &[0x7e, 0x11, 0x11, 0x11, 0x7e]);
    assert_eq!(&FONT_5X8[475..480], &[0x08, 0x1c, 0x2a, 0x08, 0x08]);
    let sum: u32 = FONT_5X8.iter().map(|b| *b as u32).sum();
    assert_eq!(sum, 22046);
}

#[test]
fn start_up_commands() {
    assert_eq!(
        INIT_COMMANDS,
        [
            0xae, 0x40, 0xb0, 0xc8, 0x81, 0xff, 0xa1, 0xa6, 0xa8, 0x1f, 0xd3, 0x00, 0xd5, 0xf0,
            0xd9, 0x22, 0xda, 0x02, 0xdb, 0x49, 0x8d, 0x14, 0xaf
        ]
    );
    let writes = Oled::new().init();
    assert_eq!(writes.len(), 23);
    for (w, c) in writes.iter().zip(INIT_COMMANDS.iter()) {
        assert_eq!(*w, BusWrite { control: 0x00, value: *c });
    }
}

#[test]
fn new_buffer_is_blank_and_clear_blanks() {
    let mut o = Oled::new();
    assert!(o.buffer.iter().all(|b| *b == 0));
    o.draw_string(0, 0, "Hello");
    assert!(o.buffer.iter().any(|b| *b != 0));
    o.clear();
    assert!(o.buffer.iter().all(|b| *b == 0));
}

#[test]
fn a_character_is_five_columns_of_the_font() {
    let mut o = Oled::new();
    o.draw_char(10, 2, 'A');
    let mut want = [0u8; 512];
    want[2 * 128 + 10..2 * 128 + 15].copy_from_slice(&[0x7e, 0x11, 0x11, 0x11, 0x7e]);
    assert_eq!(o.buffer, want);
    // the last place that fits, and the first that does not
    let mut o = Oled::new();
    o.draw_char(123, 3, '!');
    assert_eq!(&o.buffer[3 * 128 + 123..], &[0x00, 0x00, 0x5f, 0x00, 0x00]);
    let mut o = Oled::new();
    o.draw_char(124, 0, '!');
    o.draw_char(0, 4, '!');
    o.draw_char(0, 0, '\u{1f}');
    o.draw_char(0, 0, '\u{80}');
    o.draw_char(0, 0, '\u{e9}');
    o.draw_char(usize::MAX, 0, '!');
    o.draw_char(0, usize::MAX, '!');
    assert!(o.buffer.iter().all(|b| *b == 0));
}

#[test]
fn a_character_overwrites_what_was_there() {
    let mut o = Oled::new();
    o.draw_char(0, 0, '#');
    o.draw_char(3, 0, ' ');
    assert_eq!(&o.buffer[0..8], &[0x14, 0x7f, 0x14, 0, 0, 0, 0, 0]);
}

#[test]
fn a_string_is_drawn_six_columns_apart() {
    let mut o = Oled::new();
    o.draw_string(1, 1, "Hi!");
    let mut want = [0u8; 512];
    want[128 + 1..128 + 6].copy_from_slice(&[0x7f, 0x08, 0x08, 0x08, 0x7f]);
    want[128 + 7..128 + 12].copy_from_slice(&[0x00, 0x44, 0x7d, 0x40, 0x00]);
    want[128 + 13..128 + 18].copy_from_slice(&[0x00, 0x00, 0x5f, 0x00, 0x00]);
    assert_eq!(o.buffer, want);
}

#[test]
fn a_string_stops_at_the_edge() {
    let mut o = Oled::new();
    let long = "#".repeat(40);
    o.draw_string(0, 0, &long);
    // 21 characters fit: the 22nd would start at column 126
    for k in 0..21 {
        assert_eq!(&o.buffer[k * 6..k * 6 + 5], &[0x14, 0x7f, 0x14, 0x7f, 0x14]);
        assert_eq!(o.buffer[k * 6 + 5], 0);
    }
    assert_eq!(&o.buffer[126..128], &[0, 0]);
    assert!(o.buffer[128..].iter().all(|b| *b == 0));
    let mut o = Oled::new();
    o.draw_string(123, 0, "#");
    assert!(o.buffer.iter().all(|b| *b == 0));
    o.draw_string(122, 0, "#");
    assert_eq!(&o.buffer[122..127], &[0x14, 0x7f, 0x14, 0x7f, 0x14]);
    // a character without a picture still takes its place
    let mut o = Oled::new();
    o.draw_string(0, 0, "\u{e9}#");
    assert_eq!(&o.buffer[0..11], &[0, 0, 0, 0, 0, 0, 0x14, 0x7f, 0x14, 0x7f, 0x14]);
}

/// Bits of a nibble, each doubled.
fn doubled(n: u8) -> u8 {
    let mut r = 0u8;
    for bit in 0..4 {
        if n & (1 << bit) != 0 {
            r |= 3 << (bit * 2);
        }
    }
    r
}

#[test]
fn a_character_at_twice_its_size() {
    let mut o = Oled::new();
    o.draw_char_2x(20, 1, 'A');
    let cols = [0x7eu8, 0x11, 0x11, 0x11, 0x7e];
    let mut want = [0u8; 512];
    for i in 0..5 {
        let upper = doubled(cols[i] & 0x0f);
        let lower = doubled(cols[i] >> 4);
        want[128 + 20 + 2 * i] = upper;
        want[128 + 20 + 2 * i + 1] = upper;
        want[256 + 20 + 2 * i] = lower;
        want[256 + 20 + 2 * i + 1] = lower;
    }
    assert_eq!(o.buffer, want);
    assert_eq!(doubled(0x0e), 0xfc);
    assert_eq!(&o.buffer[128 + 20..128 + 22], &[0xfc, 0xfc]);
    assert_eq!(&o.buffer[256 + 20..256 + 22], &[0x3f, 0x3f]);
    let mut o = Oled::new();
    o.draw_char_2x(119, 0, 'A');
    o.draw_char_2x(0, 3, 'A');
    o.draw_char_2x(0, 0, '\u{7}');
    assert!(o.buffer.iter().all(|b| *b == 0));
    o.draw_char_2x(118, 2, 'A');
    assert_eq!(o.buffer[2 * 128 + 118], 0xfc);
    assert_eq!(o.buffer[3 * 128 + 127], 0x3f);
}

#[test]
fn a_string_at_twice_its_size() {
    let mut o = Oled::new();
    o.draw_string_2x(16, 0, "12:34:56");
    let mut p = Oled::new();
    for (k, c) in "12:34:56".chars().enumerate() {
        p.draw_char_2x(16 + 12 * k, 0, c);
    }
    assert_eq!(o.buffer, p.buffer);
    assert!(o.buffer[16 + 12 * 7..16 + 12 * 7 + 10].iter().any(|b| *b != 0));
    // ten characters fit from column 0; the eleventh would start at 120
    let mut o = Oled::new();
    o.draw_string_2x(0, 0, "###########");
    assert!(o.buffer[108..118].iter().all(|b| *b != 0));
    assert!(o.buffer[118..128].iter().all(|b| *b == 0));
}

#[test]
fn showing_the_buffer() {
    let mut o = Oled::new();
    for (k, b) in o.buffer.iter_mut().enumerate() {
        *b = (k % 251) as u8;
    }
    let w = o.display();
    assert_eq!(w.len(), 4 * 131);
    for page in 0..4usize {
        let at = page * 131;
        assert_eq!(w[at], BusWrite { control: 0x00, value: 0xb0 + page as u8 });
        assert_eq!(w[at + 1], BusWrite { control: 0x00, value: 0x00 });
        assert_eq!(w[at + 2], BusWrite { control: 0x00, value: 0x10 });
        for col in 0..128usize {
            assert_eq!(
                w[at + 3 + col],
                BusWrite { control: 0x40, value: ((page * 128 + col) % 251) as u8 }
            );
        }
    }
}

#[test]
fn moving_dashes() {
    for frame in [0u8, 1, 3, 100, 120, 127, 128, 200, 255] {
        let mut o = Oled::new();
        o.draw_dashes(frame);
        let mut want = [0u8; 512];
        for i in 0..6usize {
            let pos = (frame as usize + i * 22) % 128;
            for j in 0..8 {
                if pos + j < 128 {
                    want[256 + pos + j] = 0x18;
                }
            }
        }
        assert_eq!(o.buffer, want, "frame {}", frame);
        assert!(o.buffer[..256].iter().all(|b| *b == 0));
        assert!(o.buffer[384..].iter().all(|b| *b == 0));
    }
    assert_eq!(next_frame(0), 3);
    assert_eq!(next_frame(252), 255);
    assert_eq!(next_frame(253), 0);
    assert_eq!(next_frame(255), 2);
}

#[test]
fn a_frame_of_the_picture() {
    let mut o = Oled::new();
    o.draw_string(0, 1, "left over");
    o.render_frame("12:34:56", "192.168.1.100", 9);
    let mut want = Oled::new();
    want.draw_string_2x(16, 0, "12:34:56");
    want.draw_dashes(9);
    // thirteen characters of six columns, in the middle of 128
    want.draw_string(25, 3, "192.168.1.100");
    assert_eq!(o.buffer, want.buffer);
    // a text that is too long for the middle starts at the edge
    let mut o = Oled::new();
    o.render_frame("", "1234567890123456789012", 0);
    let mut want = Oled::new();
    want.draw_dashes(0);
    want.draw_string(0, 3, "1234567890123456789012");
    assert_eq!(o.buffer, want.buffer);
    let mut o = Oled::new();
    o.render_frame("", "123456789012345678901", 0);
    let mut want = Oled::new();
    want.draw_dashes(0);
    want.draw_string(1, 3, "123456789012345678901");
    assert_eq!(o.buffer, want.buffer);
}

#[test]
fn time_and_address_to_show() {
    assert_eq!(get_time(Some("12:34:56\n")), "12:34:56");
    assert_eq!(get_time(Some("")), "");
    assert_eq!(get_time(None), "--:--:--");
    assert_eq!(get_eth02_ip(None), "No IP");
    assert_eq!(get_eth02_ip(Some("")), "No IP");
    assert_eq!(get_eth02_ip(Some("3: eth0.2: <UP>\n    link/ether 00:11\n")), "No IP");
    assert_eq!(
        get_eth02_ip(Some("3: eth0.2: <UP>\n    inet 192.168.1.100/24 brd 192.168.1.255\n    inet 10.0.0.1/8\n")),
        "192.168.1.100"
    );
    assert_eq!(get_eth02_ip(Some("inet6 fe80::1/64\ninet 1.2.3.4")), "1.2.3.4");
    assert_eq!(get_eth02_ip(Some("inet /24")), "");
}
