use ircnvim::text::{parse_color, Style, Text, TextChunk, DEFAULT_COLOR};

fn style_of(chunk: &TextChunk) -> Style {
    Style {
        fg: chunk.fg,
        bg: chunk.bg,
        bold: chunk.bold,
        italic: chunk.italic,
        underline: chunk.underline,
        reverse: chunk.reverse,
    }
}

#[test]
fn plain_text_is_one_plain_segment() {
    let text = Text::from_bytes(b"hello, world".to_vec());
    assert_eq!(text.text(), b"hello, world");
    assert_eq!(text.chunks().len(), 1);
    assert_eq!(text.chunks()[0].text, b"hello, world".to_vec());
    assert_eq!(style_of(&text.chunks()[0]), Style::new());
    assert_eq!(text.chunks()[0].fg, 255);
    assert_eq!(text.chunks()[0].bg, 255);
    assert!(!text.ctcp);
    assert!(!text.action);
}

#[test]
fn empty_text_has_no_segment() {
    let text = Text::from_bytes(Vec::new());
    assert_eq!(text.text(), b"");
    assert_eq!(text.chunks().len(), 0);
    assert!(!text.ctcp);
}

#[test]
fn toggle_twice_and_reset() {
    let plain = Style::new();
    for control in [0x02u8, 0x1D, 0x1F, 0x16] {
        assert_ne!(plain.apply(control), plain);
        assert_eq!(plain.apply(control).apply(control), plain);
    }
    let busy = Style { fg: 4, bg: 7, bold: true, italic: true, underline: true, reverse: true };
    for control in [0x02u8, 0x1D, 0x1F, 0x16] {
        assert_eq!(busy.apply(control).apply(control), busy);
    }
    assert_eq!(busy.apply(0x0F), plain);
    assert_eq!(plain.apply(0x0F), plain);
    assert_eq!(busy.apply(b'a'), busy);
    assert_eq!(DEFAULT_COLOR, 255);
}

#[test]
fn a_control_byte_closes_the_run_with_the_new_style() {
    let text = Text::from_bytes(b"\x02bold\x02 plain".to_vec());
    assert_eq!(text.text(), b"bold plain");
    let chunks = text.chunks();
    assert_eq!(chunks.len(), 3);
    assert_eq!(chunks[0].text, b"".to_vec());
    assert!(chunks[0].bold);
    assert_eq!(chunks[1].text, b"bold".to_vec());
    assert!(!chunks[1].bold);
    assert_eq!(chunks[2].text, b" plain".to_vec());
    assert!(!chunks[2].bold);
}

#[test]
fn a_reset_that_changes_nothing_closes_no_empty_run() {
    let text = Text::from_bytes(b"\x0Fabc\x0F".to_vec());
    assert_eq!(text.text(), b"abc");
    assert_eq!(text.chunks().len(), 1);
    assert_eq!(text.chunks()[0].text, b"abc".to_vec());
    assert_eq!(style_of(&text.chunks()[0]), Style::new());
    let text = Text::from_bytes(b"\x1D\x1F\x16\x0F".to_vec());
    assert_eq!(text.text(), b"");
    let chunks = text.chunks();
    assert_eq!(chunks.len(), 4);
    assert!(chunks[0].italic && !chunks[0].underline);
    assert!(chunks[1].italic && chunks[1].underline && !chunks[1].reverse);
    assert!(chunks[2].italic && chunks[2].underline && chunks[2].reverse);
    assert_eq!(style_of(&chunks[3]), Style::new());
}

#[test]
fn colour_escapes() {
    assert_eq!(parse_color(b"4,12x", 0), (Some(4), Some(12), 4));
    assert_eq!(parse_color(b"04x", 0), (Some(4), None, 2));
    assert_eq!(parse_color(b"123", 0), (Some(12), None, 2));
    assert_eq!(parse_color(b"7,x", 0), (Some(7), None, 1));
    assert_eq!(parse_color(b",5", 0), (None, None, 0));
    assert_eq!(parse_color(b"x", 0), (None, None, 0));
    assert_eq!(parse_color(b"", 0), (None, None, 0));
    assert_eq!(parse_color(b"ab99,01", 2), (Some(99), Some(1), 7));

    let text = Text::from_bytes(b"a\x034,12red\x03,5\x0399".to_vec());
    assert_eq!(text.text(), b"ared,5");
    let chunks = text.chunks();
    assert_eq!(chunks.len(), 3);
    assert_eq!((chunks[0].text.as_slice(), chunks[0].fg, chunks[0].bg), (&b"a"[..], 4, 12));
    assert_eq!((chunks[1].text.as_slice(), chunks[1].fg, chunks[1].bg), (&b"red"[..], 255, 255));
    assert_eq!((chunks[2].text.as_slice(), chunks[2].fg, chunks[2].bg), (&b",5"[..], 99, 255));
}

#[test]
fn foreground_alone_keeps_the_background() {
    let text = Text::from_bytes(b"\x031,2a\x033b".to_vec());
    let chunks = text.chunks();
    assert_eq!(chunks.len(), 3);
    assert_eq!((chunks[0].fg, chunks[0].bg), (1, 2));
    assert_eq!((chunks[1].text.as_slice(), chunks[1].fg, chunks[1].bg), (&b"a"[..], 3, 2));
    assert_eq!((chunks[2].text.as_slice(), chunks[2].fg, chunks[2].bg), (&b"b"[..], 3, 2));
}

#[test]
fn action_envelope() {
    let text = Text::from_bytes(b"\x01ACTION waves\x01".to_vec());
    assert!(text.ctcp);
    assert!(text.action);
    assert_eq!(text.text(), b"waves");
    assert_eq!(text.chunks().len(), 1);
    let text = Text::from_bytes(b"\x01ACTION waves".to_vec());
    assert!(text.ctcp && text.action);
    assert_eq!(text.text(), b"waves");
    let text = Text::from_bytes(b"\x01ACTION \x01".to_vec());
    assert!(text.ctcp && text.action);
    assert_eq!(text.text(), b"");
}

#[test]
fn other_envelopes_pass_through() {
    let text = Text::from_bytes(b"\x01VERSION\x01".to_vec());
    assert!(text.ctcp);
    assert!(!text.action);
    assert_eq!(text.text(), b"VERSION");
    let text = Text::from_bytes(b"\x01ACTION\x01".to_vec());
    assert!(text.ctcp);
    assert!(!text.action);
    assert_eq!(text.text(), b"ACTION");
    let text = Text::from_bytes(b"\x01".to_vec());
    assert!(text.ctcp);
    assert_eq!(text.text(), b"");
    assert_eq!(text.chunks().len(), 0);
    let text = Text::from_bytes(b"\x01\x01".to_vec());
    assert!(text.ctcp);
    assert_eq!(text.text(), b"");
}

#[test]
fn texts_made_by_hand() {
    let text = Text::from_string(b"hi".to_vec());
    assert_eq!(text.text(), b"hi");
    assert_eq!(text.chunks().len(), 1);
    assert!(!text.ctcp && !text.action);
    let text = Text::from_string(Vec::new());
    assert_eq!(text.chunks().len(), 1);
    let text = Text::action(b"waves".to_vec());
    assert_eq!(text.text(), b"waves");
    assert!(text.ctcp && text.action);
    let text = Text::decorate_nick(b"bob");
    assert_eq!(text.text(), b"<bob>");
    let copy = text.clone();
    assert_eq!(copy.text(), b"<bob>");
    assert_eq!(copy.chunks().len(), 1);
}
