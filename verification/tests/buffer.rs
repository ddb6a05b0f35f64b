use editor_core::buffer::{Buffer, EditError, LoadError};

#[test]
fn chars_iterators() {
    let buf = Buffer::from_str("Hello World");
    let res = ['H', 'e', 'l', 'l', 'o', ' ', 'W', 'o', 'r', 'l', 'd'];
    let mut i = 0;
    for c in buf.chars() {
        assert_eq!(c, res[i]);
        i += 1;
    }
    assert_eq!(i, 11);
}

#[test]
fn len_chars() {
    let buf = Buffer::from_str("Hello World");
    assert_eq!(buf.len_chars(), 11);
    let buf = Buffer::from_str("Hello World\n");
    assert_eq!(buf.len_chars(), 12);
    let buf = Buffer::from_str("Nöel");
    assert_eq!(buf.len_chars(), 4);
}

#[test]
fn len_lines() {
    let buf = Buffer::from_str("Hello World");
    assert_eq!(buf.len_lines(), 1);
    let buf = Buffer::from_str("Hello\nWorld");
    assert_eq!(buf.len_lines(), 2);
}

#[test]
fn remove() {
    let mut buf = Buffer::from_str("Hello World");
    buf.remove(1..3);
    assert_eq!(buf.to_string(), "Hlo World");
}

#[test]
fn index_to_point() {
    let buf = Buffer::from_str("text\nplops\ntoto  ");
    assert_eq!(buf.index_to_point(3), (0, 3));
    assert_eq!(buf.index_to_point(4), (0, 4));
    assert_eq!(buf.index_to_point(5), (1, 0));
    assert_eq!(buf.index_to_point(12), (2, 1));
}

#[test]
fn point_to_index() {
    let buf = Buffer::from_str("text\nplops\ntoto  ");
    // Normal case
    assert_eq!(buf.point_to_index((0, 3)), 3);
    assert_eq!(buf.point_to_index((0, 4)), 4);
    assert_eq!(buf.point_to_index((1, 0)), 5);
    assert_eq!(buf.point_to_index((2, 1)), 12);

    // oob case
    assert_eq!(buf.point_to_index((0, 5)), 4); // col too far
    assert_eq!(buf.point_to_index((4, 1)), 12); // line too far
    assert_eq!(buf.point_to_index((4, 6)), 17); // line too far, EOF is treated like a char
}

#[test]
fn line_to_last_char() {
    let buf = Buffer::from_str("text\nplops\ntoto  ");
    assert_eq!(buf.line_to_last_char(0), 4);
    assert_eq!(buf.line_to_last_char(1), 10);
    assert_eq!(buf.line_to_last_char(2), 17); // EOF is treated like a char
}

#[test]
fn line_len_no_eol() {
    let buf = Buffer::from_str("text\nplops\ntoto  ");
    assert_eq!(buf.line_len_no_eol(0), 4);
    assert_eq!(buf.line_len_no_eol(1), 5);
    assert_eq!(buf.line_len_no_eol(2), 6);
}

#[test]
fn new_buffer_is_empty_and_clean() {
    let buf = Buffer::new();
    assert_eq!(buf.len_chars(), 0);
    assert_eq!(buf.len_lines(), 1);
    assert_eq!(buf.to_string(), "");
    assert_eq!(buf.get_filename(), None);
    assert!(!buf.is_dirty());
    assert_eq!(buf.chars(), Vec::<char>::new());
    assert_eq!(buf.lines(), vec![String::new()]);
}

#[test]
fn from_file_decodes_utf8() {
    let bytes = "Nöel\nline two\n".as_bytes();
    let buf = Buffer::from_file("notes.txt", bytes).unwrap();
    assert_eq!(buf.to_string(), "Nöel\nline two\n");
    assert_eq!(buf.len_chars(), 14);
    assert_eq!(buf.len_lines(), 3);
    assert_eq!(buf.get_filename(), Some("notes.txt"));
    assert!(!buf.is_dirty());
}

#[test]
fn from_file_rejects_invalid_utf8() {
    let bytes: [u8; 4] = [b'a', 0xff, 0xfe, b'b'];
    match Buffer::from_file("broken.bin", &bytes) {
        Err(e) => assert_eq!(e, LoadError::InvalidData),
        Ok(_) => panic!("invalid UTF-8 was accepted"),
    }
    // a sequence cut short at the end of the input
    let cut: [u8; 2] = [b'a', 0xc3];
    assert!(matches!(Buffer::from_file("cut.bin", &cut), Err(LoadError::InvalidData)));
}

#[test]
fn lines_keep_their_breaks() {
    let buf = Buffer::from_str("Hello\nworld\n");
    assert_eq!(buf.lines(), vec!["Hello\n".to_string(), "world\n".to_string(), String::new()]);
    let buf = Buffer::from_str("one\r\ntwo\rthree");
    assert_eq!(buf.lines(), vec!["one\r\n".to_string(), "two\r".to_string(), "three".to_string()]);
}

#[test]
fn insert_char_puts_the_char_in_front() {
    let mut buf = Buffer::from_str("Hllo");
    assert!(!buf.is_dirty());
    buf.insert_char(1, 'e');
    assert_eq!(buf.to_string(), "Hello");
    assert!(buf.is_dirty());
    buf.insert_char(5, '!');
    assert_eq!(buf.to_string(), "Hello!");
    buf.insert_char(0, '>');
    assert_eq!(buf.to_string(), ">Hello!");
}

#[test]
fn insert_puts_the_text_in_front() {
    let mut buf = Buffer::from_str("Hello World");
    buf.insert(5, ", dear");
    assert_eq!(buf.to_string(), "Hello, dear World");
    assert!(buf.is_dirty());
    buf.insert(17, "!");
    assert_eq!(buf.to_string(), "Hello, dear World!");
    buf.insert(0, "");
    assert_eq!(buf.to_string(), "Hello, dear World!");
}

#[test]
fn remove_sets_dirty_and_keeps_the_rest() {
    let mut buf = Buffer::from_file("a.txt", b"Hello World").unwrap();
    buf.remove(5..11);
    assert_eq!(buf.to_string(), "Hello");
    assert!(buf.is_dirty());
    assert_eq!(buf.get_filename(), Some("a.txt"));
    buf.remove(2..2);
    assert_eq!(buf.to_string(), "Hello");
    buf.remove(0..5);
    assert_eq!(buf.to_string(), "");
    assert_eq!(buf.len_lines(), 1);
}

#[test]
fn remove_then_insert_gives_the_text_back() {
    let text = "text\r\nplops\ntoto  \rend";
    let total = text.chars().count();
    for a in 0..=total {
        for b in a..=total {
            let mut buf = Buffer::from_str(text);
            let removed = buf.slice(a..b);
            buf.remove(a..b);
            assert_eq!(buf.len_chars(), total - (b - a));
            buf.insert(a, &removed);
            assert_eq!(buf.to_string(), text);
        }
    }
}

#[test]
fn slice_is_the_range() {
    let buf = Buffer::from_str("Hello みんなさん!");
    assert_eq!(buf.slice(3..8), "lo みん");
    assert_eq!(buf.slice(0..0), "");
    assert_eq!(buf.slice(0..12), "Hello みんなさん!");
}

#[test]
fn len_lines_counts_each_break_once() {
    assert_eq!(Buffer::from_str("").len_lines(), 1);
    assert_eq!(Buffer::from_str("\n").len_lines(), 2);
    assert_eq!(Buffer::from_str("a\n").len_lines(), 2);
    assert_eq!(Buffer::from_str("a\rb").len_lines(), 2);
    assert_eq!(Buffer::from_str("a\r\nb").len_lines(), 2);
    assert_eq!(Buffer::from_str("a\n\rb").len_lines(), 3);
    assert_eq!(Buffer::from_str("a\r\r\nb\n").len_lines(), 4);
    // neither a vertical tab nor a line separator breaks a line
    assert_eq!(Buffer::from_str("a\u{000B}b\u{2028}c").len_lines(), 1);
}

#[test]
fn char_to_line_and_back_at_line_starts() {
    let buf = Buffer::from_str("text\nplops\r\n\rtoto  \n");
    assert_eq!(buf.len_lines(), 5);
    let starts = [0, 5, 12, 13, 20];
    for line in 0..buf.len_lines() {
        assert_eq!(buf.line_to_char(line), starts[line]);
        assert_eq!(buf.char_to_line(buf.line_to_char(line)), line);
    }
    // one past the last line
    assert_eq!(buf.line_to_char(5), 20);
    // the end of the buffer lies on the last line
    assert_eq!(buf.char_to_line(20), 4);
    // the line feed of a CR LF pair lies on the line of its carriage return
    assert_eq!(buf.char_to_line(10), 1);
    assert_eq!(buf.char_to_line(11), 1);
    assert_eq!(buf.char_to_line(12), 2);
}

#[test]
fn line_len_counts_the_break() {
    let buf = Buffer::from_str("text\nplops\r\n\rtoto  ");
    assert_eq!(buf.line_len(0), 5);
    assert_eq!(buf.line_len(1), 7);
    assert_eq!(buf.line_len(2), 1);
    assert_eq!(buf.line_len(3), 6);
    assert_eq!(buf.line_len_no_eol(0), 4);
    assert_eq!(buf.line_len_no_eol(1), 5);
    assert_eq!(buf.line_len_no_eol(2), 0);
    assert_eq!(buf.line_len_no_eol(3), 6);
}

#[test]
fn line_to_last_char_is_where_the_break_starts() {
    let text = "text\nplops\r\n\rtoto  \n";
    let chars: Vec<char> = text.chars().collect();
    let buf = Buffer::from_str(text);
    let ends = [4, 10, 12, 19, 20];
    for line in 0..buf.len_lines() {
        let p = buf.line_to_last_char(line);
        assert_eq!(p, ends[line]);
        if line + 1 == buf.len_lines() {
            assert_eq!(p, buf.len_chars());
        } else {
            assert!(chars[p] == '\n' || chars[p] == '\r');
            // never the line feed of a CR LF pair
            assert!(!(p > 0 && chars[p - 1] == '\r' && chars[p] == '\n'));
        }
    }
}

#[test]
fn point_round_trip_but_inside_cr_lf() {
    let text = "text\nplops\r\n\rtoto  \n";
    let chars: Vec<char> = text.chars().collect();
    let buf = Buffer::from_str(text);
    for idx in 0..=buf.len_chars() {
        let inside = idx > 0 && idx < chars.len() && chars[idx - 1] == '\r' && chars[idx] == '\n';
        let back = buf.point_to_index(buf.index_to_point(idx));
        if inside {
            assert_eq!(idx, 11);
            assert_eq!(buf.index_to_point(idx), (1, 6));
            assert_eq!(back, 10);
        } else {
            assert_eq!(back, idx);
        }
    }
}

#[test]
fn point_to_index_of_empty_buffer() {
    let buf = Buffer::new();
    assert_eq!(buf.point_to_index((0, 0)), 0);
    assert_eq!(buf.point_to_index((7, 7)), 0);
    assert_eq!(buf.index_to_point(0), (0, 0));
}

#[test]
fn clone_shares_nothing_visible() {
    let mut buf = Buffer::from_str("abc");
    let copy = buf.clone();
    buf.insert_char(0, 'x');
    assert_eq!(copy.to_string(), "abc");
    assert_eq!(buf.to_string(), "xabc");
}

#[test]
fn try_insert_reports_a_position_past_the_end() {
    let mut buf = Buffer::from_str("abc");
    assert_eq!(buf.try_insert(4, "x"), Err(EditError::IndexOutOfBounds));
    assert_eq!(buf.try_insert_char(4, 'x'), Err(EditError::IndexOutOfBounds));
    assert_eq!(buf.to_string(), "abc");
    assert!(!buf.is_dirty());
    assert_eq!(buf.try_insert(3, "de"), Ok(()));
    assert_eq!(buf.try_insert_char(0, '>'), Ok(()));
    assert_eq!(buf.to_string(), ">abcde");
    assert!(buf.is_dirty());
}

#[test]
fn try_remove_reports_a_bad_range() {
    let mut buf = Buffer::from_str("abc");
    assert_eq!(buf.try_remove(1..4), Err(EditError::RangeOutOfBounds));
    assert_eq!(buf.try_remove(4..5), Err(EditError::RangeOutOfBounds));
    assert_eq!(buf.try_remove(5..4), Err(EditError::RangeOutOfBounds));
    assert_eq!(buf.try_remove(4..2), Err(EditError::RangeOutOfBounds));
    #[allow(clippy::reversed_empty_ranges)]
    let reversed = 2..1;
    assert_eq!(buf.try_remove(reversed), Err(EditError::RangeInvalid));
    assert_eq!(buf.to_string(), "abc");
    assert!(!buf.is_dirty());
    assert_eq!(buf.try_remove(1..3), Ok(()));
    assert_eq!(buf.to_string(), "a");
    assert!(buf.is_dirty());
    assert_eq!(buf.try_remove(1..1), Ok(()));
    assert_eq!(buf.to_string(), "a");
}
