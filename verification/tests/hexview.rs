use bbp_core::hexview::{can_render, render, render_rows, HexViewer16, HexViewer8};

fn bytes(count: usize) -> Vec<u8> {
    (0..count).map(|i| i as u8).collect()
}

#[test]
fn sixteen_bytes_give_one_row() {
    let buffer = bytes(16);
    let view = HexViewer8 { lower: true, start: 0, buffer: &buffer };
    assert_eq!(view.to_string(), "0 │ 00 01 02 03  04 05 06 07  08 09 0a 0b  0c 0d 0e 0f  \n");
}

#[test]
fn upper_case_digits() {
    let buffer: Vec<u8> = vec![0x0a, 0xbc, 0xff, 0x9d];
    let view = HexViewer8 { lower: false, start: 0, buffer: &buffer };
    assert_eq!(view.to_string(), "0│ 0A BC FF 9D  \n");
    let lower = HexViewer8 { lower: true, start: 0, buffer: &buffer };
    assert_eq!(lower.to_string(), "0│ 0a bc ff 9d  \n");
}

#[test]
fn words_print_four_digits() {
    let buffer: Vec<u16> = vec![0x0000, 0x0001, 0x00ab, 0xabcd, 0xffff];
    let view = HexViewer16 { lower: true, start: 0, buffer: &buffer };
    assert_eq!(view.to_string(), "0│ 0000 0001 00ab abcd  ffff \n");
    let upper = HexViewer16 { lower: false, start: 0, buffer: &buffer };
    assert_eq!(upper.to_string(), "0│ 0000 0001 00AB ABCD  FFFF \n");
}

#[test]
fn sixteen_words_give_one_row() {
    let buffer: Vec<u16> = (0..16u16).map(|i| i * 0x1111).collect();
    let view = HexViewer16 { lower: true, start: 0, buffer: &buffer };
    assert_eq!(
        view.to_string(),
        "0 │ 0000 1111 2222 3333  4444 5555 6666 7777  8888 9999 aaaa bbbb  cccc dddd eeee ffff  \n"
    );
}

#[test]
fn empty_buffer_gives_no_row() {
    let buffer: Vec<u8> = Vec::new();
    let view = HexViewer8 { lower: true, start: 7, buffer: &buffer };
    assert_eq!(view.to_string(), "");
    assert_eq!(view.rows().len(), 0);
    let words: Vec<u16> = Vec::new();
    let view = HexViewer16 { lower: true, start: 7, buffer: &words };
    assert_eq!(view.to_string(), "");
    assert_eq!(view.rows().len(), 0);
}

#[test]
fn short_last_row_keeps_its_separator() {
    let buffer = bytes(3);
    let view = HexViewer8 { lower: true, start: 0, buffer: &buffer };
    assert_eq!(view.to_string(), "0│ 00 01 02 \n");
    let buffer = bytes(8);
    let view = HexViewer8 { lower: true, start: 0, buffer: &buffer };
    assert_eq!(view.to_string(), "0│ 00 01 02 03  04 05 06 07  \n");
}

#[test]
fn row_count_is_length_over_sixteen_rounded_up() {
    for length in 0..100usize {
        let buffer = bytes(length);
        let view = HexViewer8 { lower: true, start: 0, buffer: &buffer };
        let rows = view.rows();
        assert_eq!(rows.len(), (length + 15) / 16);
        assert_eq!(view.to_string().matches('\n').count(), (length + 15) / 16);
        for (i, row) in rows.iter().enumerate() {
            let expected = if i + 1 < rows.len() || length % 16 == 0 { 16 } else { length % 16 };
            let body = row.split('│').nth(1).unwrap();
            assert_eq!(body.split_whitespace().count(), expected);
        }
    }
}

#[test]
fn rows_join_to_the_text() {
    let buffer = bytes(70);
    let view = HexViewer8 { lower: false, start: 990, buffer: &buffer };
    assert_eq!(view.rows().concat(), view.to_string());
    assert_eq!(render_rows(false, 990, &buffer[..]).concat(), render(false, 990, &buffer[..]));
}

#[test]
fn offsets_are_padded_to_one_column() {
    let buffer = bytes(40);
    let view = HexViewer8 { lower: true, start: 0, buffer: &buffer };
    let expected = "0 │ 00 01 02 03  04 05 06 07  08 09 0a 0b  0c 0d 0e 0f  \n\
                    16│ 10 11 12 13  14 15 16 17  18 19 1a 1b  1c 1d 1e 1f  \n\
                    32│ 20 21 22 23  24 25 26 27  \n";
    assert_eq!(view.to_string(), expected);
    let rows = view.rows();
    assert_eq!(rows.len(), 3);
    for row in rows.iter() {
        assert_eq!(row.chars().position(|c| c == '│'), Some(2));
    }
}

#[test]
fn column_width_follows_the_position_past_the_buffer() {
    let buffer = bytes(20);
    let view = HexViewer8 { lower: true, start: 90, buffer: &buffer };
    let expected = "90 │ 00 01 02 03  04 05 06 07  08 09 0a 0b  0c 0d 0e 0f  \n\
                    106│ 10 11 12 13  \n";
    assert_eq!(view.to_string(), expected);
    let one = bytes(1);
    let view = HexViewer8 { lower: true, start: 9, buffer: &one };
    assert_eq!(view.to_string(), "9 │ 00 \n");
    let ten = bytes(10);
    let view = HexViewer8 { lower: true, start: 0, buffer: &ten };
    assert_eq!(view.to_string(), "0 │ 00 01 02 03  04 05 06 07  08 09 \n");
    let view = HexViewer8 { lower: true, start: 90, buffer: &ten };
    assert_eq!(view.to_string(), "90 │ 00 01 02 03  04 05 06 07  08 09 \n");
    let nine = bytes(9);
    let view = HexViewer8 { lower: true, start: 0, buffer: &nine };
    assert_eq!(view.to_string(), "0│ 00 01 02 03  04 05 06 07  08 \n");
    let two = bytes(17);
    let view = HexViewer8 { lower: true, start: 0, buffer: &two };
    assert_eq!(
        view.to_string(),
        "0 │ 00 01 02 03  04 05 06 07  08 09 0a 0b  0c 0d 0e 0f  \n16│ 10 \n"
    );
}

#[test]
fn bars_align_for_many_starts() {
    for &start in [0u64, 5, 49, 50, 95, 949, 950, 9_990, 123_456_789, u64::MAX - 50].iter() {
        let buffer = bytes(50);
        let rows = render_rows(true, start, &buffer[..]);
        let column = format!("{}", start + 50).len();
        assert_eq!(rows.len(), 4);
        for (i, row) in rows.iter().enumerate() {
            assert_eq!(row.chars().position(|c| c == '│'), Some(column));
            assert!(row.starts_with(&format!("{}", start + 16 * i as u64)));
            assert!(row.ends_with('\n'));
        }
    }
}

#[test]
fn generic_render_on_words() {
    let buffer: Vec<u16> = vec![0x1234, 0x00ff];
    assert_eq!(render(true, 100, &buffer[..]), "100│ 1234 00ff \n");
    assert_eq!(render(false, 100, &buffer[..]), "100│ 1234 00FF \n");
}

#[test]
fn positions_must_fit_in_64_bits() {
    assert!(can_render(0, 0));
    assert!(can_render(u64::MAX, 0));
    assert!(!can_render(u64::MAX, 1));
    assert!(can_render(u64::MAX - 1, 1));
    assert!(can_render(u64::MAX - 16, 16));
    assert!(!can_render(u64::MAX - 15, 16));
    assert!(can_render(u64::MAX - 32, 32));
    assert!(!can_render(u64::MAX - 31, 32));
    assert!(can_render(0, 1_000_000));
}

#[test]
fn last_representable_position() {
    let buffer = bytes(2);
    assert_eq!(render(true, u64::MAX - 2, &buffer[..]), "18446744073709551613│ 00 01 \n");
    let buffer = bytes(17);
    assert_eq!(
        render(false, u64::MAX - 17, &buffer[..]),
        "18446744073709551598│ 00 01 02 03  04 05 06 07  08 09 0A 0B  0C 0D 0E 0F  \n\
         18446744073709551614│ 10 \n"
    );
}

#[test]
fn every_element_is_followed_by_its_separator() {
    for length in 1..40usize {
        let buffer = bytes(length);
        for row in render_rows(true, 0, &buffer[..]).iter() {
            let body = row.split("│ ").nth(1).unwrap();
            let count = body.split_whitespace().count();
            let groups = count / 4;
            assert_eq!(body.chars().count(), 2 * count + count + groups + 1);
            if count % 4 == 0 {
                assert!(body.ends_with("  \n"));
            } else {
                assert!(body.ends_with(" \n") && !body.ends_with("  \n"));
            }
        }
    }
}
