use hexswap::text::bytes_lines;
use hexswap::text::bytes_next_word;
use hexswap::text::bytes_reflow;
use hexswap::text::bytes_reflow_in_place;
use hexswap::text::bytes_split_whitespace;
use hexswap::text::is_byte_whitespace;
use hexswap::text::reflow;

fn byte_reflow_early_out(bytes: &[u8], width: usize) -> bool {
    bytes.iter().cloned().all(is_byte_whitespace)
        || bytes_split_whitespace(bytes).iter().any(|w| w.len() > width)
}

fn reflow_case_list() -> Vec<(Vec<u8>, usize)> {
    let mut cases: Vec<(Vec<u8>, usize)> = Vec::new();
    // a small deterministic generator over a byte alphabet with whitespace
    let alphabet: [u8; 8] = [32, 0, 65, 66, 10, 200, 48, 97];
    let mut seed: u64 = 12345;
    for len in 0..18u64 {
        for width in 1..6usize {
            let mut bytes = Vec::new();
            for k in 0..len {
                seed = seed.wrapping_mul(6364136223846793005).wrapping_add(1442695040888963407);
                bytes.push(alphabet[((seed >> 33) ^ k) as usize % alphabet.len()]);
            }
            cases.push((bytes, width));
        }
    }
    cases.push((b"CPU 1 played a Queen of clubs.".to_vec(), 28));
    cases.push((b"12345 67890".to_vec(), 5));
    cases.push((vec![27, 0, 27, 0, 27, 0, 27], 6));
    cases
}

#[test]
fn test_bytes_reflow_then_lines_produces_lines_of_the_correct_length() {
    for (bytes, width) in reflow_case_list() {
        if byte_reflow_early_out(&bytes, width) {
            continue;
        }
        let reflowed = bytes_reflow(&bytes, width);
        for line in bytes_lines(&reflowed) {
            assert!(line.len() <= width);
        }
    }
}

#[test]
fn test_bytes_reflow_works_for_this_generated_case() {
    let s = vec![27, 0, 27, 0, 27, 0, 27];
    let width = 6;

    let reflowed = bytes_reflow(&s, width);
    assert!(reflowed.ends_with(&[b'\n', 27]));
}

#[test]
fn test_bytes_reflow_works_for_this_real_case() {
    let s = vec![
        99, 112, 117, 32, 48, 32, 112, 108, 97, 121, 101, 100, 32, 97, 110, 32, 65, 99, 101, 32,
        111, 102, 32, 104, 101, 97, 114, 116, 115,
    ];
    let width = 28;

    let reflowed = bytes_reflow(&s, width);

    assert!(reflowed.ends_with(&[b'\n', 104, 101, 97, 114, 116, 115]));
}

#[test]
fn test_is_byte_whitespace_works_on_upper_half_values() {
    assert!(is_byte_whitespace(128));
    assert!(is_byte_whitespace(128 + 1));
    assert!(is_byte_whitespace(128 + 32));
    assert!(!is_byte_whitespace(128 + 48));
}

#[test]
fn test_reflow_retains_all_non_whitespace() {
    let cases = [
        ("", 1),
        ("  ", 3),
        ("CPU0, CPU1, CPU2, and you all win.", 25),
        ("a b c d e f", 2),
        ("word", 10),
        ("several words in a row here", 7),
        ("trailing space ", 4),
        (" leading", 3),
    ];
    for (s, width) in cases {
        let non_whitespace: String = s.chars().filter(|c| !c.is_whitespace()).collect();

        let reflowed = reflow(s, width);

        let reflowed_non_whitespace: String =
            reflowed.chars().filter(|c| !c.is_whitespace()).collect();

        assert_eq!(non_whitespace, reflowed_non_whitespace);
    }
}

#[test]
fn max_length_words_reflow() {
    assert_eq!(
        reflow("1234567890123456789012345 1234567890123456789012345", 25),
        "1234567890123456789012345\n1234567890123456789012345".to_string()
    );
}

#[test]
fn reflow_handles_word_split_at_exactly_the_len() {
    assert_eq!(
        reflow("CPU0, CPU1, CPU2, and you all win.", 25),
        "CPU0, CPU1, CPU2, and you\nall win.".to_string()
    );
}

#[test]
fn bytes_reflow_handles_word_split_just_before_the_len() {
    assert_eq!(
        bytes_reflow(b"CPU 1 played a Queen of clubs.", 28),
        b"CPU 1 played a Queen of\nclubs.".to_vec()
    );
}

#[test]
fn reflow_does_not_add_a_space_if_there_is_no_room() {
    assert_eq!(reflow("12345 67890", 5), "12345\n67890".to_string());
}

#[test]
fn bytes_reflow_does_not_add_a_space_if_there_is_no_room() {
    assert_eq!(bytes_reflow(b"12345 67890", 5), b"12345\n67890".to_vec());
}

fn bytes_reflow_in_place_matches_bytes_reflow(s: Vec<u8>, width: usize) -> bool {
    if width == 0 {
        return true;
    }
    let mut vec = s.clone();

    if byte_reflow_early_out(&vec, width) {
        return true;
    }
    let copied = bytes_reflow(&vec, width);
    bytes_reflow_in_place(&mut vec, width);
    let in_place = vec;
    assert_eq!(copied.len(), in_place.len());
    for (c, i) in copied.iter().zip(in_place.iter()) {
        assert_eq!(c, i);
    }

    true
}

#[test]
fn test_bytes_reflow_in_place_matches_bytes_reflow_A() {
    let r = bytes_reflow_in_place_matches_bytes_reflow(vec![26], 1);
    assert!(r);
}

fn bytes_next_word_matches_bytes_split_whitespace_check(s: Vec<u8>) -> bool {
    let bytes = &s;

    let split = bytes_split_whitespace(bytes);
    let mut split_iter = split.iter();

    let mut next_i = 0;
    while let Some((w_i, len)) = bytes_next_word(bytes, &mut next_i) {
        let word = split_iter.next().unwrap();
        assert_eq!(len, word.len());
        let mut i = w_i;
        for c in word.iter() {
            assert_eq!(*c, bytes[i]);
            i += 1;
        }
    }
    assert!(split_iter.next().is_none());

    true
}

#[test]
fn test_bytes_next_word_matches_bytes_split_whitespace() {
    for (bytes, _) in reflow_case_list() {
        assert!(bytes_next_word_matches_bytes_split_whitespace_check(bytes));
    }
}

#[test]
fn test_bytes_next_word_matches_bytes_split_whitespace_A() {
    let r = bytes_next_word_matches_bytes_split_whitespace_check(vec![0, 26]);
    assert!(r);
}

#[test]
fn bytes_reflow_in_place_matches_bytes_reflow_on_many_cases() {
    for (bytes, width) in reflow_case_list() {
        assert!(bytes_reflow_in_place_matches_bytes_reflow(bytes, width));
    }
}

#[test]
fn bytes_reflow_in_place_leaves_zero_width_unchanged() {
    let mut v = b"some words here".to_vec();
    let before = v.clone();
    bytes_reflow_in_place(&mut v, 0);
    assert_eq!(v, before);
}

#[test]
fn bytes_lines_splits_and_keeps_empty_segments() {
    let lines = bytes_lines(b"ab\n\ncd");
    assert_eq!(lines.len(), 3);
    assert_eq!(lines[0], b"ab".to_vec());
    assert_eq!(lines[1], Vec::<u8>::new());
    assert_eq!(lines[2], b"cd".to_vec());

    let empty = bytes_lines(b"");
    assert_eq!(empty.len(), 1);
    assert_eq!(empty[0], Vec::<u8>::new());
}

#[test]
fn slice_until_first_0_cuts_at_the_first_zero() {
    let v = [1u8, 2, 0, 3, 4];
    assert_eq!(hexswap::text::slice_until_first_0(&v), &[1u8, 2][..]);

    let no_zero = [9u8, 8, 7];
    assert_eq!(hexswap::text::slice_until_first_0(&no_zero), &[9u8, 8, 7][..]);

    // the sentinel quirk: a first zero exactly at position 255 keeps the
    // whole slice
    let mut quirky = vec![1u8; 256];
    quirky[255] = 0;
    assert_eq!(hexswap::text::slice_until_first_0(&quirky), &quirky[..]);
}
