use anthropic_provider::utf8_stream::{push_chunk_utf8, Utf8Error};

#[test]
fn utf8_char_split_across_chunks() {
    // "…" is E2 80 A6; a chunk boundary in the middle must not error.
    let text = "context truncated…done".as_bytes();
    let (a, b) = text.split_at(text.iter().position(|&b| b == 0xE2).unwrap() + 1);
    let mut buf = String::new();
    let mut pending = Vec::new();
    push_chunk_utf8(&mut buf, &mut pending, a).unwrap();
    assert_eq!(buf, "context truncated");
    assert_eq!(pending, [0xE2]);
    push_chunk_utf8(&mut buf, &mut pending, b).unwrap();
    assert_eq!(buf, "context truncated…done");
    assert!(pending.is_empty());
}

#[test]
fn utf8_char_split_one_byte_per_chunk() {
    let mut buf = String::new();
    let mut pending = Vec::new();
    for byte in "🎉".as_bytes() {
        push_chunk_utf8(&mut buf, &mut pending, &[*byte]).unwrap();
    }
    assert_eq!(buf, "🎉");
    assert!(pending.is_empty());
}

#[test]
fn utf8_genuinely_invalid_bytes_error() {
    let mut buf = String::new();
    let mut pending = Vec::new();
    // 0xE2 followed by an ASCII byte can never form a valid character.
    assert!(push_chunk_utf8(&mut buf, &mut pending, &[0xE2, b'x']).is_err());
}

#[test]
fn utf8_error_leaves_text_and_keeps_bytes() {
    let mut buf = "before".to_string();
    let mut pending = vec![0xE2];
    let r = push_chunk_utf8(&mut buf, &mut pending, b"x");
    assert_eq!(r, Err(Utf8Error { valid_up_to: 0, error_len: 1 }));
    assert_eq!(buf, "before");
    assert_eq!(pending, [0xE2, b'x']);
}

#[test]
fn utf8_error_message() {
    let e = Utf8Error { valid_up_to: 120, error_len: 3 };
    assert_eq!(e.message(), "invalid utf-8 sequence of 3 bytes from index 120");
}

/// The outcome on fresh buffers is what the standard library finds.
fn agrees_with_std(bytes: &[u8]) {
    let mut buf = String::new();
    let mut pending = Vec::new();
    let r = push_chunk_utf8(&mut buf, &mut pending, bytes);
    match std::str::from_utf8(bytes) {
        Ok(s) => {
            assert_eq!(r, Ok(()));
            assert_eq!(buf, s);
            assert!(pending.is_empty());
        }
        Err(e) => match e.error_len() {
            None => {
                assert_eq!(r, Ok(()));
                assert_eq!(buf.as_bytes(), &bytes[..e.valid_up_to()]);
                assert_eq!(pending, &bytes[e.valid_up_to()..]);
            }
            Some(n) => {
                let mine = r.unwrap_err();
                assert_eq!(mine.valid_up_to, e.valid_up_to());
                assert_eq!(mine.error_len, n);
                assert_eq!(mine.message(), e.to_string());
                assert!(buf.is_empty());
                assert_eq!(pending, bytes);
            }
        },
    }
}

#[test]
fn utf8_agrees_with_std_on_two_bytes() {
    for a in 0..=255u8 {
        for b in 0..=255u8 {
            agrees_with_std(&[a, b]);
            agrees_with_std(&[b'x', a, b]);
        }
    }
}

#[test]
fn utf8_agrees_with_std_on_boundary_bytes() {
    let edges = [
        0x00, 0x41, 0x7f, 0x80, 0x8f, 0x90, 0x9f, 0xa0, 0xbf, 0xc1, 0xc2, 0xdf, 0xe0, 0xed, 0xef, 0xf0,
        0xf4, 0xf5, 0xff,
    ];
    for a in edges {
        for b in edges {
            for c in edges {
                agrees_with_std(&[a, b, c]);
                for d in edges {
                    agrees_with_std(&[a, b, c, d]);
                }
            }
        }
    }
}

#[test]
fn utf8_every_split_gives_the_same_text() {
    let text = "añ€🎉…z";
    let bytes = text.as_bytes();
    for i in 0..=bytes.len() {
        for j in i..=bytes.len() {
            let mut buf = String::new();
            let mut pending = Vec::new();
            push_chunk_utf8(&mut buf, &mut pending, &bytes[..i]).unwrap();
            let mut all = buf.clone().into_bytes();
            all.extend_from_slice(&pending);
            assert_eq!(all, &bytes[..i]);
            assert!(pending.len() <= 3);
            push_chunk_utf8(&mut buf, &mut pending, &bytes[i..j]).unwrap();
            push_chunk_utf8(&mut buf, &mut pending, &bytes[j..]).unwrap();
            assert_eq!(buf, text);
            assert!(pending.is_empty());
        }
    }
}
