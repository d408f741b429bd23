use hermes_yamcs::encoding::base64_to_bytes;

const SYMBOLS: &[u8] = b"ABCDEFGHIJKLMNOPQRSTUVWXYZabcdefghijklmnopqrstuvwxyz0123456789+/";

fn encode(bytes: &[u8]) -> String {
    let mut text = String::new();
    for group in bytes.chunks(3) {
        let mut bits: usize = 0;
        for i in 0..3 {
            bits = bits * 256 + usize::from(*group.get(i).unwrap_or(&0));
        }
        for i in 0..4 {
            if i <= group.len() {
                text.push(char::from(SYMBOLS[(bits >> (18 - 6 * i)) % 64]));
            } else {
                text.push('=');
            }
        }
    }
    text
}

#[test]
fn base64_vectors() {
    let vectors = [
        ("", ""),
        ("Zg==", "f"),
        ("Zm8=", "fo"),
        ("Zm9v", "foo"),
        ("Zm9vYg==", "foob"),
        ("Zm9vYmE=", "fooba"),
        ("Zm9vYmFy", "foobar"),
    ];
    for (text, bytes) in vectors {
        assert_eq!(encode(bytes.as_bytes()), text);
        assert_eq!(base64_to_bytes(text), Ok(bytes.as_bytes().to_vec()));
    }
}

#[test]
fn base64_form_decodes_to_its_bytes() {
    let mut state: u32 = 1;
    for len in 0..200 {
        let bytes: Vec<u8> = (0..len)
            .map(|_| {
                state = state.wrapping_mul(1664525).wrapping_add(1013904223);
                (state >> 24) as u8
            })
            .collect();
        let text = encode(&bytes);
        assert_eq!(base64_to_bytes(&text), Ok(bytes));
    }
}

#[test]
fn nothing_but_the_base64_form_is_accepted() {
    let rejected = [
        ("Z", "Invalid input length: 1"),
        ("Zg", "Invalid padding"),
        ("Zg=", "Invalid padding"),
        ("Zg===", "Invalid symbol 61, offset 2."),
        ("Zh==", "Invalid last symbol 104, offset 1."),
        ("Zm9=", "Invalid last symbol 57, offset 2."),
        ("Zg==Zg==", "Invalid symbol 61, offset 2."),
        ("Z===", "Invalid symbol 61, offset 1."),
        ("====", "Invalid symbol 61, offset 0."),
        ("Zm9v\n", "Invalid symbol 10, offset 4."),
        (" Zm9", "Invalid symbol 32, offset 0."),
        ("Zm-v", "Invalid symbol 45, offset 2."),
        ("Zm_v", "Invalid symbol 95, offset 2."),
        ("Zm\u{e9}", "Invalid symbol 195, offset 2."),
    ];
    for (text, reason) in rejected {
        assert_eq!(base64_to_bytes(text), Err(reason.to_string()), "{}", text);
    }
}

#[test]
fn four_symbols_decode_only_where_they_are_a_base64_form() {
    let characters: Vec<char> = "AEIQZgw09+/=- ".chars().collect();
    for &a in &characters {
        for &b in &characters {
            for &c in &characters {
                for &d in &characters {
                    let text: String = [a, b, c, d].iter().collect();
                    if let Ok(bytes) = base64_to_bytes(&text) {
                        assert_eq!(encode(&bytes), text);
                    }
                }
            }
        }
    }
}
