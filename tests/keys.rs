use vanity_address::keys::{address_from_digest, generate_key_address, hex_of_range, public_key_address};

fn is_lower_hex(s: &str) -> bool {
    s.chars().all(|c| c.is_ascii_digit() || ('a'..='f').contains(&c))
}

#[test]
fn hex_of_range_encodes_high_nibble_first() {
    let bytes = [0x00u8, 0x0f, 0xa5, 0xff, 0x10];
    assert_eq!(hex_of_range(&bytes, 0, 5), "000fa5ff10");
    assert_eq!(hex_of_range(&bytes, 2, 4), "a5ff");
    assert_eq!(hex_of_range(&bytes, 3, 3), "");
}

#[test]
fn address_from_digest_takes_last_twenty_bytes() {
    let mut digest = [0u8; 32];
    for (i, b) in digest.iter_mut().enumerate() {
        *b = i as u8;
    }
    assert_eq!(
        address_from_digest(&digest),
        "0c0d0e0f101112131415161718191a1b1c1d1e1f"
    );
}

#[test]
fn address_of_generator_point() {
    // The public key of the secret key 1 is the curve's generator.
    let hex = "0479be667ef9dcbbac55a06295ce870b07029bfcdb2dce28d959f2815b16f81798\
               483ada7726a3c4655da4fbfc0e1108a8fd17b448a68554199c47d08ffb10d4b8";
    let mut public_key = [0u8; 65];
    for i in 0..65 {
        public_key[i] = u8::from_str_radix(&hex[2 * i..2 * i + 2], 16).unwrap();
    }
    assert_eq!(
        public_key_address(&public_key),
        "7e5f4552091a69125d5dfcb7b8c2659029395bdf"
    );
}

#[test]
fn generated_candidates_are_hex_of_fixed_length() {
    let mut rng = rand::thread_rng();
    let a = generate_key_address(&mut rng);
    let b = generate_key_address(&mut rng);
    assert_eq!(a.private_key.len(), 64);
    assert_eq!(a.address.len(), 40);
    assert!(is_lower_hex(&a.private_key));
    assert!(is_lower_hex(&a.address));
    assert_ne!(a.private_key, b.private_key);
}
