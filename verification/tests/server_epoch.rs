use herdr::server_epoch::{
    init, init_into, mint_from, mint_with, refusal_message, server_epoch, token_of,
    EntropyUnavailable, EpochCell, EPOCH_BYTES,
};

/// An entropy source that is unavailable.
fn entropy_unavailable(_dest: &mut [u8]) -> Result<(), getrandom::Error> {
    Err(getrandom::Error::UNSUPPORTED)
}

#[test]
fn init_then_read_is_stable_within_one_process() {
    let mut cell = EpochCell::new();
    init(&mut cell).expect("entropy must be available in test");
    let first = server_epoch(&cell).expect("initialised");
    let second = server_epoch(&cell).expect("initialised");
    assert_eq!(first, second, "the token must not change within a process");
}

#[test]
fn the_token_is_32_lowercase_hex_characters() {
    let mut cell = EpochCell::new();
    init(&mut cell).expect("entropy must be available in test");
    let e = server_epoch(&cell).expect("initialised");
    assert_eq!(e.len(), EPOCH_BYTES * 2, "128 bits, hex-encoded");
    assert!(
        e.bytes()
            .all(|b| b.is_ascii_digit() || (b'a'..=b'f').contains(&b)),
        "lowercase hex only: {e}"
    );
}

#[test]
fn a_second_init_does_not_re_mint() {
    let mut cell = EpochCell::new();
    init(&mut cell).expect("entropy");
    let first = server_epoch(&cell).expect("initialised").to_string();
    init(&mut cell).expect("entropy");
    assert_eq!(
        server_epoch(&cell).expect("initialised"),
        first,
        "re-initialising must not change the token"
    );
}

#[test]
fn independent_mints_differ() {
    let a = mint_with(getrandom::fill).expect("entropy");
    let b = mint_with(getrandom::fill).expect("entropy");
    assert_ne!(a, b, "two mints must differ");
    assert_eq!(a.len(), EPOCH_BYTES * 2);
    assert_eq!(b.len(), EPOCH_BYTES * 2);
}

#[test]
fn without_entropy_minting_refuses_instead_of_producing_a_token() {
    let err = mint_with(entropy_unavailable).expect_err("no entropy, no token");
    let message = err.message();
    assert!(
        message.contains("cannot mint the server incarnation token"),
        "the refusal must name what could not be done: {message}"
    );
    assert!(
        message.contains("OS entropy unavailable"),
        "the refusal must name the cause: {message}"
    );
}

#[test]
fn a_refused_mint_publishes_no_token() {
    let mut cell = EpochCell::new();
    init_into(&mut cell, entropy_unavailable).expect_err("init must propagate the refusal");
    assert!(
        server_epoch(&cell).is_none(),
        "a refused mint must publish nothing, not an empty or partial token"
    );
}

#[test]
fn an_already_minted_cell_is_untouched_by_a_later_refusal() {
    let mut cell = EpochCell::new();
    init_into(&mut cell, getrandom::fill).expect("entropy");
    let minted = server_epoch(&cell).expect("initialised").to_string();
    init_into(&mut cell, entropy_unavailable).expect("an already-minted cell must not fail");
    assert_eq!(
        server_epoch(&cell),
        Some(minted.as_str()),
        "a refusal after a successful mint must not clear or replace the token"
    );
}

#[test]
fn a_minted_cell_does_not_ask_for_entropy() {
    let mut cell = EpochCell::new();
    init(&mut cell).expect("entropy");
    init_into(&mut cell, |_dest: &mut [u8]| panic!("entropy was drawn again")).expect("minted");
}

#[test]
fn a_cell_can_be_filled_after_a_refusal() {
    let mut cell = EpochCell::new();
    init_into(&mut cell, entropy_unavailable).expect_err("no entropy");
    init_into(&mut cell, getrandom::fill).expect("entropy");
    assert!(server_epoch(&cell).is_some());
}

#[test]
fn the_source_is_asked_for_all_the_bytes() {
    let token = mint_with(|dest: &mut [u8]| {
        assert_eq!(dest, [0u8; 16]);
        for (i, b) in dest.iter_mut().enumerate() {
            *b = 16 * (i as u8) + 15 - (i as u8);
        }
        Ok(())
    })
    .expect("filled");
    assert_eq!(token, "0f1e2d3c4b5a69788796a5b4c3d2e1f0");
}

#[test]
fn a_token_is_its_bytes_in_hexadecimal() {
    assert_eq!(token_of(&[0u8; 16]), "00000000000000000000000000000000");
    assert_eq!(token_of(&[255u8; 16]), "ffffffffffffffffffffffffffffffff");
    let bytes: [u8; 16] = [0, 1, 9, 10, 15, 16, 31, 99, 100, 127, 128, 160, 200, 249, 250, 255];
    assert_eq!(token_of(&bytes), "0001090a0f101f63647f80a0c8f9faff");
}

#[test]
fn tokens_of_different_bytes_differ() {
    let mut seen = Vec::new();
    for value in 0..=255u8 {
        let mut bytes = [7u8; 16];
        bytes[5] = value;
        let token = token_of(&bytes);
        assert!(!seen.contains(&token));
        seen.push(token);
    }
}

#[test]
fn what_was_drawn_decides_the_outcome() {
    assert_eq!(
        mint_from(Ok([18u8; 16])).expect("bytes were drawn"),
        "12121212121212121212121212121212"
    );
    let EntropyUnavailable(error) = mint_from(Err(getrandom::Error::UNEXPECTED)).expect_err("none drawn");
    assert_eq!(error, getrandom::Error::UNEXPECTED);
}

#[test]
fn a_refusal_says_what_and_why() {
    assert_eq!(
        refusal_message("no device"),
        "cannot mint the server incarnation token: OS entropy unavailable (no device)"
    );
    assert_eq!(
        EntropyUnavailable(getrandom::Error::UNSUPPORTED).message(),
        "cannot mint the server incarnation token: OS entropy unavailable \
         (getrandom: this target is not supported)"
    );
}
