use progress_encode::encode;

fn is_letter(c: char) -> bool {
    c.is_ascii_lowercase() || c.is_ascii_uppercase()
}

#[test]
fn test_example_password() {
    let password = String::from("my-passw0rd");
    let encoded_password = encode(password.as_bytes());
    assert_eq!(encoded_password, "lEsdklcFaOOjlbma");
}

#[test]
fn empty_input_has_a_fixed_encoding() {
    assert_eq!(encode(b""), "pjqtudckibycRKbj");
}

#[test]
fn short_inputs_match_known_vectors() {
    assert_eq!(encode(b"passw0rd"), "dbabkClKcaSlJHda");
    assert_eq!(encode(b"a"), "cbQkjinclzndnndk");
    assert_eq!(encode(b"b"), "tipbcbbpckfihhkn");
    assert_eq!(encode(b"0123456789abcdef"), "lfknqYaeFiieckcZ");
}

#[test]
fn repeated_calls_agree() {
    let inputs: Vec<&[u8]> = vec![b"", b"my-passw0rd", b"ThisIsALongerPasswordToSeeHowLengthImpactsThings"];
    for input in inputs {
        assert_eq!(encode(input), encode(input));
    }
}

#[test]
fn every_encoding_is_sixteen_letters() {
    let long: Vec<u8> = (0..=255u8).cycle().take(1000).collect();
    let inputs: Vec<Vec<u8>> = vec![
        vec![],
        vec![0],
        vec![0xff; 17],
        b"my-passw0rd".to_vec(),
        (0..40u8).collect(),
        long,
    ];
    for input in inputs {
        let out = encode(&input);
        assert_eq!(out.chars().count(), 16);
        assert_eq!(out.len(), 16);
        assert!(out.chars().all(is_letter), "{}", out);
    }
}

#[test]
fn one_changed_byte_changes_the_encoding() {
    assert_eq!(encode(b"my-passw0re"), "WjkdPcwicidSjjif");
    assert_ne!(encode(b"my-passw0rd"), encode(b"my-passw0re"));
    assert_ne!(encode(b"a"), encode(b"b"));
    assert_ne!(encode(b"0123456789abcdef"), encode(b"0123456789abcdeg"));
}

#[test]
fn inputs_longer_than_the_buffer_wrap_around() {
    assert_eq!(encode(b"0123456789abcdefg"), "CKibshbkjaAcxiJN");
    assert_eq!(
        encode(b"ThisIsALongerPasswordToSeeHowLengthImpactsThings"),
        "kmaZmojiodvOddhj"
    );
    let counting: Vec<u8> = (0..40u8).collect();
    assert_eq!(encode(&counting), "tabYSllIxMMlljSX");
    assert_eq!(encode(&[0xff; 17]), "laGxlahaGlgghncC");
}

#[test]
fn a_block_read_twice_cancels_out() {
    assert_eq!(encode(b"0123456789abcdef0123456789abcdef"), encode(b""));
    assert_eq!(encode(b"0123456789abcdef0123456789abcdef"), "pjqtudckibycRKbj");
}

#[test]
fn zero_bytes_leave_the_buffer_unchanged() {
    assert_eq!(encode(&[0]), "pjqtudckibycRKbj");
    assert_eq!(encode(&[0; 40]), encode(b""));
}
