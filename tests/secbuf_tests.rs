use secbuf::{url_safe, url_unsafe, Bufferable, ProtectState, RustBuf, SecBuf, SodiumError, PARITY_LEN};

fn fill<B: Bufferable>(b: &mut SecBuf<B>, seed: u8) {
    let mut g = b.write_lock();
    let n = g.len();
    let mut x: u8 = seed;
    for i in 0..n {
        x = x.wrapping_mul(73).wrapping_add(41);
        g.set(i, x);
    }
}

fn read_all<B: Bufferable>(b: &mut SecBuf<B>) -> Vec<u8> {
    let g = b.read_lock();
    g.to_vec()
}

fn render_of<B: Bufferable>(b: &mut SecBuf<B>) -> String {
    let g = b.read_lock();
    g.render()
}

#[test]
fn it_should_encode_insecure_secbuf_8() {
    let mut b = SecBuf::with_insecure(8);
    fill(&mut b, 3);
    let orig = read_all(&mut b);
    let enc = render_of(&mut b);
    let mut b_copy = SecBuf::insecurely_corrected(&enc).unwrap();
    assert_eq!(format!("{:?}", read_all(&mut b_copy)), format!("{:?}", orig));
}

#[test]
fn it_should_encode_secure_secbuf_8() {
    let mut b = SecBuf::<RustBuf>::with_secure(8);
    fill(&mut b, 5);
    let orig = read_all(&mut b);
    let enc = render_of(&mut b);
    let mut b_copy = SecBuf::<RustBuf>::securely_corrected(&enc).unwrap();
    assert_eq!(format!("{:?}", read_all(&mut b_copy)), format!("{:?}", orig));
}

#[test]
fn it_should_encode_secure_secbuf_64() {
    let mut b = SecBuf::<RustBuf>::with_secure(64);
    fill(&mut b, 7);
    let orig = read_all(&mut b);
    let enc = render_of(&mut b);
    let mut b_copy = SecBuf::<RustBuf>::securely_corrected(&enc).unwrap();
    assert_eq!(format!("{:?}", read_all(&mut b_copy)), format!("{:?}", orig));
}

#[test]
fn it_should_read_write_insecure() {
    let mut b = SecBuf::with_insecure(16);
    assert_eq!(ProtectState::NoAccess, b.protect_state());

    {
        let mut b = b.write_lock();
        assert_eq!(ProtectState::ReadWrite, b.protect_state());
        b.set(0, 12);
    }

    {
        let b = b.read_lock();
        assert_eq!(ProtectState::ReadOnly, b.protect_state());
        assert_eq!(b.get(0), 12);
    }
}

#[test]
fn it_should_read_write_secure() {
    let mut b = SecBuf::<RustBuf>::with_secure(16);
    assert_eq!(ProtectState::NoAccess, b.protect_state());

    {
        let mut b = b.write_lock();
        assert_eq!(ProtectState::ReadWrite, b.protect_state());
        b.set(0, 12);
    }

    {
        let b = b.read_lock();
        assert_eq!(ProtectState::ReadOnly, b.protect_state());
        assert_eq!(b.get(0), 12);
    }
}

#[test]
fn it_should_debug() {
    let mut b = SecBuf::with_insecure(2);
    {
        let mut b = b.write_lock();
        b.set(0, 42);
        b.set(1, 222);
    }
    {
        let b = b.read_lock();
        assert_eq!("[42, 222]", format!("{:?}", b.to_vec()));
    }
}

#[test]
fn guard_release_closes_buffer() {
    let mut b = SecBuf::with_insecure(4);
    {
        let g = b.write_lock();
        assert_eq!(ProtectState::ReadWrite, g.protect_state());
    }
    assert_eq!(ProtectState::NoAccess, b.protect_state());
    {
        let g = b.read_lock();
        assert_eq!(ProtectState::ReadOnly, g.protect_state());
    }
    assert_eq!(ProtectState::NoAccess, b.protect_state());
}

fn early_exit(b: &mut SecBuf<RustBuf>, stop: bool) -> u8 {
    let g = b.read_lock();
    if stop {
        return 1;
    }
    g.get(0)
}

#[test]
fn guard_release_on_early_return() {
    let mut b = SecBuf::with_insecure(4);
    assert_eq!(early_exit(&mut b, true), 1);
    assert_eq!(ProtectState::NoAccess, b.protect_state());
    assert_eq!(early_exit(&mut b, false), 0);
    assert_eq!(ProtectState::NoAccess, b.protect_state());
}

#[test]
fn state_machine_transitions() {
    let mut b = SecBuf::with_insecure(3);
    b.readable();
    assert_eq!(ProtectState::ReadOnly, b.protect_state());
    b.noaccess();
    b.writable();
    assert_eq!(ProtectState::ReadWrite, b.protect_state());
    b.set(2, 9);
    assert_eq!(b.get(2), 9);
    b.noaccess();
    assert_eq!(ProtectState::NoAccess, b.protect_state());
    assert_eq!(b.len(), 3);
}

#[test]
fn secure_sizes_are_accepted() {
    for s in [8usize, 16, 32, 64] {
        let b = SecBuf::<RustBuf>::with_secure(s);
        assert_eq!(b.len(), s);
        assert_eq!(ProtectState::NoAccess, b.protect_state());
    }
    let b = SecBuf::with_insecure(0);
    assert_eq!(b.len(), 0);
}

#[test]
fn new_buffers_are_zeroed() {
    let mut b = SecBuf::<RustBuf>::with_secure(32);
    assert_eq!(read_all(&mut b), vec![0u8; 32]);
}

#[test]
fn convert_copies_into_front() {
    let mut b = SecBuf::with_insecure(5);
    SecBuf::convert_array_to_secbuf(&[1, 2, 3], &mut b);
    assert_eq!(ProtectState::NoAccess, b.protect_state());
    assert_eq!(read_all(&mut b), vec![1, 2, 3, 0, 0]);
}

#[test]
fn render_zero_byte_twelve_round_trip() {
    let mut b = SecBuf::with_insecure(8);
    {
        let mut g = b.write_lock();
        g.set(0, 12);
    }
    let s = render_of(&mut b);
    let mut c = SecBuf::insecurely_corrected(&s).unwrap();
    let g = c.read_lock();
    assert_eq!(g.len(), 8);
    assert_eq!(g.get(0), 12);
    for i in 1..8 {
        assert_eq!(g.get(i), 0);
    }
}

#[test]
fn render_is_deterministic_and_url_safe() {
    let mut b = SecBuf::with_insecure(32);
    fill(&mut b, 11);
    let s1 = render_of(&mut b);
    let s2 = render_of(&mut b);
    assert_eq!(s1, s2);
    assert!(!s1.contains('+') && !s1.contains('/'));
    // 32 payload bytes and the parity symbols, in padded base64
    assert_eq!(s1.len(), (32 + PARITY_LEN + 2) / 3 * 4);
    // 37 bytes leave one byte in the last group: two padding characters
    assert!(s1.ends_with("=="));
    assert!(!s1[..s1.len() - 2].contains('='));
}

#[test]
fn render_of_known_bytes() {
    let mut b = SecBuf::with_insecure(3);
    SecBuf::convert_array_to_secbuf(&[0xfb, 0xff, 0xfe], &mut b);
    let s = render_of(&mut b);
    assert!(s.starts_with("-__-"));
    assert_ne!(s.as_bytes(), &[0xfbu8, 0xff, 0xfe][..]);
}

#[test]
fn substituted_variants_decode_alike() {
    let mut found = false;
    for seed in 0..40u8 {
        let mut b = SecBuf::with_insecure(16);
        fill(&mut b, seed);
        let orig = read_all(&mut b);
        let s = render_of(&mut b);
        let plain = s.replace('-', "+").replace('_', "/");
        if plain != s {
            found = true;
        }
        let mut x = SecBuf::insecurely_corrected(&s).unwrap();
        let mut y = SecBuf::insecurely_corrected(&plain).unwrap();
        assert_eq!(read_all(&mut x), orig);
        assert_eq!(read_all(&mut y), orig);
    }
    assert!(found);
}

#[test]
fn one_altered_character_is_repaired() {
    let mut b = SecBuf::with_insecure(16);
    fill(&mut b, 13);
    let orig = read_all(&mut b);
    let s = render_of(&mut b);
    let first = s.chars().next().unwrap();
    let other = if first == 'A' { 'B' } else { 'A' };
    let altered: String = std::iter::once(other).chain(s.chars().skip(1)).collect();
    assert_ne!(altered, s);
    let mut c = SecBuf::insecurely_corrected(&altered).unwrap();
    assert_eq!(read_all(&mut c), orig);
}

#[test]
fn heavy_corruption_is_an_error() {
    let mut b = SecBuf::with_insecure(16);
    fill(&mut b, 17);
    let s = render_of(&mut b);
    let altered: String = s
        .chars()
        .enumerate()
        .map(|(i, ch)| if i < 16 { if ch == 'Q' { 'R' } else { 'Q' } } else { ch })
        .collect();
    assert_eq!(
        SecBuf::insecurely_corrected(&altered).err(),
        Some(SodiumError::CorrectionError)
    );
}

#[test]
fn malformed_text_is_a_decode_error() {
    assert_eq!(
        SecBuf::insecurely_corrected("not base64!").err(),
        Some(SodiumError::DecodeError)
    );
    assert_eq!(SecBuf::<RustBuf>::securely_corrected("a").err(), Some(SodiumError::DecodeError));
    assert_eq!(SecBuf::<RustBuf>::try_securely_corrected("a").err(), Some(SodiumError::DecodeError));
}

#[test]
fn too_short_block_is_a_correction_error() {
    assert_eq!(
        SecBuf::insecurely_corrected("AAA=").err(),
        Some(SodiumError::CorrectionError)
    );
}

#[test]
fn secure_payload_of_bad_size_is_refused() {
    let mut b = SecBuf::with_insecure(3);
    fill(&mut b, 19);
    let s = render_of(&mut b);
    assert_eq!(SecBuf::<RustBuf>::try_securely_corrected(&s).err(), Some(SodiumError::BadSize));
    let mut c = SecBuf::insecurely_corrected(&s).unwrap();
    assert_eq!(c.len(), 3);
    assert_eq!(read_all(&mut c), read_all(&mut b));
}

#[test]
fn substitution_helpers() {
    assert_eq!(url_safe(b"a+b/c"), b"a-b_c".to_vec());
    assert_eq!(url_unsafe(b"a-b_c"), b"a+b/c".to_vec());
    assert_eq!(url_unsafe(&url_safe(b"+/AZ09=")), b"+/AZ09=".to_vec());
}

#[test]
fn plain_store_holds_bytes() {
    let mut s = RustBuf::new(4);
    assert_eq!(s.len(), 4);
    assert_eq!(s.ref_(), &[0u8, 0, 0, 0][..]);
    s.writable();
    s.set(1, 7);
    s.noaccess();
    s.readable();
    assert_eq!(s.ref_(), &[0u8, 7, 0, 0][..]);
}

#[test]
fn checked_secure_decoder_accepts_allowed_size() {
    let mut b = SecBuf::<RustBuf>::with_secure(32);
    fill(&mut b, 23);
    let orig = read_all(&mut b);
    let s = render_of(&mut b);
    let mut c = SecBuf::<RustBuf>::try_securely_corrected(&s).unwrap();
    assert_eq!(c.len(), 32);
    assert_eq!(read_all(&mut c), orig);
}
