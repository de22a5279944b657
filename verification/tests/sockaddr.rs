use sallyport_accept4::accept4::Accept4;
use sallyport_accept4::block::Allocator;
use sallyport_accept4::sockaddr::SockaddrOutput;

fn stage_and_commit(
    buf_len: usize,
    addrlen: u32,
    block: &mut Vec<u8>,
) -> sallyport_accept4::sockaddr::CommittedSockaddrOutput {
    let mut alloc = Allocator::new(block.len());
    let dest = SockaddrOutput::new(vec![0xaa; buf_len], addrlen);
    let st = dest.stage(&mut alloc).unwrap();
    st.commit(block)
}

#[test]
fn commit_writes_the_length_little_endian() {
    let mut block = vec![0xffu8; 32];
    let c = stage_and_commit(16, 0x0102, &mut block);
    assert_eq!(c.addr.offset, 1);
    assert_eq!(c.addrlen.offset, 20);
    // 0x0102 exceeds the buffer: the length is clamped to 16.
    assert_eq!(&block[20..24], &[16, 0, 0, 0]);
    // Nothing else changes.
    assert!(block[..20].iter().all(|b| *b == 0xff));
    assert!(block[24..].iter().all(|b| *b == 0xff));
}

#[test]
fn commit_keeps_a_smaller_length() {
    let mut block = vec![0u8; 32];
    let c = stage_and_commit(16, 10, &mut block);
    let o = c.addrlen.offset;
    assert_eq!(&block[o..o + 4], &[10, 0, 0, 0]);
}

#[test]
fn collect_copies_the_reported_length() {
    let mut block = vec![0u8; 32];
    let c = stage_and_commit(16, 16, &mut block);
    // The call reports an 8-byte address.
    for i in 0..8 {
        block[1 + i] = i as u8 + 1;
    }
    block[20..24].copy_from_slice(&8u32.to_le_bytes());
    let out = c.collect(&block);
    assert_eq!(out.addrlen, 8);
    assert_eq!(&out.addr[..8], &[1, 2, 3, 4, 5, 6, 7, 8]);
    assert_eq!(&out.addr[8..], &[0xaa; 8]);
}

#[test]
fn collect_truncates_a_longer_address() {
    let mut block = vec![0u8; 32];
    let c = stage_and_commit(4, 4, &mut block);
    // Slots: address at 1..5, length at 8..12.
    block[1..5].copy_from_slice(&[9, 8, 7, 6]);
    block[8..12].copy_from_slice(&300u32.to_le_bytes());
    let out = c.collect(&block);
    assert_eq!(out.addrlen, 300);
    assert_eq!(out.addr, vec![9, 8, 7, 6]);
}

#[test]
fn collect_never_copies_past_the_callers_length() {
    let mut block = vec![0u8; 32];
    // A 16-byte buffer of which the call may fill only 8.
    let c = stage_and_commit(16, 8, &mut block);
    assert_eq!(&block[20..24], &[8, 0, 0, 0]);
    for i in 0..16 {
        block[1 + i] = 0x11;
    }
    // The host reports a 16-byte address all the same.
    block[20..24].copy_from_slice(&16u32.to_le_bytes());
    let out = c.collect(&block);
    assert_eq!(out.addrlen, 16);
    assert_eq!(&out.addr[..8], &[0x11; 8]);
    assert_eq!(&out.addr[8..], &[0xaa; 8]);
}

#[test]
fn round_trip_through_an_untouched_block() {
    let mut block = vec![0x5au8; 24];
    let c = stage_and_commit(16, 100, &mut block);
    let out = c.collect(&block);
    assert_eq!(out.addrlen, 16);
    assert_eq!(out.addr, vec![0x5a; 16]);
}

#[test]
fn accept4_stage_commit_collect() {
    let mut block = vec![0u8; 64];
    let mut alloc = Allocator::new(block.len());
    let dest = SockaddrOutput::new(vec![0u8; 16], 16);
    let (argv, staged) = Accept4 { sockfd: 3, addr: Some(dest), flags: libc::SOCK_CLOEXEC }
        .stage(&mut alloc)
        .unwrap();
    let committed = staged.map(|st| st.commit(&mut block));
    // The host fills in an IPv4 address of 16 bytes.
    let (a, l) = (argv.0[1], argv.0[2]);
    let sa: [u8; 16] = [2, 0, 0x1f, 0x90, 127, 0, 0, 1, 0, 0, 0, 0, 0, 0, 0, 0];
    block[a..a + 16].copy_from_slice(&sa);
    block[l..l + 4].copy_from_slice(&16u32.to_le_bytes());
    let (ret, out) = Accept4::collect(committed, Ok(42), &block);
    assert_eq!(ret, Ok(42));
    let out = out.unwrap();
    assert_eq!(out.addrlen, 16);
    assert_eq!(out.addr, sa.to_vec());
}
