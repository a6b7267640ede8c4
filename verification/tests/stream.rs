use pipes::{duplex_pipe, duplex_pipe_from_string, Error, ShutdownHow};

#[test]
fn bytes_round_trip_through_established_channel() {
    let (dp, pkg) = duplex_pipe().expect("establish failed");
    let res: Result<(), Error> = pkg.with_fds(|tok| {
        // Decoding in the very process that rendered the token is the allowed
        // same-process case: the named descriptors are still open here.
        let dp2 = duplex_pipe_from_string(&tok)?;

        let parent_msg: Vec<u8> = b"hello from parent".to_vec();
        dp.s.write_all(&parent_msg)?;
        let got = dp2.r.read_exact(parent_msg.len())?;
        assert_eq!(got, parent_msg);

        let child_msg: Vec<u8> = b"hello from child".to_vec();
        dp2.s.write_all(&child_msg)?;
        let got = dp.r.read_exact(child_msg.len())?;
        assert_eq!(got, child_msg);

        // Order is kept within one direction.
        dp.s.write_all(&vec![1u8, 2, 3])?;
        dp.s.write_all(&vec![4u8, 5])?;
        let got = dp2.r.read_exact(5)?;
        assert_eq!(got, vec![1u8, 2, 3, 4, 5]);

        // Closing (shutting down) the write side makes the peer's next read
        // return zero bytes: end of stream, not an error.
        dp.s.shutdown(ShutdownHow::Write)?;
        let mut buf: Vec<u8> = vec![0u8; 8];
        let n = dp2.r.read(&mut buf, 0)?;
        assert_eq!(n, 0);
        Ok(())
    });
    res.expect("exchange failed");
    dp.r.close().expect("close failed");
    dp.s.close().expect("close failed");
}

#[test]
fn decode_of_unrelated_descriptors_fails_with_os_error() {
    // A well-formed token naming descriptors this process does not hold:
    // adoption must surface the OS error, distinct from any parse error.
    let r = duplex_pipe_from_string("dpipe:1000000,1000001");
    assert!(matches!(r, Err(Error::Os(_))));
}

#[test]
fn establish_gives_usable_distinct_endpoints() {
    let (dp, pkg) = duplex_pipe().expect("establish failed");
    // Encoding is repeatable and side-effect-free while the package lives;
    // the token it renders is well-formed.
    let tok: Result<String, Error> = pkg.with_fds(Ok);
    let tok = tok.expect("token");
    assert!(tok.starts_with("dpipe:"));
    assert!(pipes::decode_token(&tok).is_ok());
    dp.r.close().expect("close failed");
    dp.s.close().expect("close failed");
}

#[test]
fn read_exact_past_end_of_stream_is_eof() {
    let (dp, pkg) = duplex_pipe().expect("establish failed");
    let res: Result<(), Error> = pkg.with_fds(|tok| {
        let dp2 = duplex_pipe_from_string(&tok)?;
        dp.s.write_all(&vec![7u8, 8])?;
        dp.s.shutdown(ShutdownHow::Write)?;
        // Two bytes are owed and arrive; asking for a third finds the stream
        // ended.
        let got = dp2.r.read_exact(2)?;
        assert_eq!(got, vec![7u8, 8]);
        assert_eq!(dp2.r.read_exact(1), Err(Error::Eof));
        Ok(())
    });
    res.expect("exchange failed");
    dp.r.close().expect("close failed");
    dp.s.close().expect("close failed");
}

#[test]
fn zero_length_transfers_always_succeed() {
    let (dp, pkg) = duplex_pipe().expect("establish failed");
    // Nothing is owed, so no OS transfer is needed and success is promised.
    assert_eq!(dp.s.write_all(&Vec::new()), Ok(()));
    assert_eq!(dp.r.read_exact(0), Ok(Vec::new()));
    let _ = pkg.with_fds(|_tok| Ok::<(), Error>(()));
    dp.r.close().expect("close failed");
    dp.s.close().expect("close failed");
}
