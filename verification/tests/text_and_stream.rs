use nvm_windows::stream::{PollOutcome, ReadBuffer, ReadOutcome};
use nvm_windows::text::{
    contains_char, decimal_string, eq_ignore_ascii_case, replace, split, starts_with, starts_with_char,
};

#[test]
fn decimal_strings() {
    assert_eq!(decimal_string(0), "0");
    assert_eq!(decimal_string(7), "7");
    assert_eq!(decimal_string(1234), "1234");
    assert_eq!(decimal_string(u64::MAX), u64::MAX.to_string());
}

#[test]
fn split_and_replace() {
    assert_eq!(split("a;b;;c", ';'), vec!["a", "b", "", "c"]);
    assert_eq!(split("", ';'), vec![""]);
    assert_eq!(replace("http=h:1", '=', "://"), "http://h:1");
    assert_eq!(replace("a=b=c", '=', "-"), "a-b-c");
}

#[test]
fn prefixes_and_cases() {
    assert!(starts_with("v22.1.0", "v22"));
    assert!(!starts_with("v2", "v22"));
    assert!(starts_with("abc", ""));
    assert!(starts_with_char("v1", 'v'));
    assert!(!starts_with_char("", 'v'));
    assert!(contains_char("a;b", ';'));
    assert!(!contains_char("ab", ';'));
    assert!(eq_ignore_ascii_case("NoNe", "none"));
    assert!(!eq_ignore_ascii_case("nones", "none"));
    assert!(!eq_ignore_ascii_case("ÑONE", "ñone"));
}

#[test]
fn read_buffer_keeps_what_does_not_fit() {
    let mut b = ReadBuffer::new();
    assert!(b.is_empty());
    let out = b.receive(vec![1, 2, 3, 4, 5, 6, 7, 8, 9, 10], 4);
    assert_eq!(out, vec![1, 2, 3, 4]);
    assert!(!b.is_empty());
    assert_eq!(b.read_pending(4), vec![5, 6, 7, 8]);
    assert_eq!(b.read_pending(0), Vec::<u8>::new());
    assert_eq!(b.read_pending(4), vec![9, 10]);
    assert!(b.is_empty());
    let out = b.receive(vec![1, 2], 8);
    assert_eq!(out, vec![1, 2]);
    assert!(b.is_empty());
}

fn filled(r: ReadOutcome) -> Vec<u8> {
    match r {
        ReadOutcome::Filled(out) => out,
        ReadOutcome::Failed => panic!("failed"),
        ReadOutcome::NotReady => panic!("not ready"),
        ReadOutcome::PollAgain => panic!("poll again"),
    }
}

#[test]
fn poll_read_serves_pending_before_polling() {
    let mut b = ReadBuffer::new();
    let out = filled(b.poll_read(3, Some(PollOutcome::Chunk(vec![1, 2, 3, 4, 5]))));
    assert_eq!(out, vec![1, 2, 3]);
    assert!(!b.is_empty());
    assert_eq!(filled(b.poll_read(3, None)), vec![4, 5]);
    assert!(b.is_empty());
    assert!(matches!(b.poll_read(3, Some(PollOutcome::NotReady)), ReadOutcome::NotReady));
    assert!(matches!(b.poll_read(3, Some(PollOutcome::Failed)), ReadOutcome::Failed));
    assert_eq!(filled(b.poll_read(3, Some(PollOutcome::End))), Vec::<u8>::new());
}

#[test]
fn poll_read_delivers_every_byte_in_order() {
    let chunks: Vec<Vec<u8>> = vec![vec![1, 2, 3, 4, 5, 6, 7], vec![8], vec![9, 10, 11]];
    let mut b = ReadBuffer::new();
    let mut delivered: Vec<u8> = Vec::new();
    let mut next = chunks.clone().into_iter();
    loop {
        let polled = if b.is_empty() {
            Some(match next.next() {
                Some(c) => PollOutcome::Chunk(c),
                None => PollOutcome::End,
            })
        } else {
            None
        };
        let at_end = matches!(polled, Some(PollOutcome::End));
        delivered.extend(filled(b.poll_read(2, polled)));
        if at_end {
            break;
        }
    }
    assert_eq!(delivered, chunks.concat());
}

#[test]
fn poll_read_empty_chunk_is_not_the_end() {
    let mut b = ReadBuffer::new();
    assert!(matches!(b.poll_read(4, Some(PollOutcome::Chunk(vec![]))), ReadOutcome::PollAgain));
    assert!(b.is_empty());
    assert_eq!(filled(b.poll_read(4, Some(PollOutcome::Chunk(vec![7])))), vec![7]);
}
