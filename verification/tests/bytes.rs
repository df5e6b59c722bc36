use light_client::bytes::{copy_bytes, rank, starts_with, Rank};

#[test]
fn rank_of_equal_strings_is_same() {
    assert_eq!(rank(b"", b""), Rank::Same);
    assert_eq!(rank(b"abc", b"abc"), Rank::Same);
}

#[test]
fn rank_goes_by_the_first_byte_that_differs() {
    assert_eq!(rank(b"abc", b"abd"), Rank::Before);
    assert_eq!(rank(b"abd", b"abc"), Rank::After);
    assert_eq!(rank(b"b", b"abcdef"), Rank::After);
    assert_eq!(rank(&[0x7f], &[0x80]), Rank::Before);
    assert_eq!(rank(&[0xff], &[0x00, 0xff]), Rank::After);
}

#[test]
fn a_prefix_ranks_before_what_it_is_a_prefix_of() {
    assert_eq!(rank(b"", b"a"), Rank::Before);
    assert_eq!(rank(b"ab", b"abc"), Rank::Before);
    assert_eq!(rank(b"abc", b"ab"), Rank::After);
}

#[test]
fn rank_agrees_with_slice_order() {
    let samples: [&[u8]; 7] = [b"", b"a", b"ab", b"abc", b"ac", b"b", &[0xff, 0x01]];
    for a in samples {
        for b in samples {
            let expected = if a < b {
                Rank::Before
            } else if a == b {
                Rank::Same
            } else {
                Rank::After
            };
            assert_eq!(rank(a, b), expected);
        }
    }
}

#[test]
fn starts_with_tells_prefixes() {
    assert!(starts_with(b"abc", b""));
    assert!(starts_with(b"abc", b"ab"));
    assert!(starts_with(b"abc", b"abc"));
    assert!(!starts_with(b"abc", b"abcd"));
    assert!(!starts_with(b"abc", b"b"));
    assert!(!starts_with(b"", b"a"));
}

#[test]
fn copy_bytes_copies() {
    assert_eq!(copy_bytes(b""), Vec::<u8>::new());
    assert_eq!(copy_bytes(&[1, 2, 255]), vec![1, 2, 255]);
}
