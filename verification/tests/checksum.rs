use fletchsum::fletcher_checksum;
use fletchsum::fletcher_checksum_bytes;
use fletchsum::fletcher_checksum_str;

#[test]
fn test_fletcher_checksum() {
    let input = vec![1, 2, 3, 4];

    assert_eq!(85899345930, fletcher_checksum(&input));
}

#[test]
fn test_fletcher_checksum_str() {
    let input = "hello, world";

    assert_eq!(32195074851976, fletcher_checksum_str(input));
}

#[test]
fn test_fletcher_checksum_bytes() {
    let input = vec![b'h', b'e', b'l', b'l', b'o', b',', b' ', b'w', b'o', b'r', b'l', b'd'];

    assert_eq!(32195074851976, fletcher_checksum_bytes(&input));
}

#[test]
fn repeated_calls_agree() {
    let input: Vec<u32> = vec![7, 0, 0xffff_ffff, 42, 9];

    assert_eq!(fletcher_checksum(&input), fletcher_checksum(&input));
    assert_eq!(
        fletcher_checksum_str("repeatable"),
        fletcher_checksum_str("repeatable")
    );
}

#[test]
fn empty_input_yields_zero() {
    assert_eq!(0, fletcher_checksum(&Vec::new()));
    assert_eq!(0, fletcher_checksum_str(""));
    assert_eq!(0, fletcher_checksum_bytes(&[]));
}

#[test]
fn text_agrees_with_its_bytes() {
    let ascii = "hello, world";
    assert_eq!(
        fletcher_checksum_str(ascii),
        fletcher_checksum_bytes(ascii.as_bytes())
    );

    // Multi-byte UTF-8 code units are hashed as raw bytes.
    let accented = "h\u{e9}llo, w\u{f6}rld";
    assert_eq!(
        fletcher_checksum_str(accented),
        fletcher_checksum_bytes(accented.as_bytes())
    );
}

#[test]
fn block_boundary_single_block() {
    // Exactly one block: 360 elements, reduced once after the last one.
    let input: Vec<u32> = vec![1; 360];

    assert_eq!(279086974894440, fletcher_checksum(&input));
}

#[test]
fn block_boundary_two_blocks() {
    // One element past the boundary: reduced after element 360 and again
    // after element 361.
    let input: Vec<u32> = vec![1; 361];

    assert_eq!(280637458088297, fletcher_checksum(&input));

    // Two full blocks plus one element.
    let longer: Vec<u32> = vec![1; 721];
    assert_eq!(1117898382770897, fletcher_checksum(&longer));
}

#[test]
fn reduction_wraps_at_modulus() {
    // A single element equal to the modulus reduces to zero in both sums.
    assert_eq!(0, fletcher_checksum(&vec![0xffff_ffff]));

    // The first sum reaches the modulus exactly; only the second survives.
    assert_eq!(
        0xffff_fffe_0000_0000,
        fletcher_checksum(&vec![0xffff_fffe, 1])
    );
}

#[test]
fn packing_splits_into_reduced_sums() {
    let r = fletcher_checksum_str("hello, world");

    // Low half: the first-order sum (the byte total); high half: the
    // second-order sum. Both lie below the modulus.
    assert_eq!(1160, r & 0xffff_ffff);
    assert_eq!(7496, r >> 32);
    assert!(r & 0xffff_ffff < 0xffff_ffff);
    assert!(r >> 32 < 0xffff_ffff);
}

#[test]
fn sensitivity_to_changes() {
    let base = fletcher_checksum(&vec![1, 2, 3, 4]);

    // Altering a single element changes the result.
    assert_ne!(base, fletcher_checksum(&vec![1, 2, 4, 4]));
    assert_eq!(94489280523, fletcher_checksum(&vec![1, 2, 4, 4]));

    // Swapping two unequal elements changes the result.
    assert_ne!(base, fletcher_checksum(&vec![2, 1, 3, 4]));
    assert_eq!(90194313226, fletcher_checksum(&vec![2, 1, 3, 4]));

    assert_ne!(
        fletcher_checksum_str("hello, world"),
        fletcher_checksum_str("hello, World")
    );
}

#[test]
fn hexadecimal_rendering() {
    // The surrounding tool prints the checksum as bare lowercase hex; the
    // expected string is the hex rendering of the documented decimal value.
    let r = fletcher_checksum_str("hello, world");

    assert_eq!(32195074851976, r);
    assert_eq!(format!("{:x}", 32195074851976u64), format!("{:x}", r));
    assert_eq!("1d4800000488", format!("{:x}", r));
}
