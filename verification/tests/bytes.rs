use grid_node::bytes::append;
use grid_node::bytes::bytes_eq;
use grid_node::bytes::copy_bytes;
use grid_node::bytes::copy_list;
use grid_node::bytes::holds;
use grid_node::bytes::others;
use grid_node::bytes::position;
use grid_node::decimal::parse_number;
use grid_node::decimal::push_decimal;
use grid_node::mesh::maintain;
use grid_node::routes::parse_key;
use grid_node::routes::starts_with;

#[test]
fn byte_strings_compare_by_content() {
    assert!(bytes_eq(&vec![1, 2], &vec![1, 2]));
    assert!(!bytes_eq(&vec![1, 2], &vec![1, 3]));
    assert!(!bytes_eq(&vec![1, 2], &vec![1]));
    assert!(bytes_eq(&Vec::new(), &Vec::new()));
    assert_eq!(copy_bytes(&vec![5, 6, 7]), vec![5, 6, 7]);
    let mut out = vec![1u8];
    append(&mut out, &vec![2, 3]);
    assert_eq!(out, vec![1, 2, 3]);
}

#[test]
fn lists_are_searched_from_the_front() {
    let items = vec![vec![1u8], vec![2u8], vec![1u8]];
    assert_eq!(position(&items, &vec![1]), Some(0));
    assert_eq!(position(&items, &vec![2]), Some(1));
    assert_eq!(position(&items, &vec![3]), None);
    assert!(holds(&items, &vec![2]));
    assert!(!holds(&items, &vec![]));
    assert_eq!(copy_list(&items), items);
    assert_eq!(others(&items, &vec![1]), vec![vec![2u8]]);
    assert_eq!(others(&items, &vec![9]), items);
}

#[test]
fn numbers_are_read_up_to_a_limit() {
    assert_eq!(parse_number(&b"120".to_vec(), 0, 120), Some(120));
    assert_eq!(parse_number(&b"121".to_vec(), 0, 120), None);
    assert_eq!(parse_number(&b"x120".to_vec(), 1, 120), Some(120));
    assert_eq!(parse_number(&b"120".to_vec(), 3, 120), None);
    assert_eq!(parse_number(&b"1 2".to_vec(), 0, 120), None);
    assert_eq!(parse_number(&b"00".to_vec(), 0, 0), Some(0));
}

#[test]
fn numbers_are_written_without_leading_zeros() {
    for (n, text) in [(0u64, "0"), (9, "9"), (10, "10"), (4001, "4001"), (u64::MAX, "18446744073709551615")] {
        let mut out = Vec::new();
        push_decimal(&mut out, n);
        assert_eq!(out, text.as_bytes().to_vec());
        if n <= 1000000 {
            assert_eq!(parse_number(&out, 0, 1000000), Some(n));
        }
    }
}

#[test]
fn keys_are_read_from_a_position() {
    assert_eq!(parse_key(&b"ab-12".to_vec(), 2), Some(-12));
    assert_eq!(parse_key(&b"ab12".to_vec(), 2), Some(12));
    assert_eq!(parse_key(&b"ab".to_vec(), 2), None);
    assert_eq!(parse_key(&b"--1".to_vec(), 0), None);
    assert_eq!(parse_key(&b"+-1".to_vec(), 0), None);
    assert!(starts_with(&b"abc".to_vec(), &b"ab".to_vec()));
    assert!(starts_with(&b"abc".to_vec(), &Vec::new()));
    assert!(!starts_with(&b"ab".to_vec(), &b"abc".to_vec()));
    assert!(!starts_with(&b"abc".to_vec(), &b"ac".to_vec()));
}

#[test]
fn mesh_keeps_the_reachable_and_fills_up() {
    let me = vec![0u8];
    let mesh = vec![vec![1u8], vec![2u8], vec![3u8]];
    let reachable = vec![vec![3u8], vec![0u8], vec![4u8], vec![1u8], vec![5u8], vec![6u8]];
    assert_eq!(
        maintain(&mesh, &reachable, &me, 4),
        vec![vec![1u8], vec![3u8], vec![4u8], vec![5u8]]
    );
    assert_eq!(maintain(&mesh, &reachable, &me, 2), vec![vec![1u8], vec![3u8]]);
    assert_eq!(maintain(&mesh, &reachable, &me, 1), vec![vec![1u8], vec![3u8]]);
    assert_eq!(
        maintain(&mesh, &reachable, &me, 9),
        vec![vec![1u8], vec![3u8], vec![4u8], vec![5u8], vec![6u8]]
    );
    assert!(maintain(&mesh, &Vec::new(), &me, 4).is_empty());
    assert_eq!(maintain(&Vec::new(), &vec![vec![7u8], vec![7u8]], &me, 4), vec![vec![7u8]]);
}
