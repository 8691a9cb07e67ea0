use sddf_net_queue::region::{copy_in, copy_out, in_bounds};

#[test]
fn in_bounds_takes_spans_up_to_the_end() {
    let region = [0u8; 16];
    assert!(in_bounds(&region, 0, 16));
    assert!(in_bounds(&region, 16, 0));
    assert!(in_bounds(&region, 4, 12));
    assert!(!in_bounds(&region, 4, 13));
    assert!(!in_bounds(&region, 17, 0));
}

#[test]
fn in_bounds_does_not_wrap_around() {
    let region = [0u8; 16];
    assert!(!in_bounds(&region, usize::MAX, 2));
    assert!(!in_bounds(&region, 2, usize::MAX));
    assert!(!in_bounds(&region, usize::MAX, usize::MAX));
}

#[test]
fn copy_in_lays_the_bytes_at_the_offset() {
    let mut region = [9u8; 8];
    assert!(copy_in(&mut region, 2, &[1, 2, 3]));
    assert_eq!(region, [9, 9, 1, 2, 3, 9, 9, 9]);
    assert!(copy_in(&mut region, 5, &[4, 5, 6]));
    assert_eq!(region, [9, 9, 1, 2, 3, 4, 5, 6]);
    assert!(copy_in(&mut region, 8, &[]));
    assert_eq!(region, [9, 9, 1, 2, 3, 4, 5, 6]);
}

#[test]
fn copy_in_refuses_what_does_not_fit() {
    let mut region = [9u8; 8];
    assert!(!copy_in(&mut region, 6, &[1, 2, 3]));
    assert_eq!(region, [9u8; 8]);
    assert!(!copy_in(&mut region, usize::MAX, &[1, 2]));
    assert_eq!(region, [9u8; 8]);
}

#[test]
fn copy_out_reads_the_span() {
    let region = [10u8, 11, 12, 13, 14, 15];
    assert_eq!(copy_out(&region, 1, 3), Some(vec![11, 12, 13]));
    assert_eq!(copy_out(&region, 0, 6), Some(vec![10, 11, 12, 13, 14, 15]));
    assert_eq!(copy_out(&region, 6, 0), Some(vec![]));
}

#[test]
fn copy_out_refuses_spans_outside_the_region() {
    let region = [10u8, 11, 12, 13, 14, 15];
    assert_eq!(copy_out(&region, 4, 3), None);
    assert_eq!(copy_out(&region, 7, 0), None);
    assert_eq!(copy_out(&region, usize::MAX, 1), None);
}
