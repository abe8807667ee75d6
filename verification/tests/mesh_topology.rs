use xd_engine::mesh::{append_offset, arrow_indices, box_chain_indices, box_indices, cone_indices};

#[test]
fn box_has_twelve_triangles_over_eight_corners() {
    let b = box_indices();
    assert_eq!(b.len(), 36);
    assert_eq!(&b[..6], &[0, 1, 2, 0, 2, 3]);
    assert_eq!(&b[30..], &[0, 3, 7, 0, 7, 4]);
    assert!(b.iter().all(|&i| i < 8));
}

#[test]
fn cone_of_three_segments() {
    let c = cone_indices(3);
    assert_eq!(
        c,
        vec![0, 2, 1, 0, 3, 2, 0, 1, 3, 4, 5, 7, 5, 6, 7, 6, 4, 7]
    );
}

#[test]
fn cone_indices_name_existing_vertices() {
    for s in [1usize, 2, 12, 48] {
        let c = cone_indices(s);
        assert_eq!(c.len(), 6 * s);
        assert!(c.iter().all(|&i| (i as usize) < 2 * s + 2));
    }
    assert!(cone_indices(0).is_empty());
}

#[test]
fn append_offset_shifts_the_part() {
    let mut v = vec![7u32];
    append_offset(&mut v, &vec![0, 1, 2], 10);
    assert_eq!(v, vec![7, 10, 11, 12]);
}

#[test]
fn chained_boxes_use_their_own_vertices() {
    let chain = box_chain_indices(2);
    let b = box_indices();
    assert_eq!(chain.len(), 72);
    assert_eq!(&chain[..36], &b[..]);
    let second: Vec<u32> = b.iter().map(|i| i + 8).collect();
    assert_eq!(&chain[36..], &second[..]);
    assert!(box_chain_indices(12).iter().all(|&i| i < 96));
    assert!(box_chain_indices(0).is_empty());
}

#[test]
fn arrow_is_box_then_cone() {
    let a = arrow_indices();
    assert_eq!(a.len(), 36 + 72);
    assert_eq!(&a[..36], &box_indices()[..]);
    let cone: Vec<u32> = cone_indices(12).iter().map(|i| i + 8).collect();
    assert_eq!(&a[36..], &cone[..]);
    assert!(a.iter().all(|&i| i < 34));
}
