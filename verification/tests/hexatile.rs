use wasmgame::hexatile::{Hexatile, HexatileField};

#[test]
fn field_index_and_coords_agree() {
    let f = HexatileField { width: 7, data: vec![0; 49], changed: false };
    assert_eq!(f.index(3, 2), 17);
    assert_eq!(f.coords(17), (3, 2));
    assert_eq!(f.index(0, 0), 0);
    assert_eq!(f.coords(6), (6, 0));
    assert_eq!(f.coords(7), (0, 1));
    for i in 0..49 {
        let (x, y) = f.coords(i);
        assert_eq!(f.index(x, y), i);
    }
}

#[test]
fn normalize_folds_v_into_u_and_w() {
    assert_eq!(Hexatile::normalize_uvw((1, 2, 3)), (3, 0, 5));
    assert_eq!(Hexatile::normalize_uvw((1, -2, 3)), (-1, 0, 1));
    assert_eq!(Hexatile::normalize_uvw((4, 0, -4)), (4, 0, -4));
    let once = Hexatile::normalize_uvw((10, -3, 2));
    assert_eq!(Hexatile::normalize_uvw(once), once);
}

#[test]
fn settle_handles_changed_tiles_once() {
    let mut h = Hexatile { uvw: (1, 1, 1), active: true, hidden: false, changed: true };
    assert_eq!(h.settle(), Some((2, 2)));
    assert_eq!(h.uvw, (2, 0, 2));
    assert!(!h.changed);
    assert!(h.active);
    assert_eq!(h.settle(), None);
    let d = Hexatile::default();
    assert_eq!(d.uvw, (0, 0, 0));
    let f = HexatileField::default();
    assert_eq!(f.width, 0);
}
