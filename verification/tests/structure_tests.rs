use mscn_features::blocks::{block_dims, block_pixels};
use mscn_features::error::PipelineError;
use mscn_features::grid::{ensure_same_dims, Grid};
use mscn_features::kernel::Kernel;
use mscn_features::window::window_taps;

#[test]
fn grid_from_vec_roundtrip() {
    let cells: Vec<i32> = (0..12).collect();
    let g = Grid::from_vec(cells, 4, 3).unwrap();
    assert_eq!(g.width(), 4);
    assert_eq!(g.height(), 3);
    assert_eq!(g.len(), 12);
    for y in 0..3 {
        for x in 0..4 {
            assert_eq!(g.at(x, y), (y * 4 + x) as i32);
        }
    }
    assert_eq!(g.get(3, 2), Ok(11));
}

#[test]
fn grid_get_out_of_bounds() {
    let g = Grid::new_filled(4, 3, 0i32).unwrap();
    assert_eq!(g.get(4, 0), Err(PipelineError::OutOfRange));
    assert_eq!(g.get(0, 3), Err(PipelineError::OutOfRange));
    assert_eq!(g.get(9, 9), Err(PipelineError::OutOfRange));
}

#[test]
fn grid_from_vec_errors() {
    assert_eq!(
        Grid::from_vec(vec![0i32; 5], 2, 3).unwrap_err(),
        PipelineError::DimensionMismatch
    );
    assert_eq!(
        Grid::from_vec(Vec::<i32>::new(), 0, 3).unwrap_err(),
        PipelineError::InvalidParameter
    );
    assert_eq!(
        Grid::from_vec(Vec::<i32>::new(), 3, 0).unwrap_err(),
        PipelineError::InvalidParameter
    );
    assert_eq!(
        Grid::<i32>::new_filled(0, 7, 0).unwrap_err(),
        PipelineError::InvalidParameter
    );
}

#[test]
fn grid_put_overwrites_one_cell() {
    let mut g = Grid::new_filled(3, 3, 0i32).unwrap();
    g.put(1, 2, 5);
    for y in 0..3 {
        for x in 0..3 {
            let want = if (x, y) == (1, 2) { 5 } else { 0 };
            assert_eq!(g.at(x, y), want);
        }
    }
}

#[test]
fn grid_dimension_check() {
    let a = Grid::new_filled(4, 3, 0i32).unwrap();
    let b = Grid::new_filled(4, 3, 0u8).unwrap();
    let c = Grid::new_filled(3, 4, 0i32).unwrap();
    assert_eq!(ensure_same_dims(&a, &b), Ok(()));
    assert_eq!(
        ensure_same_dims(&a, &c),
        Err(PipelineError::DimensionMismatch)
    );
}

#[test]
fn kernel_from_weights_rejects_wrong_length() {
    assert_eq!(
        Kernel::from_weights(vec![0i32; 8], 1).unwrap_err(),
        PipelineError::InvalidParameter
    );
    assert_eq!(
        Kernel::from_weights(vec![0i32; 2], 0).unwrap_err(),
        PipelineError::InvalidParameter
    );
}

#[test]
fn kernel_lookup_row_major() {
    let k = Kernel::from_weights((0..9).collect::<Vec<i32>>(), 1).unwrap();
    assert_eq!(k.value(-1, -1), Ok(0));
    assert_eq!(k.value(1, -1), Ok(2));
    assert_eq!(k.value(0, 0), Ok(4));
    assert_eq!(k.value(-1, 1), Ok(6));
    assert_eq!(k.value(1, 1), Ok(8));
}

#[test]
fn kernel_lookup_out_of_range() {
    let k = Kernel::from_weights((0..9).collect::<Vec<i32>>(), 1).unwrap();
    assert_eq!(k.value(2, 0), Err(PipelineError::OutOfRange));
    assert_eq!(k.value(0, -2), Err(PipelineError::OutOfRange));
    assert_eq!(k.value(-7, 7), Err(PipelineError::OutOfRange));
    let k0 = Kernel::from_weights(vec![1i32], 0).unwrap();
    assert_eq!(k0.value(1, 0), Err(PipelineError::OutOfRange));
}

#[test]
fn kernel_radius_and_side() {
    let k = Kernel::from_weights(vec![0i32; 49], 3).unwrap();
    assert_eq!(k.radius(), 3);
    assert_eq!(k.side(), 7);
}

#[test]
fn window_interior_keeps_every_offset() {
    let taps = window_taps(5, 5, 32, 32, 3);
    assert_eq!(taps.len(), 49);
    for t in &taps {
        assert_eq!(t.px as i64, 5 + t.dx as i64);
        assert_eq!(t.py as i64, 5 + t.dy as i64);
        assert!(t.dx.abs() <= 3 && t.dy.abs() <= 3);
    }
}

#[test]
fn window_row_major_order() {
    let taps = window_taps(5, 5, 32, 32, 3);
    assert_eq!((taps[0].dx, taps[0].dy), (-3, -3));
    assert_eq!((taps[6].dx, taps[6].dy), (3, -3));
    assert_eq!((taps[7].dx, taps[7].dy), (-3, -2));
    assert_eq!((taps[48].dx, taps[48].dy), (3, 3));
}

#[test]
fn window_radius_zero_is_identity() {
    let taps = window_taps(5, 7, 32, 32, 0);
    assert_eq!(taps.len(), 1);
    assert_eq!((taps[0].dx, taps[0].dy, taps[0].px, taps[0].py), (0, 0, 5, 7));
}

#[test]
fn window_corner_skips_outside_taps() {
    let taps = window_taps(0, 0, 32, 32, 3);
    assert_eq!(taps.len(), 16);
    for t in &taps {
        assert!(t.dx >= 0 && t.dy >= 0);
    }
}

#[test]
fn block_count_truncates_trailing_pixels() {
    assert_eq!(block_dims(64, 48, 16), Ok((4, 3)));
    assert_eq!(block_dims(70, 48, 16), Ok((4, 3)));
    assert_eq!(block_dims(15, 48, 16), Ok((0, 3)));
}

#[test]
fn block_dims_rejects_zero_side() {
    assert_eq!(block_dims(64, 48, 0), Err(PipelineError::InvalidParameter));
}

#[test]
fn block_pixels_cover_one_tile() {
    let px = block_pixels(1, 2, 16, 64, 48);
    assert_eq!(px.len(), 256);
    assert_eq!(px[0], (16, 32));
    assert_eq!(px[15], (31, 32));
    assert_eq!(px[16], (16, 33));
    assert_eq!(px[255], (31, 47));
    for &(x, y) in &px {
        assert!(x < 64 && y < 48);
    }
}
