use agg::ft_bitmap::{decompose_ft_bitmap_gray8, decompose_ft_bitmap_mono, FtBitmap};

fn mono_bitmap() -> FtBitmap {
    FtBitmap { buffer: vec![0b1010_0000, 0b0100_0000, 0xFF, 0x00], rows: 2, width: 10, pitch: 2 }
}

#[test]
fn mono_bitmap_gives_a_full_cell_per_set_bit() {
    let mut cells = Vec::new();
    decompose_ft_bitmap_mono(&mono_bitmap(), 5, 20, false, &mut cells);
    let mut expect = vec![(19, 5, 255), (19, 7, 255), (19, 14, 255)];
    for x in 5..13 {
        expect.push((18, x, 255));
    }
    assert_eq!(cells, expect);
}

#[test]
fn flipped_mono_bitmap_reads_rows_from_the_last() {
    let mut cells = vec![(0, 0, 1)];
    decompose_ft_bitmap_mono(&mono_bitmap(), 5, 20, true, &mut cells);
    let mut expect = vec![(0, 0, 1)];
    for x in 5..13 {
        expect.push((21, x, 255));
    }
    expect.extend([(20, 5, 255), (20, 7, 255), (20, 14, 255)]);
    assert_eq!(cells, expect);
}

#[test]
fn gray_bitmap_gives_every_pixel_through_gamma() {
    let gamma: Vec<u32> = (0..256u32).map(|v| 2 * v).collect();
    let bm = FtBitmap { buffer: vec![0, 200, 9, 10, 11, 9], rows: 2, width: 2, pitch: 3 };
    let mut cells = Vec::new();
    decompose_ft_bitmap_gray8(&bm, -1, 0, false, &gamma, &mut cells);
    assert_eq!(cells, vec![(-1, -1, 0), (-1, 0, 400), (-2, -1, 20), (-2, 0, 22)]);
    let mut flipped = Vec::new();
    decompose_ft_bitmap_gray8(&bm, -1, 0, true, &gamma, &mut flipped);
    assert_eq!(flipped, vec![(1, -1, 20), (1, 0, 22), (0, -1, 0), (0, 0, 400)]);
}

#[test]
fn empty_bitmap_gives_no_cells() {
    let bm = FtBitmap { buffer: vec![], rows: 0, width: 8, pitch: 1 };
    let mut cells = Vec::new();
    decompose_ft_bitmap_mono(&bm, 0, 0, true, &mut cells);
    assert!(cells.is_empty());
}
