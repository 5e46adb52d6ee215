use std::io::Read;

use voxplace::canvas::VoxelCanvas;
use voxplace::codec::{canvas_from_container, compress_stored_grid, decode, encode, VxlContainer};
use voxplace::errors::VoxError;
use voxplace::palette::{pack_rgb, Palette};

fn sample_container() -> VxlContainer {
    let mut grid = vec![0u8; 2 * 3 * 4];
    grid[0] = 1;
    grid[5] = 17;
    grid[23] = 255;
    VxlContainer {
        name: b"sample place".to_vec(),
        palette: vec![(1, 2, 3), (250, 251, 252)],
        size_x: 2,
        size_y: 3,
        size_z: 4,
        grid,
    }
}

#[test]
fn container_round_trip() {
    let c = sample_container();
    let bytes = encode(&c).unwrap();
    let d = decode(&bytes).unwrap();
    assert_eq!(d.name, c.name);
    assert_eq!(d.palette, c.palette);
    assert_eq!((d.size_x, d.size_y, d.size_z), (2, 3, 4));
    assert_eq!(d.grid, c.grid);
}

#[test]
fn container_header_layout() {
    let c = sample_container();
    let bytes = encode(&c).unwrap();
    let n = c.name.len();
    assert_eq!(&bytes[0..4], b"VXL ");
    assert_eq!(bytes[4] as usize, n);
    assert_eq!(&bytes[5..5 + n], b"sample place");
    assert_eq!(bytes[5 + n], 0); // reserved
    assert_eq!(&bytes[6 + n..10 + n], b"0001");
    assert_eq!(bytes[10 + n], 2); // palette entries
    // little-endian u16 dimensions
    assert_eq!(&bytes[11 + n..17 + n], &[2, 0, 3, 0, 4, 0]);
    // packed palette
    assert_eq!(&bytes[17 + n..23 + n], &[1, 2, 3, 250, 251, 252]);
}

#[test]
fn container_wide_dimensions_round_trip() {
    let c = VxlContainer {
        name: Vec::new(),
        palette: Vec::new(),
        size_x: 300,
        size_y: 1,
        size_z: 2,
        grid: vec![0u8; 600],
    };
    let bytes = encode(&c).unwrap();
    let n: usize = 0;
    assert_eq!(&bytes[11 + n..17 + n], &[44, 1, 1, 0, 2, 0]);
    let d = decode(&bytes).unwrap();
    assert_eq!((d.size_x, d.size_y, d.size_z), (300, 1, 2));
}

#[test]
fn decode_rejects_bad_magic() {
    let mut bytes = encode(&sample_container()).unwrap();
    bytes[0] = b'W';
    assert!(matches!(decode(&bytes), Err(VoxError::CorruptFormat)));
}

#[test]
fn decode_rejects_bad_version() {
    let c = sample_container();
    let mut bytes = encode(&c).unwrap();
    bytes[6 + c.name.len()] = b'9';
    assert!(matches!(decode(&bytes), Err(VoxError::CorruptFormat)));
}

#[test]
fn decode_rejects_truncated_input() {
    let bytes = encode(&sample_container()).unwrap();
    assert!(matches!(decode(&bytes[0..3].to_vec()), Err(VoxError::CorruptFormat)));
    assert!(matches!(
        decode(&bytes[0..bytes.len() - 1].to_vec()),
        Err(VoxError::CorruptFormat)
    ));
}

#[test]
fn decode_rejects_grid_box_mismatch() {
    // patch the encoded dims so the header claims a bigger box than
    // the grid fills
    let mut bytes = encode(&sample_container()).unwrap();
    let n = sample_container().name.len();
    bytes[15 + n] = 5;
    assert!(matches!(decode(&bytes), Err(VoxError::CorruptFormat)));
}

#[test]
fn stored_grid_blob_is_real_gzip() {
    let grid: Vec<u8> = (0..=255u8).cycle().take(1000).collect();
    let blob = compress_stored_grid(&grid).unwrap();
    assert_ne!(blob, grid);
    // decompress with flate2 directly: the blob must be a gzip stream
    let mut decoder = flate2::read::GzDecoder::new(blob.as_slice());
    let mut out = Vec::new();
    decoder.read_to_end(&mut out).unwrap();
    assert_eq!(out, grid);
}

#[test]
fn canvas_stored_round_trip() {
    let mut c = VoxelCanvas::new(9, "stored".to_string(), 3, 4, 4, 4, None, Some(5), Some(6))
        .unwrap();
    c.set(1, 0, 2, 33).unwrap();
    c.set(1, 1, 2, 44).unwrap();
    let blob = c.snapshot_blob().unwrap();
    let d = VoxelCanvas::from_stored(9, "stored".to_string(), 3, 4, 4, 4, &blob, 5, 6).unwrap();
    assert_eq!(d.grid, c.grid);
    assert_eq!(d.get(1, 1, 2).unwrap(), 44);
    assert_eq!(d.created_at, 5);
}

#[test]
fn canvas_from_stored_rejects_wrong_box() {
    let c = VoxelCanvas::new(9, "s".to_string(), 0, 2, 2, 2, None, Some(0), Some(0)).unwrap();
    let blob = c.snapshot_blob().unwrap();
    let r = VoxelCanvas::from_stored(9, "s".to_string(), 0, 2, 2, 3, &blob, 0, 0);
    assert!(matches!(r, Err(VoxError::CorruptFormat)));
    let r2 = VoxelCanvas::from_stored(9, "s".to_string(), 0, 2, 2, 2, &vec![1, 2, 3], 0, 0);
    assert!(matches!(r2, Err(VoxError::CorruptFormat)));
}

#[test]
fn canvas_container_export_import() {
    let mut c = VoxelCanvas::new(4, "exported".to_string(), 0, 2, 2, 2, None, Some(0), Some(0))
        .unwrap();
    c.set(0, 0, 1, 12).unwrap();
    let palette = Palette::new(0, None);
    let k = c.to_container(&palette).unwrap();
    assert_eq!(k.name, b"exported".to_vec());
    assert_eq!(k.palette.len(), 32);
    let c2 = canvas_from_container(4, 0, k).unwrap();
    assert_eq!(c2.name, "exported");
    assert_eq!(c2.grid, c.grid);
    assert_eq!((c2.size_x, c2.size_y, c2.size_z), (2, 2, 2));
}

#[test]
fn canvas_from_container_rejects_non_utf8_name() {
    let k = VxlContainer {
        name: vec![0xff, 0xfe],
        palette: Vec::new(),
        size_x: 1,
        size_y: 1,
        size_z: 1,
        grid: vec![0u8],
    };
    assert!(matches!(canvas_from_container(1, 0, k), Err(VoxError::CorruptFormat)));
}

#[test]
fn error_messages_fixed_strings() {
    assert_eq!(VoxError::CorruptFormat.message(), "Corrupt canvas data");
    assert_eq!(VoxError::PersistenceFailure.message(), "Failed to persist canvas data");
    assert_eq!(VoxError::RegistryLockFailure.message(), "Failed to read app state");
}

#[test]
fn palette_default_colors() {
    let p = Palette::new(3, None);
    assert_eq!(p.palette_id(), 3);
    let colors = p.colors();
    assert_eq!(colors.len(), 32);
    assert_eq!(colors[0], (0x6d, 0x00, 0x1a));
    assert_eq!(colors[8], (0x7e, 0xed, 0x56));
    assert_eq!(colors[31], (0xff, 0xff, 0xff));
}

#[test]
fn palette_custom_colors() {
    let p = Palette::new(5, Some(vec![(9, 8, 7)]));
    assert_eq!(p.palette_id(), 5);
    assert_eq!(p.colors().as_slice(), &[(9, 8, 7)]);
}

#[test]
fn palette_bytes_round_trip() {
    let p = Palette::new(1, Some(vec![(1, 2, 3), (4, 5, 6)]));
    let bytes = p.to_bytes();
    assert_eq!(bytes, vec![1, 2, 3, 4, 5, 6]);
    let q = Palette::from_bytes(1, &bytes);
    assert_eq!(q.colors().as_slice(), p.colors().as_slice());
}

#[test]
fn palette_from_bytes_ignores_trailing_fragment() {
    let q = Palette::from_bytes(1, &vec![1, 2, 3, 4, 5]);
    assert_eq!(q.colors().as_slice(), &[(1, 2, 3)]);
}

#[test]
fn pack_rgb_layout() {
    assert_eq!(pack_rgb(&vec![(10, 20, 30), (40, 50, 60)]), vec![10, 20, 30, 40, 50, 60]);
    assert!(pack_rgb(&Vec::new()).is_empty());
}
