use arkanoid::maps::{generate_block, generate_map, generate_maps, MapError};
use arkanoid::objects::Block;
use arkanoid::scene::fill_buffer;
use arkanoid::objects::{Ball, Bat};

#[test]
fn block_cells() {
    assert_eq!(generate_block(b' ', 0, 0), Ok(None));
    assert_eq!(generate_block(b'x', 0, 0), Ok(Some(Block { x: 21_428, y: 780_000 })));
    assert_eq!(generate_block(b'x', 13, 13), Ok(Some(Block { x: 578_571, y: 260_000 })));
    assert_eq!(generate_block(b'x', 2, 7), Ok(Some(Block { x: 321_428, y: 700_000 })));
    assert_eq!(generate_block(b'o', 0, 0), Err(MapError::UnexpectedChar(b'o')));
    assert_eq!(generate_block(b' ', 0, 14), Err(MapError::ColumnOutOfGrid));
    assert_eq!(generate_block(b' ', 14, 0), Err(MapError::RowOutOfGrid));
}

#[test]
fn single_level() {
    let m = generate_map(b"x x\n x").unwrap();
    assert_eq!(
        m,
        vec![
            Block { x: 21_428, y: 780_000 },
            Block { x: 107_142, y: 780_000 },
            Block { x: 64_285, y: 740_000 },
        ]
    );
    assert_eq!(generate_map(b""), Ok(Vec::new()));
    assert_eq!(generate_map(b"x\r\nx\r\n").unwrap().len(), 2);
}

#[test]
fn level_errors() {
    assert_eq!(generate_map(b"x?"), Err(MapError::UnexpectedChar(b'?')));
    assert_eq!(generate_map(b"x\rx"), Err(MapError::UnexpectedChar(b'\r')));
    assert_eq!(generate_map(b"               x"), Err(MapError::ColumnOutOfGrid));
    let mut tall = Vec::new();
    for _ in 0..14 {
        tall.extend_from_slice(b"\n");
    }
    tall.extend_from_slice(b"x");
    assert_eq!(generate_map(&tall), Err(MapError::RowOutOfGrid));
}

#[test]
fn several_levels() {
    let ms = generate_maps(b"x\n---\n x\n x\n---\n").unwrap();
    assert_eq!(ms.len(), 3);
    assert_eq!(ms[0], vec![Block { x: 21_428, y: 780_000 }]);
    assert_eq!(ms[1], vec![Block { x: 64_285, y: 780_000 }, Block { x: 64_285, y: 740_000 }]);
    assert!(ms[2].is_empty());
    let ms = generate_maps(b"xx\r\n---\r\nx").unwrap();
    assert_eq!(ms.len(), 2);
    assert_eq!(ms[0].len(), 2);
    assert_eq!(ms[1], vec![Block { x: 21_428, y: 780_000 }]);
    assert_eq!(generate_maps(b"x\n----\nx").unwrap_err(), MapError::UnexpectedChar(b'-'));
    assert_eq!(generate_maps(b"").unwrap(), vec![Vec::<Block>::new()]);
}

#[test]
fn scene_buffer() {
    let mut buf = vec![7, 7];
    let bat = Bat { x: 300_000, v: 0 };
    let ball = Ball { x: 100_000, y: 200_000, vx: 0, vy: 0 };
    fill_buffer(&mut buf, &bat, &ball, &vec![Block { x: 50_000, y: 700_000 }]);
    assert_eq!(buf.len(), 36);
    assert_eq!(&buf[0..6], &[260_000, 19_000, 260_000, 11_000, 340_000, 19_000]);
    assert_eq!(&buf[12..18], &[90_000, 210_000, 90_000, 190_000, 110_000, 210_000]);
    assert_eq!(&buf[30..36], &[30_000, 690_000, 70_000, 710_000, 70_000, 690_000]);
}
