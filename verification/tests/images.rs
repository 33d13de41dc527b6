use colorblind::buffer_len;
use colorblind::coord;
use colorblind::process;
use colorblind::process_pixel;
use colorblind::try_process;
use colorblind::DeficiencyModel;
use colorblind::Mode;
use colorblind::Pixel;
use colorblind::WrongSize;

const ALL: [Mode; 9] = [
    Mode::Normal,
    Mode::Protanopia,
    Mode::Protanomaly,
    Mode::Deuteranopia,
    Mode::Deuteranomaly,
    Mode::Tritanopia,
    Mode::Tritanomaly,
    Mode::Achromatopsia,
    Mode::Achromatomaly,
];

/// A stand-in for the projection that shows in its result what it was given.
fn marker(model: DeficiencyModel, anom: bool, p: Pixel) -> Pixel {
    Pixel::new((model.cpu / 10_000) as u8, if anom { 1 } else { 0 }, p.b.wrapping_add(p.r))
}

fn keep(_model: DeficiencyModel, _anom: bool, p: Pixel) -> Pixel {
    p
}

fn sample() -> Vec<u8> {
    vec![
        255, 0, 0, 255, //
        0, 255, 0, 0, //
        0, 0, 255, 17, //
        10, 200, 30, 128, //
        128, 128, 128, 255, //
        1, 2, 3, 4,
    ]
}

#[test]
fn coord_is_row_major_with_four_bytes_a_pixel() {
    assert_eq!(coord(0, 0, 10), 0);
    assert_eq!(coord(1, 0, 10), 4);
    assert_eq!(coord(0, 1, 10), 40);
    assert_eq!(coord(3, 2, 10), 92);
    assert_eq!(coord(9, 9, 10), 396);
}

#[test]
fn coord_in_an_image_without_width() {
    assert_eq!(coord(0, 5, 0), 0);
}

#[test]
fn coord_of_the_last_pixel_of_a_large_image() {
    let width = 1usize << 14;
    let height = 1usize << 14;
    assert_eq!(coord(width - 1, height - 1, width), width * height * 4 - 4);
}

#[test]
fn buffer_len_is_four_bytes_a_pixel() {
    assert_eq!(buffer_len(1, 1), Some(4));
    assert_eq!(buffer_len(3, 2), Some(24));
    assert_eq!(buffer_len(640, 480), Some(1_228_800));
}

#[test]
fn buffer_len_of_an_empty_image() {
    assert_eq!(buffer_len(0, 0), Some(0));
    assert_eq!(buffer_len(0, 7), Some(0));
    assert_eq!(buffer_len(7, 0), Some(0));
}

#[test]
fn buffer_len_beyond_usize() {
    assert_eq!(buffer_len(usize::MAX, 2), None);
    assert_eq!(buffer_len(usize::MAX / 4 + 1, 1), None);
    assert_eq!(buffer_len(usize::MAX, usize::MAX), None);
    assert_eq!(buffer_len(usize::MAX / 4, 1), Some(usize::MAX / 4 * 4));
}

#[test]
fn pure_red_under_achromatopsia() {
    let mut buf = vec![255u8, 0, 0, 255];
    process(&mut buf, 1, 1, Mode::Achromatopsia, keep);
    assert_eq!(buf, vec![76, 76, 76, 255]);
}

#[test]
fn pure_red_under_achromatomaly() {
    let mut buf = vec![255u8, 0, 0, 255];
    process(&mut buf, 1, 1, Mode::Achromatomaly, keep);
    assert_eq!(buf, vec![141, 49, 49, 255]);
}

#[test]
fn every_mode_makes_every_pixel_opaque() {
    for mode in ALL {
        let mut buf = sample();
        process(&mut buf, 3, 2, mode, marker);
        for k in 0..6 {
            assert_eq!(buf[4 * k + 3], 255);
        }
    }
}

#[test]
fn normal_keeps_the_colours() {
    let mut buf = sample();
    process(&mut buf, 2, 3, Mode::Normal, marker);
    let before = sample();
    for k in 0..6 {
        assert_eq!(buf[4 * k..4 * k + 3], before[4 * k..4 * k + 3]);
        assert_eq!(buf[4 * k + 3], 255);
    }
}

#[test]
fn normal_twice_is_normal_once() {
    let mut once = sample();
    process(&mut once, 3, 2, Mode::Normal, marker);
    let mut twice = once.clone();
    process(&mut twice, 3, 2, Mode::Normal, marker);
    assert_eq!(twice, once);
}

#[test]
fn achromatomaly_twice_need_not_be_achromatomaly_once() {
    let mut once = vec![255u8, 0, 0, 255];
    process(&mut once, 1, 1, Mode::Achromatomaly, keep);
    let mut twice = once.clone();
    process(&mut twice, 1, 1, Mode::Achromatomaly, keep);
    assert_eq!(once, vec![141, 49, 49, 255]);
    assert_eq!(twice, vec![100, 67, 67, 255]);
    assert_ne!(twice, once);
}

#[test]
fn achromatopsia_of_an_image() {
    let mut buf = sample();
    process(&mut buf, 3, 2, Mode::Achromatopsia, marker);
    assert_eq!(
        buf,
        vec![
            76, 76, 76, 255, //
            150, 150, 150, 255, //
            29, 29, 29, 255, //
            124, 124, 124, 255, //
            128, 128, 128, 255, //
            2, 2, 2, 255,
        ]
    );
}

#[test]
fn achromatomaly_of_an_image() {
    let mut buf = vec![255u8, 0, 0, 9, 10, 200, 30, 9];
    process(&mut buf, 1, 2, Mode::Achromatomaly, marker);
    assert_eq!(buf, vec![141, 49, 49, 255, 82, 152, 90, 255]);
}

#[test]
fn dichromat_modes_hand_their_model_and_flag_to_the_projection() {
    let expected: [(Mode, u8, u8); 6] = [
        (Mode::Protanopia, 73, 0),
        (Mode::Protanomaly, 73, 1),
        (Mode::Deuteranopia, 114, 0),
        (Mode::Deuteranomaly, 114, 1),
        (Mode::Tritanopia, 17, 0),
        (Mode::Tritanomaly, 17, 1),
    ];
    for (mode, family, flag) in expected {
        let mut buf = vec![5u8, 6, 7, 0, 50, 60, 70, 0];
        process(&mut buf, 2, 1, mode, marker);
        assert_eq!(buf, vec![family, flag, 12, 255, family, flag, 120, 255]);
    }
}

#[test]
fn other_modes_never_call_the_projection() {
    fn refuse(_model: DeficiencyModel, _anom: bool, _p: Pixel) -> Pixel {
        panic!("the projection was called")
    }
    for mode in [Mode::Normal, Mode::Achromatopsia, Mode::Achromatomaly] {
        let mut buf = sample();
        process(&mut buf, 6, 1, mode, refuse);
    }
}

#[test]
fn an_unknown_mode_byte_is_processed_as_protanopia() {
    let mut buf = vec![5u8, 6, 7, 0];
    process(&mut buf, 1, 1, Mode::from_byte(200), marker);
    assert_eq!(buf, vec![73, 0, 12, 255]);
}

#[test]
fn an_empty_image_stays_empty() {
    for mode in ALL {
        let mut buf: Vec<u8> = Vec::new();
        process(&mut buf, 0, 0, mode, marker);
        assert!(buf.is_empty());
        process(&mut buf, 0, 5, mode, marker);
        assert!(buf.is_empty());
        process(&mut buf, 5, 0, mode, marker);
        assert!(buf.is_empty());
    }
}

#[test]
fn the_shape_of_the_image_does_not_matter() {
    for mode in ALL {
        let mut wide = sample();
        process(&mut wide, 6, 1, mode, marker);
        let mut tall = sample();
        process(&mut tall, 1, 6, mode, marker);
        let mut block = sample();
        process(&mut block, 2, 3, mode, marker);
        assert_eq!(wide, tall);
        assert_eq!(wide, block);
    }
}

#[test]
fn each_pixel_is_processed_as_if_alone() {
    for mode in ALL {
        let before = sample();
        let mut whole = before.clone();
        process(&mut whole, 3, 2, mode, marker);
        for k in 0..6 {
            let mut alone = before[4 * k..4 * k + 4].to_vec();
            process(&mut alone, 1, 1, mode, marker);
            assert_eq!(alone[..], whole[4 * k..4 * k + 4]);
        }
    }
}

#[test]
fn process_agrees_with_process_pixel() {
    for mode in ALL {
        let before = sample();
        let mut whole = before.clone();
        process(&mut whole, 3, 2, mode, marker);
        for k in 0..6 {
            let p = Pixel::new(before[4 * k], before[4 * k + 1], before[4 * k + 2]);
            let q = process_pixel(mode, &marker, p);
            assert_eq!(whole[4 * k..4 * k + 3], [q.r, q.g, q.b]);
        }
    }
}

#[test]
fn process_pixel_by_mode() {
    let p = Pixel::new(255, 0, 0);
    assert_eq!(process_pixel(Mode::Normal, &marker, p), p);
    assert_eq!(process_pixel(Mode::Achromatopsia, &marker, p), Pixel::new(76, 76, 76));
    assert_eq!(process_pixel(Mode::Achromatomaly, &marker, p), Pixel::new(141, 49, 49));
    assert_eq!(process_pixel(Mode::Deuteranomaly, &marker, p), Pixel::new(114, 1, 255));
}

#[test]
fn a_closure_that_captures_serves_as_projection() {
    let shift: u8 = 3;
    let project = |_model: DeficiencyModel, _anom: bool, p: Pixel| Pixel::new(p.r + shift, p.g, p.b);
    let mut buf = vec![1u8, 2, 3, 4];
    process(&mut buf, 1, 1, Mode::Tritanopia, project);
    assert_eq!(buf, vec![4, 2, 3, 255]);
}

#[test]
fn try_process_on_a_buffer_of_the_image_size() {
    let mut buf = vec![255u8, 0, 0, 1, 0, 0, 255, 2];
    assert_eq!(try_process(&mut buf, 2, 1, Mode::Achromatopsia, keep), Ok(()));
    assert_eq!(buf, vec![76, 76, 76, 255, 29, 29, 29, 255]);
}

#[test]
fn try_process_agrees_with_process() {
    for mode in ALL {
        let mut tried = sample();
        assert_eq!(try_process(&mut tried, 3, 2, mode, marker), Ok(()));
        let mut plain = sample();
        process(&mut plain, 3, 2, mode, marker);
        assert_eq!(tried, plain);
    }
}

#[test]
fn try_process_leaves_a_short_buffer_alone() {
    let mut buf = vec![255u8, 0, 0, 1, 0, 0, 255];
    assert_eq!(try_process(&mut buf, 2, 1, Mode::Achromatopsia, keep), Err(WrongSize));
    assert_eq!(buf, vec![255, 0, 0, 1, 0, 0, 255]);
}

#[test]
fn try_process_leaves_a_long_buffer_alone() {
    let mut buf = vec![255u8, 0, 0, 1, 0, 0, 255, 2, 9];
    assert_eq!(try_process(&mut buf, 2, 1, Mode::Normal, keep), Err(WrongSize));
    assert_eq!(buf, vec![255, 0, 0, 1, 0, 0, 255, 2, 9]);
    assert_eq!(try_process(&mut buf, 0, 0, Mode::Normal, keep), Err(WrongSize));
    assert_eq!(buf, vec![255, 0, 0, 1, 0, 0, 255, 2, 9]);
}

#[test]
fn try_process_reports_a_size_beyond_usize() {
    let mut buf = vec![1u8, 2, 3, 4];
    assert_eq!(try_process(&mut buf, usize::MAX, 2, Mode::Protanopia, marker), Err(WrongSize));
    assert_eq!(try_process(&mut buf, usize::MAX / 2 + 1, 2, Mode::Protanopia, marker), Err(WrongSize));
    assert_eq!(buf, vec![1, 2, 3, 4]);
}

#[test]
fn try_process_of_an_empty_image() {
    let mut buf: Vec<u8> = Vec::new();
    assert_eq!(try_process(&mut buf, 0, 9, Mode::Tritanomaly, marker), Ok(()));
    assert!(buf.is_empty());
}

#[test]
fn pure_green_under_achromatopsia() {
    let mut buf = vec![0u8, 255, 0, 255];
    process(&mut buf, 1, 1, Mode::Achromatopsia, keep);
    assert_eq!(buf, vec![150, 150, 150, 255]);
}

#[test]
fn pure_green_under_achromatomaly() {
    let mut buf = vec![0u8, 255, 0, 255];
    process(&mut buf, 1, 1, Mode::Achromatomaly, keep);
    assert_eq!(buf, vec![95, 188, 95, 255]);
}
