use sabitori::offscreen::{RenderError, Rendered};

fn sample() -> Rendered {
    // 2 x 2: red, green / blue, white
    Rendered {
        width: 2,
        height: 2,
        rgba: vec![255, 0, 0, 255, 0, 255, 0, 255, 0, 0, 255, 255, 255, 255, 255, 255],
    }
}

#[test]
fn pixels_are_read_row_by_row() {
    let r = sample();
    assert_eq!(r.pixel(0, 0), Some([255, 0, 0, 255]));
    assert_eq!(r.pixel(1, 0), Some([0, 255, 0, 255]));
    assert_eq!(r.pixel(0, 1), Some([0, 0, 255, 255]));
    assert_eq!(r.pixel(1, 1), Some([255, 255, 255, 255]));
    assert_eq!(r.pixel(2, 0), None);
    assert_eq!(r.pixel(0, 2), None);
}

#[test]
fn it_encodes_to_png() {
    let png = sample().to_png().expect("could not encode");
    assert_eq!(&png[..8], &[0x89, b'P', b'N', b'G', 0x0d, 0x0a, 0x1a, 0x0a], "no PNG signature");
}

#[test]
fn extra_bytes_are_ignored_and_short_buffers_refused() {
    let mut long = sample();
    long.rgba.extend_from_slice(&[9, 9, 9, 9]);
    assert_eq!(long.to_png().unwrap(), sample().to_png().unwrap());
    let short = Rendered { width: 2, height: 2, rgba: vec![0; 15] };
    assert!(matches!(short.to_png(), Err(RenderError::Encode)));
}

#[test]
fn errors_explain_themselves() {
    assert_eq!(RenderError::NoGpu.message(), "GPU が取れないので画面外に描けない");
    assert_eq!(RenderError::Encode.message(), "PNG に符号化できなかった");
    let io = RenderError::Io(std::io::Error::new(std::io::ErrorKind::Other, "disk full"));
    assert_eq!(io.message(), "書き出しに失敗した: disk full");
}
