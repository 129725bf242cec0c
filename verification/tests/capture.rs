use base64::Engine;
use screentime_pro::capture::{decode_png_payload, png_data_url};
use screentime_pro::export_format::to_base64;

#[test]
fn payload_as_data_url_is_decoded() {
    let bytes = vec![0x89u8, b'P', b'N', b'G', 13, 10, 26, 10, 0, 1, 2];
    let url = png_data_url(&bytes);
    assert!(url.starts_with("data:image/png;base64,"));
    assert_eq!(decode_png_payload(&url), Ok(bytes.clone()));
    let plain = base64::engine::general_purpose::STANDARD.encode(&bytes);
    assert_eq!(decode_png_payload(&format!("  {plain}\n")), Ok(bytes));
}

#[test]
fn data_url_matches_the_library_encoder() {
    for n in 0..40usize {
        let data: Vec<u8> = (0..n).map(|i| (i * 37 + 11) as u8).collect();
        assert_eq!(png_data_url(&data), format!("data:image/png;base64,{}", to_base64(&data)));
    }
}

#[test]
fn empty_payload_has_no_image() {
    assert_eq!(decode_png_payload(""), Err("没有要导出的图片".to_string()));
    assert_eq!(decode_png_payload("data:image/png;base64,"), Err("没有要导出的图片".to_string()));
}

#[test]
fn bad_payload_reports_the_decoder_error() {
    let text = "data:image/png;base64,@@@@";
    let err = base64::engine::general_purpose::STANDARD.decode("@@@@").unwrap_err();
    assert_eq!(decode_png_payload(text), Err(format!("截图数据解码失败: {err}")));
    // Non-canonical padding is refused too.
    assert!(decode_png_payload("QQ").is_err());
}
