use frame_stream::error::VideoReaderError;
use frame_stream::frame::DecodedFrame;
use frame_stream::pixel::bgr_to_rgb;

#[test]
fn bgr_buffer_is_relaid_to_rgb() {
    // two pixels
    let bgr: Vec<u8> = vec![1, 2, 3, 4, 5, 6];
    let rgb = bgr_to_rgb(&bgr);
    assert_eq!(rgb, vec![3, 2, 1, 6, 5, 4]);
}

#[test]
fn single_pixel_swaps_outer_channels() {
    let rgb = bgr_to_rgb(&vec![10, 20, 30]);
    assert_eq!(rgb, vec![30, 20, 10]);
}

#[test]
fn empty_buffer_converts_to_empty() {
    let rgb = bgr_to_rgb(&Vec::new());
    assert!(rgb.is_empty());
}

#[test]
fn frame_keeps_matching_buffer() {
    let data: Vec<u8> = vec![7; 2 * 2 * 3];
    let f = DecodedFrame::from_rgb(2, 2, data, 125).expect("the buffer length matches");
    assert_eq!(f.width, 2);
    assert_eq!(f.height, 2);
    assert_eq!(f.timestamp_ms, 125);
    assert_eq!(f.data, vec![7; 12]);
}

#[test]
fn frame_rejects_short_buffer() {
    match DecodedFrame::from_rgb(2, 2, vec![0; 11], 0) {
        Err(VideoReaderError::OpenCV(msg)) => assert!(!msg.is_empty()),
        Ok(_) => panic!("a short buffer must be rejected"),
    }
}

#[test]
fn frame_rejects_oversized_buffer() {
    assert!(DecodedFrame::from_rgb(1, 1, vec![0; 4], 0).is_err());
}
