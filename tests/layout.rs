use automata::layout::{
    default_layout, ConvolutionLayout, LayoutError, FFT_WINDOW_SIZE, FILTER_WINDOW_SIZE,
    GAME_BOARD_SIZE, WINDOW_SIZE,
};

#[test]
fn plugin_sizes() {
    let l = default_layout();
    assert_eq!(l.window(), WINDOW_SIZE);
    assert_eq!(l.filter(), FILTER_WINDOW_SIZE);
    assert_eq!(l.fft_size(), 768);
    assert_eq!(FFT_WINDOW_SIZE, 768);
    assert_eq!(l.bins(), 385);
    assert_eq!(GAME_BOARD_SIZE, 385);
    assert_eq!(l.latency(), 256);
}

#[test]
fn shortest_transform() {
    let l = ConvolutionLayout::new(4, 3).unwrap();
    assert_eq!(l.fft_size(), 6);
    assert_eq!(l.bins(), 4);
    assert_eq!(l.latency(), 2);
}

#[test]
fn longer_transform() {
    let l = ConvolutionLayout::with_fft_size(512, 257, 1024).unwrap();
    assert_eq!(l.bins(), 513);
    assert_eq!(l.latency(), 512);
}

#[test]
fn refused_layouts() {
    assert_eq!(ConvolutionLayout::new(0, 3), Err(LayoutError::Empty));
    assert_eq!(ConvolutionLayout::new(3, 0), Err(LayoutError::Empty));
    assert_eq!(ConvolutionLayout::with_fft_size(4, 3, 5), Err(LayoutError::TooShort));
    assert_eq!(ConvolutionLayout::with_fft_size(4, 3, 2), Err(LayoutError::TooShort));
    assert_eq!(ConvolutionLayout::new(usize::MAX, 2), Err(LayoutError::TooLarge));
    assert_eq!(ConvolutionLayout::new(usize::MAX, 1).unwrap().fft_size(), usize::MAX);
    assert_eq!(ConvolutionLayout::new(usize::MAX - 1, 3), Err(LayoutError::TooLarge));
    assert!(ConvolutionLayout::new(usize::MAX - 1, 2).is_ok());
}
