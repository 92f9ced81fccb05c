use audioleaf::utils::{interpret_choice, split_into_bytes, spread_colors, Choice};

#[test]
fn bytes_of_sixteen_bits() {
    assert_eq!(split_into_bytes(0x1234), (0x12, 0x34));
    assert_eq!(split_into_bytes(65535), (255, 255));
    assert_eq!(split_into_bytes(255), (0, 255));
    assert_eq!(split_into_bytes(0), (0, 0));
}

#[test]
fn device_prompt_answers() {
    assert_eq!(interpret_choice(" 2 \n", 3), Some(Choice::Automatic(1)));
    assert_eq!(interpret_choice("1", 3), Some(Choice::Automatic(0)));
    assert_eq!(interpret_choice("3", 3), Some(Choice::Automatic(2)));
    assert_eq!(interpret_choice("+1", 3), Some(Choice::Automatic(0)));
    assert_eq!(interpret_choice("0", 3), None);
    assert_eq!(interpret_choice("4", 3), None);
    assert_eq!(interpret_choice("M\n", 3), Some(Choice::Manual));
    assert_eq!(interpret_choice(" Q ", 0), Some(Choice::Quit));
    assert_eq!(interpret_choice("m", 3), None);
    assert_eq!(interpret_choice("", 3), None);
    assert_eq!(interpret_choice("99999999999999999999999", 3), None);
}

#[test]
fn colours_are_spread_evenly() {
    let palette = [[1, 0, 0], [2, 0, 0], [3, 0, 0], [4, 0, 0]];
    let spread = spread_colors(&palette, 12);
    assert_eq!(spread.len(), 12);
    for (i, c) in spread.iter().enumerate() {
        assert_eq!(*c, palette[i / 3]);
    }
}

#[test]
fn fewer_panels_than_colours() {
    let palette = [[1, 0, 0], [2, 0, 0], [3, 0, 0]];
    assert_eq!(spread_colors(&palette, 2), vec![[1, 0, 0], [2, 0, 0]]);
    assert_eq!(spread_colors(&palette, 3), vec![[1, 0, 0], [2, 0, 0], [3, 0, 0]]);
    assert_eq!(spread_colors(&palette, 0), Vec::<[u8; 3]>::new());
    assert_eq!(spread_colors(&[], 0), Vec::<[u8; 3]>::new());
}

#[test]
fn spread_keeps_palette_order() {
    let palette = [[1, 0, 0], [2, 0, 0], [3, 0, 0], [4, 0, 0], [5, 0, 0]];
    let spread = spread_colors(&palette, 7);
    for w in spread.windows(2) {
        assert!(w[0][0] <= w[1][0]);
    }
    assert_eq!(spread[0], [1, 0, 0]);
}
