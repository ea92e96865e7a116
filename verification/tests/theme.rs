use mibar::color::Color;
use mibar::theme::{TextColorStack, COLOR_OVERWRITE_CAP};

#[test]
fn read_write_colors() {
    let mut stack = TextColorStack::new();
    let theme_color = Color::transparent();
    stack.push_text_color(Color::red());
    stack.push_text_color(Color::green());
    stack.push_text_color(Color::blue());

    assert_eq!(stack.text_color(theme_color), Color::blue());
    stack.pop_text_color();

    assert_eq!(stack.text_color(theme_color), Color::green());
    stack.pop_text_color();

    assert_eq!(stack.text_color(theme_color), Color::red());
    stack.pop_text_color();

    assert_eq!(stack.text_color(theme_color), Color::transparent());
}

#[test]
#[should_panic]
fn exceed_color_stack_capacity() {
    let mut stack = TextColorStack::new();

    for _ in 0..=COLOR_OVERWRITE_CAP {
        stack.push_text_color(Color::black());
    }
}

#[test]
fn popping_an_empty_stack_does_nothing() {
    let mut stack = TextColorStack::new();
    stack.pop_text_color();
    assert_eq!(stack.text_color(Color::white()), Color::white());
}

#[test]
fn color_constructors() {
    assert_eq!(Color::rgb(1, 2, 3), Color { r: 1, g: 2, b: 3, a: 255 });
    assert_eq!(Color::rgba(1, 2, 3, 4), Color { r: 1, g: 2, b: 3, a: 4 });
    assert_eq!(Color::red(), Color::rgb(255, 0, 0));
}
