use bevy_minibuffer::style::{AnsiColor, Color, MinibufferStyle, OptionFlags, RenderOp, Section};

fn show(ops: &[RenderOp]) -> String {
    let mut s = String::new();
    for op in ops {
        match op {
            RenderOp::Foreground(Color { color, light }) => {
                s += &format!("<fg {:?}{}>", color, if *light { "+" } else { "" })
            }
            RenderOp::Background(Color { color, light }) => {
                s += &format!("<bg {:?}{}>", color, if *light { "+" } else { "" })
            }
            RenderOp::Reset => s += "<reset>",
            RenderOp::Text(t) => s += t,
            RenderOp::Newline => s += "<nl>",
        }
    }
    s
}

#[test]
fn default_style_is_ascii() {
    let style = MinibufferStyle::default();
    assert!(style.ascii);
    assert!(!style.newlines);
}

#[test]
fn page_indicator() {
    let style = MinibufferStyle::default();
    assert_eq!(
        show(&style.begin(Section::Page(1, 3))),
        "<nl>    <fg Black+>*<reset>*<fg Black+>*<reset><nl>"
    );
    assert_eq!(show(&style.begin(Section::Page(0, 1))), "");
    let fancy = MinibufferStyle { ascii: false, newlines: false };
    assert_eq!(
        show(&fancy.begin(Section::Page(2, 3))),
        "<nl>  <fg Black+>\u{2022}\u{2022}<reset>\u{2022}<fg Black+><reset><nl>"
    );
}

#[test]
fn options_and_toggles() {
    let style = MinibufferStyle::default();
    let focused = OptionFlags { selected: true, focused: true, disabled: false };
    assert_eq!(show(&style.begin(Section::Option(focused))), "<fg Blue>[o]<reset> <fg Blue>");
    let off = OptionFlags { selected: false, focused: false, disabled: false };
    assert_eq!(show(&style.begin(Section::Option(off))), "<fg Black+>[ ]<reset> ");
    assert_eq!(show(&style.begin(Section::OptionExclusive(focused))), "<fg Blue>(x)<reset> <fg Blue>");
    let disabled = OptionFlags { selected: false, focused: true, disabled: true };
    assert_eq!(show(&style.begin(Section::OptionExclusive(disabled))), "<fg Red>( )<reset> <fg Black+>");
    assert_eq!(show(&style.begin(Section::Toggle(true))), "<fg Black><bg Blue> ");
    assert_eq!(show(&style.end(Section::Toggle(true))), " <reset>  ");
    assert_eq!(show(&style.begin(Section::Answer(false))), "<fg Magenta>...");
    assert_eq!(show(&style.begin(Section::Placeholder)), "<fg Black+>Default: ");
    assert_eq!(show(&style.begin(Section::ListItem(false))), ", ");
    assert_eq!(show(&style.end(Section::List)), "]");
    assert_eq!(show(&style.end(Section::Message)), "<nl>");
    assert_eq!(show(&style.end(Section::Input)), "<reset>");
    let newlines = MinibufferStyle { ascii: true, newlines: true };
    assert_eq!(show(&newlines.end(Section::Answer(true))), "<reset><nl>");
    let _ = AnsiColor::Cyan;
}
