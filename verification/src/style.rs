//! The look of prompts: what is drawn before and after each section of a
//! prompt, as a list of drawing operations.
use crate::chars::push_str;
use vstd::prelude::*;

verus! {

/// A terminal color.
#[derive(Debug, Clone, Copy, PartialEq, Eq, Structural)]
pub enum AnsiColor {
    Black,
    Red,
    Green,
    Yellow,
    Blue,
    Magenta,
    Cyan,
    White,
}

/// A terminal color in its dark or light shade.
#[derive(Debug, Clone, Copy, PartialEq, Eq, Structural)]
pub struct Color {
    /// The color
    pub color: AnsiColor,
    /// The light shade rather than the dark one
    pub light: bool,
}

/// One drawing operation.
#[derive(Debug)]
pub enum RenderOp {
    /// Set the text color.
    Foreground(Color),
    /// Set the background color.
    Background(Color),
    /// Back to the default colors.
    Reset,
    /// Write text.
    Text(String),
    /// End the line.
    Newline,
}

/// A drawing operation as a mathematical value.
pub enum OpView {
    Foreground(Color),
    Background(Color),
    Reset,
    Text(Seq<char>),
    Newline,
}

/// The view of one operation.
pub open spec fn op_view(op: RenderOp) -> OpView {
    match op {
        RenderOp::Foreground(c) => OpView::Foreground(c),
        RenderOp::Background(c) => OpView::Background(c),
        RenderOp::Reset => OpView::Reset,
        RenderOp::Text(s) => OpView::Text(s@),
        RenderOp::Newline => OpView::Newline,
    }
}

/// The view of a list of operations.
pub open spec fn ops_view(ops: Seq<RenderOp>) -> Seq<OpView> {
    ops.map_values(|op: RenderOp| op_view(op))
}

/// The flags of an option of a prompt.
#[derive(Debug, Clone, Copy, PartialEq, Eq, Structural)]
pub struct OptionFlags {
    /// The option is selected.
    pub selected: bool,
    /// The option has the focus.
    pub focused: bool,
    /// The option cannot be chosen.
    pub disabled: bool,
}

/// A section of a prompt.
#[derive(Debug, Clone, Copy, PartialEq, Eq, Structural)]
pub enum Section {
    /// The question; whether it is answered.
    Query(bool),
    /// The answer; whether it is shown.
    Answer(bool),
    /// A toggle; whether it is selected.
    Toggle(bool),
    /// An option of which one may be chosen.
    OptionExclusive(OptionFlags),
    /// An option of which many may be chosen.
    Option(OptionFlags),
    /// A message.
    Message,
    /// An action.
    Action,
    /// A validation; whether the input is valid.
    Validator(bool),
    /// A placeholder.
    Placeholder,
    /// The input.
    Input,
    /// A list.
    List,
    /// An item of a list; whether it is the first.
    ListItem(bool),
    /// A page indicator: the page shown and the number of pages.
    Page(usize, usize),
}

/// Minibuffer style
#[derive(Debug, Clone, Copy, PartialEq, Eq, Structural)]
pub struct MinibufferStyle {
    /// Draw with ASCII characters only.
    pub ascii: bool,
    /// End answers with a new line.
    pub newlines: bool,
}

impl Default for MinibufferStyle {
    fn default() -> (s: MinibufferStyle)
        ensures
            s.ascii,
            !s.newlines,
    {
        MinibufferStyle { ascii: true, newlines: false }
    }
}

/// The dark shade of a color.
pub open spec fn dark(c: AnsiColor) -> Color {
    Color { color: c, light: false }
}

/// The light shade of a color.
pub open spec fn light(c: AnsiColor) -> Color {
    Color { color: c, light: true }
}

/// The ASCII text or the other one.
pub open spec fn pick(ascii: bool, a: Seq<char>, u: Seq<char>) -> Seq<char> {
    if ascii {
        a
    } else {
        u
    }
}

/// `s` written `n` times.
pub open spec fn repeat(s: Seq<char>, n: nat) -> Seq<char>
    decreases n,
{
    if n == 0 {
        Seq::empty()
    } else {
        repeat(s, (n - 1) as nat) + s
    }
}

/// The color and marker of an option whose focus and disabled flags are
/// given, and the color of its label.
pub open spec fn exclusive_marker(ascii: bool, f: OptionFlags) -> Seq<OpView> {
    if !f.focused {
        seq![
            OpView::Foreground(light(AnsiColor::Black)),
            OpView::Text(pick(ascii, "( )"@, "\u{25cb}"@)),
            OpView::Reset,
        ]
    } else if f.disabled {
        seq![
            OpView::Foreground(dark(AnsiColor::Red)),
            OpView::Text(pick(ascii, "( )"@, "\u{25cb}"@)),
            OpView::Reset,
        ]
    } else {
        seq![
            OpView::Foreground(dark(AnsiColor::Blue)),
            OpView::Text(pick(ascii, "(x)"@, "\u{25cf}"@)),
            OpView::Reset,
        ]
    }
}

/// The label color of an option.
pub open spec fn option_label(f: OptionFlags) -> Seq<OpView> {
    if f.disabled {
        seq![OpView::Foreground(light(AnsiColor::Black))]
    } else if f.focused {
        seq![OpView::Foreground(dark(AnsiColor::Blue))]
    } else {
        seq![]
    }
}

/// The box drawn before an option of which many may be chosen.
pub open spec fn option_prefix(ascii: bool, f: OptionFlags) -> Seq<char> {
    if f.selected && f.focused {
        pick(ascii, "[o]"@, "\u{25a3}"@)
    } else if f.selected {
        pick(ascii, "[x]"@, "\u{25a0}"@)
    } else {
        pick(ascii, "[ ]"@, "\u{25a1}"@)
    }
}

/// The color of the box of an option of which many may be chosen.
pub open spec fn option_color(f: OptionFlags) -> OpView {
    if f.focused && f.disabled {
        OpView::Foreground(dark(AnsiColor::Red))
    } else if f.focused {
        OpView::Foreground(dark(AnsiColor::Blue))
    } else if f.selected {
        OpView::Reset
    } else {
        OpView::Foreground(light(AnsiColor::Black))
    }
}

/// How many pages follow page `i` of `count`.
pub open spec fn pages_after(i: usize, count: usize) -> nat {
    if i < count {
        (count - i - 1) as nat
    } else {
        0
    }
}

/// What is drawn before a section.
pub open spec fn begin_ops(style: MinibufferStyle, section: Section) -> Seq<OpView> {
    let ascii = style.ascii;
    match section {
        Section::Query(_) => seq![],
        Section::Answer(show) => if show {
            seq![OpView::Foreground(dark(AnsiColor::Magenta))]
        } else {
            seq![
                OpView::Foreground(dark(AnsiColor::Magenta)),
                OpView::Text(pick(ascii, "..."@, "\u{2026}"@)),
            ]
        },
        Section::Toggle(selected) => if selected {
            seq![
                OpView::Foreground(dark(AnsiColor::Black)),
                OpView::Background(dark(AnsiColor::Blue)),
                OpView::Text(" "@),
            ]
        } else {
            seq![
                OpView::Foreground(dark(AnsiColor::White)),
                OpView::Background(light(AnsiColor::Black)),
                OpView::Text(" "@),
            ]
        },
        Section::OptionExclusive(f) => exclusive_marker(ascii, f) + seq![OpView::Text(" "@)]
            + option_label(f),
        Section::Option(f) => seq![
            option_color(f),
            OpView::Text(option_prefix(ascii, f)),
            OpView::Reset,
            OpView::Text(" "@),
        ] + option_label(f),
        Section::Message => seq![],
        Section::Action => seq![OpView::Text(" "@), OpView::Foreground(dark(AnsiColor::Blue))],
        Section::Validator(valid) => seq![
            OpView::Foreground(if valid {
                dark(AnsiColor::Blue)
            } else {
                dark(AnsiColor::Red)
            }),
        ],
        Section::Placeholder => seq![
            OpView::Foreground(light(AnsiColor::Black)),
            OpView::Text("Default: "@),
        ],
        Section::Input => seq![],
        Section::List => seq![OpView::Text("["@)],
        Section::ListItem(first) => if first {
            seq![]
        } else {
            seq![OpView::Text(", "@)]
        },
        Section::Page(i, count) => if count == 1 {
            seq![]
        } else {
            let icon = pick(ascii, "*"@, "\u{2022}"@);
            seq![
                OpView::Newline,
                OpView::Text(repeat(" "@, if ascii { 4 } else { 2 })),
                OpView::Foreground(light(AnsiColor::Black)),
                OpView::Text(repeat(icon, i as nat)),
                OpView::Reset,
                OpView::Text(icon),
                OpView::Foreground(light(AnsiColor::Black)),
                OpView::Text(repeat(icon, pages_after(i, count))),
                OpView::Reset,
                OpView::Newline,
            ]
        },
    }
}

/// What is drawn after a section.
pub open spec fn end_ops(style: MinibufferStyle, section: Section) -> Seq<OpView> {
    match section {
        Section::Query(_) => seq![OpView::Text(" "@)],
        Section::Answer(_) => if style.newlines {
            seq![OpView::Reset, OpView::Newline]
        } else {
            seq![OpView::Reset]
        },
        Section::Toggle(_) => seq![OpView::Text(" "@), OpView::Reset, OpView::Text("  "@)],
        Section::OptionExclusive(_) => seq![OpView::Newline, OpView::Reset],
        Section::Option(_) => seq![OpView::Newline, OpView::Reset],
        Section::List => seq![OpView::Text("]"@)],
        Section::ListItem(_) => seq![],
        Section::Message => seq![OpView::Newline],
        _ => seq![OpView::Reset],
    }
}

fn text(s: &str) -> (op: RenderOp)
    ensures
        op_view(op) == OpView::Text(s@),
{
    let mut t = String::new();
    push_str(&mut t, s);
    RenderOp::Text(t)
}

fn repeated(s: &str, n: usize) -> (op: RenderOp)
    ensures
        op_view(op) == OpView::Text(repeat(s@, n as nat)),
{
    let mut t = String::new();
    let mut i: usize = 0;
    while i < n
        invariant
            i <= n,
            t@ == repeat(s@, i as nat),
        decreases n - i,
    {
        push_str(&mut t, s);
        i = i + 1;
    }
    RenderOp::Text(t)
}

fn fg(color: AnsiColor, light: bool) -> (op: RenderOp)
    ensures
        op_view(op) == OpView::Foreground(Color { color, light }),
{
    RenderOp::Foreground(Color { color, light })
}

fn push_op(v: &mut Vec<RenderOp>, op: RenderOp)
    ensures
        ops_view(final(v)@) == ops_view(old(v)@).push(op_view(op)),
{
    v.push(op);
    assert(ops_view(v@) =~= ops_view(old(v)@).push(op_view(op)));
}

fn push_label(v: &mut Vec<RenderOp>, f: OptionFlags)
    ensures
        ops_view(final(v)@) == ops_view(old(v)@) + option_label(f),
{
    if f.disabled {
        push_op(v, fg(AnsiColor::Black, true));
    } else if f.focused {
        push_op(v, fg(AnsiColor::Blue, false));
    } else {
        assert(ops_view(v@) + option_label(f) =~= ops_view(v@));
    }
}

impl MinibufferStyle {
    /// What to draw before a section.
    pub fn begin(&self, section: Section) -> (ops: Vec<RenderOp>)
        ensures
            ops_view(ops@) == begin_ops(*self, section),
    {
        let ascii = self.ascii;
        let mut v: Vec<RenderOp> = Vec::new();
        match section {
            Section::Query(_) => {},
            Section::Answer(show) => {
                push_op(&mut v, fg(AnsiColor::Magenta, false));
                if !show {
                    push_op(&mut v, text(if ascii { "..." } else { "\u{2026}" }));
                }
            },
            Section::Toggle(selected) => {
                if selected {
                    push_op(&mut v, fg(AnsiColor::Black, false));
                    push_op(&mut v, RenderOp::Background(Color { color: AnsiColor::Blue, light: false }));
                } else {
                    push_op(&mut v, fg(AnsiColor::White, false));
                    push_op(&mut v, RenderOp::Background(Color { color: AnsiColor::Black, light: true }));
                }
                push_op(&mut v, text(" "));
            },
            Section::OptionExclusive(f) => {
                if !f.focused {
                    push_op(&mut v, fg(AnsiColor::Black, true));
                    push_op(&mut v, text(if ascii { "( )" } else { "\u{25cb}" }));
                } else if f.disabled {
                    push_op(&mut v, fg(AnsiColor::Red, false));
                    push_op(&mut v, text(if ascii { "( )" } else { "\u{25cb}" }));
                } else {
                    push_op(&mut v, fg(AnsiColor::Blue, false));
                    push_op(&mut v, text(if ascii { "(x)" } else { "\u{25cf}" }));
                }
                push_op(&mut v, RenderOp::Reset);
                push_op(&mut v, text(" "));
                push_label(&mut v, f);
            },
            Section::Option(f) => {
                let prefix = if f.selected && f.focused {
                    if ascii { "[o]" } else { "\u{25a3}" }
                } else if f.selected {
                    if ascii { "[x]" } else { "\u{25a0}" }
                } else {
                    if ascii { "[ ]" } else { "\u{25a1}" }
                };
                if f.focused && f.disabled {
                    push_op(&mut v, fg(AnsiColor::Red, false));
                } else if f.focused {
                    push_op(&mut v, fg(AnsiColor::Blue, false));
                } else if f.selected {
                    push_op(&mut v, RenderOp::Reset);
                } else {
                    push_op(&mut v, fg(AnsiColor::Black, true));
                }
                push_op(&mut v, text(prefix));
                push_op(&mut v, RenderOp::Reset);
                push_op(&mut v, text(" "));
                push_label(&mut v, f);
            },
            Section::Message => {},
            Section::Action => {
                push_op(&mut v, text(" "));
                push_op(&mut v, fg(AnsiColor::Blue, false));
            },
            Section::Validator(valid) => {
                if valid {
                    push_op(&mut v, fg(AnsiColor::Blue, false));
                } else {
                    push_op(&mut v, fg(AnsiColor::Red, false));
                }
            },
            Section::Placeholder => {
                push_op(&mut v, fg(AnsiColor::Black, true));
                push_op(&mut v, text("Default: "));
            },
            Section::Input => {},
            Section::List => {
                push_op(&mut v, text("["));
            },
            Section::ListItem(first) => {
                if !first {
                    push_op(&mut v, text(", "));
                }
            },
            Section::Page(i, count) => {
                if count != 1 {
                    let icon = if ascii { "*" } else { "\u{2022}" };
                    let after: usize = if i < count { count - i - 1 } else { 0 };
                    push_op(&mut v, RenderOp::Newline);
                    push_op(&mut v, repeated(" ", if ascii { 4 } else { 2 }));
                    push_op(&mut v, fg(AnsiColor::Black, true));
                    push_op(&mut v, repeated(icon, i));
                    push_op(&mut v, RenderOp::Reset);
                    push_op(&mut v, text(icon));
                    push_op(&mut v, fg(AnsiColor::Black, true));
                    push_op(&mut v, repeated(icon, after));
                    push_op(&mut v, RenderOp::Reset);
                    push_op(&mut v, RenderOp::Newline);
                }
            },
        }
        assert(ops_view(v@) =~= begin_ops(*self, section));
        v
    }

    /// What to draw after a section.
    pub fn end(&self, section: Section) -> (ops: Vec<RenderOp>)
        ensures
            ops_view(ops@) == end_ops(*self, section),
    {
        let mut v: Vec<RenderOp> = Vec::new();
        match section {
            Section::Query(_) => {
                push_op(&mut v, text(" "));
            },
            Section::Answer(_) => {
                push_op(&mut v, RenderOp::Reset);
                if self.newlines {
                    push_op(&mut v, RenderOp::Newline);
                }
            },
            Section::Toggle(_) => {
                push_op(&mut v, text(" "));
                push_op(&mut v, RenderOp::Reset);
                push_op(&mut v, text("  "));
            },
            Section::OptionExclusive(_) | Section::Option(_) => {
                push_op(&mut v, RenderOp::Newline);
                push_op(&mut v, RenderOp::Reset);
            },
            Section::List => {
                push_op(&mut v, text("]"));
            },
            Section::ListItem(_) => {},
            Section::Message => {
                push_op(&mut v, RenderOp::Newline);
            },
            _ => {
                push_op(&mut v, RenderOp::Reset);
            },
        }
        assert(ops_view(v@) =~= end_ops(*self, section));
        v
    }
}

} // verus!
