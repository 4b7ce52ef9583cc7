use termmenu::commands::{Alignment, DrawCommand, StyleRole};
use termmenu::geometry::Rect;
use termmenu::layout::layout;
use termmenu::menu::MenuEntry;
use termmenu::render::render_plan;

fn two_entries() -> Vec<MenuEntry> {
    vec![
        MenuEntry::new("first".to_string(), "first sub".to_string(), "a".to_string()),
        MenuEntry::new("second".to_string(), "second sub".to_string(), "b".to_string()),
    ]
}

#[test]
fn resize_to_zero_height_hides_everything() {
    // The terminal shrank to zero rows between layout and render: nothing is
    // written, and nothing fails.
    let cmds = layout(Rect::new(0, 0, 40, 10), &two_entries());
    assert!(!cmds.is_empty());
    let visible = render_plan(40, 0, cmds);
    assert!(visible.is_empty());
}

#[test]
fn full_surface_keeps_every_command() {
    let cmds = layout(Rect::new(0, 0, 40, 10), &two_entries());
    let expected = layout(Rect::new(0, 0, 40, 10), &two_entries());
    let visible = render_plan(40, 10, cmds);
    assert_eq!(visible, expected);
}

#[test]
fn shrunken_surface_clips_lower_rows() {
    let cmds = layout(Rect::new(0, 0, 40, 10), &two_entries());
    let visible = render_plan(40, 5, cmds);
    // Rows 0..=4 survive: the border, the first entry's three text fragments
    // and the divider on row 4. The second entry (rows 5-6) and the footer
    // (row 9) are clipped away.
    let expected = vec![
        DrawCommand::Border(Rect::new(0, 0, 40, 10)),
        DrawCommand::Text {
            row: 1,
            x: 2,
            width: 36,
            content: "first".to_string(),
            align: Alignment::Left,
            style: StyleRole::Title,
        },
        DrawCommand::Text {
            row: 1,
            x: 2,
            width: 36,
            content: "a".to_string(),
            align: Alignment::Right,
            style: StyleRole::Tag,
        },
        DrawCommand::Text {
            row: 2,
            x: 2,
            width: 36,
            content: "first sub".to_string(),
            align: Alignment::Left,
            style: StyleRole::Subtitle,
        },
        DrawCommand::Divider { row: 4, x: 2, width: 36 },
    ];
    assert_eq!(visible, expected);
}

#[test]
fn narrow_surface_clips_columns_left_of_content() {
    // Entry fragments start at column 2; a one-column surface keeps only the
    // commands anchored at column 0.
    let cmds = layout(Rect::new(0, 0, 40, 10), &two_entries());
    let visible = render_plan(1, 10, cmds);
    for c in &visible {
        match c {
            DrawCommand::Border(r) => assert_eq!(r.x, 0),
            DrawCommand::Text { x, .. } => assert_eq!(*x, 0),
            DrawCommand::Divider { x, .. } => assert_eq!(*x, 0),
        }
    }
    // Border and footer only.
    assert_eq!(visible.len(), 2);
}

#[test]
fn order_is_preserved() {
    let cmds = layout(Rect::new(0, 0, 40, 10), &two_entries());
    let again = layout(Rect::new(0, 0, 40, 10), &two_entries());
    let visible = render_plan(40, 7, cmds);
    let mut expected = Vec::new();
    for c in again {
        let keeps = match &c {
            DrawCommand::Border(r) => r.y < 7,
            DrawCommand::Text { row, .. } => *row < 7,
            DrawCommand::Divider { row, .. } => *row < 7,
        };
        if keeps {
            expected.push(c);
        }
    }
    assert_eq!(visible, expected);
}
